//! What the game's web service says about users, as plain data, and what
//! the program makes of it. Asking the service is not done here: the caller
//! asks, and hands over what came back.

use vstd::prelude::*;
use vstd::string::StringExecFns;
use crate::profiles::{text_view, copy_text};
use crate::text::{starts_with, signed_decimal, push_signed_decimal, chars_of, has_prefix};

verus! {

/// The user that a session token belongs to.
#[derive(Debug, Clone)]
pub struct RobloxUser {
    pub id: i64,
    pub name: String,
    pub display_name: String,
}

/// A user together with the address of the avatar picture.
#[derive(Debug, Clone)]
pub struct RobloxUserData {
    pub id: i64,
    pub name: String,
    pub display_name: String,
    pub thumbnail: Option<String>,
}

/// A user as mathematics sees it.
pub struct RobloxUserDataView {
    pub id: i64,
    pub name: Seq<char>,
    pub display_name: Seq<char>,
    pub thumbnail: Option<Seq<char>>,
}

impl View for RobloxUserData {
    type V = RobloxUserDataView;

    open spec fn view(&self) -> RobloxUserDataView {
        RobloxUserDataView {
            id: self.id,
            name: self.name@,
            display_name: self.display_name@,
            thumbnail: text_view(self.thumbnail),
        }
    }
}

/// The answer to a request for avatar pictures.
#[derive(Debug, Clone)]
pub struct ThumbnailResponse {
    pub data: Vec<ThumbnailData>,
}

/// One avatar picture.
#[derive(Debug, Clone)]
pub struct ThumbnailData {
    pub target_id: i64,
    pub state: String,
    pub image_url: Option<String>,
}

/// The answer to a request for the presence of users.
#[derive(Debug, Clone)]
pub struct PresenceResponse {
    pub user_presences: Vec<UserPresenceData>,
}

/// Where one user is, as the service reports it.
#[derive(Debug, Clone)]
pub struct UserPresenceData {
    /// 0 offline, 1 online, 2 in a game, 3 in the studio.
    pub user_presence_type: i32,
    pub last_location: Option<String>,
    pub place_id: Option<i64>,
    pub root_place_id: Option<i64>,
    pub game_id: Option<String>,
    pub universe_id: Option<i64>,
    pub user_id: i64,
    pub last_online: Option<String>,
}

/// Where one user is, as the program shows it.
#[derive(Debug, Clone)]
pub struct UserPresence {
    /// `offline`, `online`, `ingame`, `studio` or `unknown`.
    pub status: String,
    pub last_location: Option<String>,
    pub place_id: Option<i64>,
}

/// The game that a user is in, for joining them.
#[derive(Debug, Clone)]
pub struct UserGameInfo {
    pub user_id: i64,
    pub username: String,
    pub is_in_game: bool,
    pub place_id: Option<i64>,
    pub game_id: Option<String>,
    pub game_name: Option<String>,
}

/// A group that a user belongs to.
#[derive(Debug, Clone)]
pub struct GroupInfo {
    pub id: i64,
    pub name: String,
    pub member_count: Option<i64>,
}

/// A group as mathematics sees it.
pub struct GroupInfoView {
    pub id: i64,
    pub name: Seq<char>,
    pub member_count: Option<i64>,
}

impl View for GroupInfo {
    type V = GroupInfoView;

    open spec fn view(&self) -> GroupInfoView {
        GroupInfoView { id: self.id, name: self.name@, member_count: self.member_count }
    }
}

/// The membership of a user in a group.
#[derive(Debug, Clone)]
pub struct GroupMembership {
    pub group: GroupInfo,
    pub role: Option<GroupRole>,
}

/// The role that a user has in a group.
#[derive(Debug, Clone)]
pub struct GroupRole {
    pub name: String,
    pub rank: i32,
}

/// The answer to a request for the groups of a user.
#[derive(Debug, Clone)]
pub struct GroupsResponse {
    pub data: Vec<GroupMembership>,
}

/// The answer to a request for the currency of a user.
#[derive(Debug, Clone)]
pub struct RobuxResponse {
    pub robux: i64,
}

/// The public profile of a user.
#[derive(Debug, Clone)]
pub struct UserProfileResponse {
    pub id: i64,
    pub name: String,
    pub display_name: String,
    /// When the user joined, as the service writes it.
    pub created: String,
    pub is_banned: bool,
}

/// What the program shows about a user in detail.
#[derive(Debug, Clone)]
pub struct ExtendedUserDetails {
    pub user_id: i64,
    pub username: String,
    pub display_name: String,
    pub robux: Option<i64>,
    pub created_at: Option<String>,
    pub is_banned: bool,
    pub groups_count: i32,
    pub groups: Vec<GroupInfo>,
    pub profile_url: String,
    pub login_link: String,
}

/// The name of the cookie that carries a session token, with the equals
/// sign that follows it in a header.
pub open spec fn token_key() -> Seq<char> {
    ".ROBLOSECURITY="@
}

/// The value of the cookie header that presents `token`: the token after
/// the key, unless the token brings the key along.
pub open spec fn cookie_header_of(token: Seq<char>) -> Seq<char> {
    if starts_with(token, token_key()) {
        token
    } else {
        token_key() + token
    }
}

/// How the program names what a user is doing.
pub open spec fn presence_status(presence_type: i32) -> Seq<char> {
    if presence_type == 0 {
        "offline"@
    } else if presence_type == 1 {
        "online"@
    } else if presence_type == 2 {
        "ingame"@
    } else if presence_type == 3 {
        "studio"@
    } else {
        "unknown"@
    }
}

/// The address of the public profile of a user.
pub open spec fn profile_url_of(user_id: i64) -> Seq<char> {
    "https://www.roblox.com/users/"@ + signed_decimal(user_id as int) + "/profile"@
}

/// The address that opens the start page for a user.
pub open spec fn login_link_of(user_id: i64) -> Seq<char> {
    "https://www.roblox.com/home?userId="@ + signed_decimal(user_id as int)
}

/// The address to ask for the avatar picture of a user.
pub open spec fn thumbnail_request_of(user_id: i64) -> Seq<char> {
    "https://thumbnails.roblox.com/v1/users/avatar-headshot?userIds="@ + signed_decimal(
        user_id as int,
    ) + "&size=150x150&format=Png&isCircular=false"@
}

/// The address that answers how much currency a user has.
pub open spec fn currency_url_of(user_id: i64) -> Seq<char> {
    "https://economy.roblox.com/v1/users/"@ + signed_decimal(user_id as int) + "/currency"@
}

/// The address that answers which groups a user belongs to.
pub open spec fn groups_url_of(user_id: i64) -> Seq<char> {
    "https://groups.roblox.com/v1/users/"@ + signed_decimal(user_id as int) + "/groups/roles"@
}

/// The address that answers what the public profile of a user is.
pub open spec fn user_url_of(user_id: i64) -> Seq<char> {
    "https://users.roblox.com/v1/users/"@ + signed_decimal(user_id as int)
}

/// A count as a signed 32-bit number holds it: the count itself up to
/// 2^31 - 1, and beyond that its low 32 bits read as a signed number.
pub open spec fn count_as_i32(count: nat) -> int {
    let low = count % 0x1_0000_0000;
    if low < 0x8000_0000 {
        low as int
    } else {
        low - 0x1_0000_0000
    }
}

/// The groups of a list of memberships, each as its view.
pub open spec fn groups_of(memberships: Seq<GroupMembership>) -> Seq<GroupInfoView> {
    Seq::new(memberships.len(), |i: int| memberships[i].group@)
}

/// The groups of a list, each as its view.
pub open spec fn group_views(groups: Seq<GroupInfo>) -> Seq<GroupInfoView> {
    Seq::new(groups.len(), |i: int| groups[i]@)
}

/// The value of the cookie header that presents `token`.
pub fn cookie_header(token: &str) -> (header: String)
    ensures
        header@ == cookie_header_of(token@),
{
    let chars: Vec<char> = chars_of(token);
    let key: Vec<char> = chars_of(".ROBLOSECURITY=");
    if has_prefix(chars.as_slice(), key.as_slice()) {
        token.to_owned()
    } else {
        let mut header: String = String::from_str(".ROBLOSECURITY=");
        header.append(token);
        header
    }
}

/// A user and the address of the avatar picture, as one value.
pub fn user_data(user: RobloxUser, thumbnail: Option<String>) -> (data: RobloxUserData)
    ensures
        data.id == user.id,
        data.name == user.name,
        data.display_name == user.display_name,
        data.thumbnail == thumbnail,
{
    RobloxUserData {
        id: user.id,
        name: user.name,
        display_name: user.display_name,
        thumbnail,
    }
}

/// The address to ask for the avatar picture of a user.
pub fn thumbnail_request(user_id: i64) -> (url: String)
    ensures
        url@ == thumbnail_request_of(user_id),
{
    let mut url: String = String::from_str(
        "https://thumbnails.roblox.com/v1/users/avatar-headshot?userIds=",
    );
    push_signed_decimal(&mut url, user_id);
    url.append("&size=150x150&format=Png&isCircular=false");
    url
}

/// The address that answers how much currency a user has.
pub fn currency_url(user_id: i64) -> (url: String)
    ensures
        url@ == currency_url_of(user_id),
{
    let mut url: String = String::from_str("https://economy.roblox.com/v1/users/");
    push_signed_decimal(&mut url, user_id);
    url.append("/currency");
    url
}

/// The address that answers which groups a user belongs to.
pub fn groups_url(user_id: i64) -> (url: String)
    ensures
        url@ == groups_url_of(user_id),
{
    let mut url: String = String::from_str("https://groups.roblox.com/v1/users/");
    push_signed_decimal(&mut url, user_id);
    url.append("/groups/roles");
    url
}

/// The address that answers what the public profile of a user is.
pub fn user_url(user_id: i64) -> (url: String)
    ensures
        url@ == user_url_of(user_id),
{
    let mut url: String = String::from_str("https://users.roblox.com/v1/users/");
    push_signed_decimal(&mut url, user_id);
    url
}

/// The address of the first picture of the answer, if the answer has a
/// first picture and that has an address.
pub fn first_thumbnail(response: &ThumbnailResponse) -> (url: Option<String>)
    ensures
        text_view(url) == if response.data@.len() > 0 {
            text_view(response.data@[0].image_url)
        } else {
            None
        },
{
    if response.data.len() == 0 {
        None
    } else {
        copy_text(&response.data[0].image_url)
    }
}

/// How the program names what a user is doing.
pub fn status_name(presence_type: i32) -> (name: &'static str)
    ensures
        name@ == presence_status(presence_type),
{
    if presence_type == 0 {
        "offline"
    } else if presence_type == 1 {
        "online"
    } else if presence_type == 2 {
        "ingame"
    } else if presence_type == 3 {
        "studio"
    } else {
        "unknown"
    }
}

/// The presence of the first user of the answer, if there is one.
pub fn user_presence(response: &PresenceResponse) -> (presence: Option<UserPresence>)
    ensures
        presence is Some <==> response.user_presences@.len() > 0,
        presence matches Some(p) ==> {
            let first = response.user_presences@[0];
            &&& p.status@ == presence_status(first.user_presence_type)
            &&& text_view(p.last_location) == text_view(first.last_location)
            &&& p.place_id == first.place_id
        },
{
    if response.user_presences.len() == 0 {
        return None;
    }
    let first: &UserPresenceData = &response.user_presences[0];
    Some(
        UserPresence {
            status: status_name(first.user_presence_type).to_owned(),
            last_location: copy_text(&first.last_location),
            place_id: first.place_id,
        },
    )
}

/// The game that the user `target_user_id` is in, from the presence of the
/// first user of the answer, if there is one. A user is in a game exactly
/// if the presence says so: the number 2.
pub fn user_game_info(response: &PresenceResponse, target_user_id: i64, target_username: String) -> (info:
    Option<UserGameInfo>)
    ensures
        info is Some <==> response.user_presences@.len() > 0,
        info matches Some(g) ==> {
            let first = response.user_presences@[0];
            &&& g.user_id == target_user_id
            &&& g.username == target_username
            &&& g.is_in_game == (first.user_presence_type == 2)
            &&& g.place_id == first.place_id
            &&& text_view(g.game_id) == text_view(first.game_id)
            &&& text_view(g.game_name) == text_view(first.last_location)
        },
{
    if response.user_presences.len() == 0 {
        return None;
    }
    let first: &UserPresenceData = &response.user_presences[0];
    Some(
        UserGameInfo {
            user_id: target_user_id,
            username: target_username,
            is_in_game: first.user_presence_type == 2,
            place_id: first.place_id,
            game_id: copy_text(&first.game_id),
            game_name: copy_text(&first.last_location),
        },
    )
}

/// A copy of a group.
fn copy_group(group: &GroupInfo) -> (copy: GroupInfo)
    ensures
        copy@ == group@,
{
    GroupInfo { id: group.id, name: group.name.clone(), member_count: group.member_count }
}

/// The groups of the memberships of the answer, in order.
pub fn group_list(response: &GroupsResponse) -> (groups: Vec<GroupInfo>)
    ensures
        group_views(groups@) == groups_of(response.data@),
{
    let mut groups: Vec<GroupInfo> = Vec::new();
    let mut i: usize = 0;
    while i < response.data.len()
        invariant
            i <= response.data@.len(),
            groups@.len() == i,
            forall|j: int| 0 <= j < i ==> groups@[j]@ == response.data@[j].group@,
        decreases response.data@.len() - i,
    {
        groups.push(copy_group(&response.data[i].group));
        i = i + 1;
    }
    proof {
        assert(group_views(groups@) =~= groups_of(response.data@));
    }
    groups
}

/// What the program shows about the user `user_id`, from the answers that
/// came. An answer that did not come leaves its part empty: no currency, no
/// groups, no date, not banned, no display name. The number of groups is
/// their count as a signed 32-bit number holds it.
pub fn user_details(
    user_id: i64,
    username: String,
    robux: Option<RobuxResponse>,
    groups: Vec<GroupInfo>,
    profile: Option<UserProfileResponse>,
) -> (details: ExtendedUserDetails)
    ensures
        details.user_id == user_id,
        details.username == username,
        details.robux == match robux {
            Some(r) => Some(r.robux),
            None => None,
        },
        details.groups == groups,
        details.groups_count == count_as_i32(groups@.len()),
        details.profile_url@ == profile_url_of(user_id),
        details.login_link@ == login_link_of(user_id),
        match profile {
            Some(p) => {
                &&& details.display_name == p.display_name
                &&& details.created_at == Some(p.created)
                &&& details.is_banned == p.is_banned
            },
            None => {
                &&& details.display_name@.len() == 0
                &&& details.created_at is None
                &&& !details.is_banned
            },
        },
{
    let mut profile_url: String = String::from_str("https://www.roblox.com/users/");
    push_signed_decimal(&mut profile_url, user_id);
    profile_url.append("/profile");
    let mut login_link: String = String::from_str("https://www.roblox.com/home?userId=");
    push_signed_decimal(&mut login_link, user_id);
    let robux: Option<i64> = match robux {
        Some(r) => Some(r.robux),
        None => None,
    };
    let low: u64 = (groups.len() as u64) % 0x1_0000_0000;
    let groups_count: i32 = if low < 0x8000_0000 {
        low as i32
    } else {
        (low as i64 - 0x1_0000_0000) as i32
    };
    match profile {
        Some(p) => ExtendedUserDetails {
            user_id,
            username,
            display_name: p.display_name,
            robux,
            created_at: Some(p.created),
            is_banned: p.is_banned,
            groups_count,
            groups,
            profile_url,
            login_link,
        },
        None => ExtendedUserDetails {
            user_id,
            username,
            display_name: String::new(),
            robux,
            created_at: None,
            is_banned: false,
            groups_count,
            groups,
            profile_url,
            login_link,
        },
    }
}

} // verus!
