//! An account as the program holds it once the vault is open.

use vstd::prelude::*;

verus! {

/// One account, with its session token in the clear.
#[derive(Debug, Clone)]
pub struct Profile {
    /// Identifier of the account within the vault.
    pub id: String,
    /// The session token.
    pub cookie: String,
    /// Identifier of the user at the game's service.
    pub user_id: i64,
    pub username: String,
    pub display_name: String,
    /// Address of the avatar picture.
    pub thumbnail: Option<String>,
    /// A name the user gave the account.
    pub alias: String,
    /// A note the user wrote.
    pub description: String,
    pub is_favorite: bool,
    /// When the account was last played, in milliseconds since 1970.
    pub last_played_at: u64,
    /// When the account was added, in seconds since 1970.
    pub created_at: u64,
}

/// An account as mathematics sees it: texts are sequences of characters.
pub struct ProfileView {
    pub id: Seq<char>,
    pub cookie: Seq<char>,
    pub user_id: i64,
    pub username: Seq<char>,
    pub display_name: Seq<char>,
    pub thumbnail: Option<Seq<char>>,
    pub alias: Seq<char>,
    pub description: Seq<char>,
    pub is_favorite: bool,
    pub last_played_at: u64,
    pub created_at: u64,
}

/// An optional text as an optional sequence of characters.
pub open spec fn text_view(text: Option<String>) -> Option<Seq<char>> {
    match text {
        Some(t) => Some(t@),
        None => None,
    }
}

impl View for Profile {
    type V = ProfileView;

    open spec fn view(&self) -> ProfileView {
        ProfileView {
            id: self.id@,
            cookie: self.cookie@,
            user_id: self.user_id,
            username: self.username@,
            display_name: self.display_name@,
            thumbnail: text_view(self.thumbnail),
            alias: self.alias@,
            description: self.description@,
            is_favorite: self.is_favorite,
            last_played_at: self.last_played_at,
            created_at: self.created_at,
        }
    }
}

/// The accounts of a list, each as its view.
pub open spec fn views(profiles: Seq<Profile>) -> Seq<ProfileView> {
    Seq::new(profiles.len(), |i: int| profiles[i]@)
}

/// A copy of an optional text.
pub fn copy_text(text: &Option<String>) -> (copy: Option<String>)
    ensures
        text_view(copy) == text_view(*text),
{
    match text {
        Some(t) => Some(t.clone()),
        None => None,
    }
}

impl Profile {
    /// A copy of this account, equal to it in every field.
    pub fn duplicate(&self) -> (copy: Profile)
        ensures
            copy@ == self@,
    {
        Profile {
            id: self.id.clone(),
            cookie: self.cookie.clone(),
            user_id: self.user_id,
            username: self.username.clone(),
            display_name: self.display_name.clone(),
            thumbnail: copy_text(&self.thumbnail),
            alias: self.alias.clone(),
            description: self.description.clone(),
            is_favorite: self.is_favorite,
            last_played_at: self.last_played_at,
            created_at: self.created_at,
        }
    }
}

} // verus!
