use rokio::game_detection::{
    first_icon, game_icon_url, game_icons_url, game_info, game_url, get_popular_games,
    icons_by_universe, servers_url, universe_url, GameIcon,
};
use rokio::groups::{
    get_account, get_account_cookie, get_account_user_id, group_member_url, group_members_url,
    group_url, join_outcome, left_group, retry_token, JoinOutcome,
};
use rokio::error::VaultError;
use rokio::profiles::Profile;
use rokio::quick_login::{
    code_request, find_session_cookie, login_summary, quick_login_session,
    session_cookie_of_header,
};
use rokio::roblox::{
    cookie_header, currency_url, first_thumbnail, group_list, groups_url, status_name,
    thumbnail_request, user_data, user_details, user_game_info, user_presence, user_url,
    GroupInfo, GroupMembership, GroupRole, GroupsResponse, PresenceResponse, RobloxUser,
    RobuxResponse, ThumbnailData, ThumbnailResponse, UserPresenceData, UserProfileResponse,
};
use rokio::settings::{default_accent, AppSettings};
use rokio::utils::{get_random_user_agent, USER_AGENTS};
use rokio::vault::{create_vault, save_accounts, CryptoState, VaultFile};

fn presence(presence_type: i32, place: Option<i64>) -> UserPresenceData {
    UserPresenceData {
        user_presence_type: presence_type,
        last_location: Some("A Game".to_string()),
        place_id: place,
        root_place_id: None,
        game_id: Some("job-9".to_string()),
        universe_id: None,
        user_id: 5,
        last_online: None,
    }
}

#[test]
fn the_cookie_header_carries_the_key_once() {
    assert_eq!(cookie_header("abc"), ".ROBLOSECURITY=abc");
    assert_eq!(cookie_header(".ROBLOSECURITY=abc"), ".ROBLOSECURITY=abc");
    assert_eq!(cookie_header(""), ".ROBLOSECURITY=");
    assert_eq!(cookie_header(" .ROBLOSECURITY=x"), ".ROBLOSECURITY= .ROBLOSECURITY=x");
}

#[test]
fn user_data_joins_user_and_picture() {
    let user = RobloxUser {
        id: 7,
        name: "seven".to_string(),
        display_name: "Seven".to_string(),
    };
    let data = user_data(user, Some("pic".to_string()));
    assert_eq!(data.id, 7);
    assert_eq!(data.name, "seven");
    assert_eq!(data.display_name, "Seven");
    assert_eq!(data.thumbnail, Some("pic".to_string()));
}

#[test]
fn thumbnails_are_asked_for_and_picked() {
    assert_eq!(
        thumbnail_request(12345),
        "https://thumbnails.roblox.com/v1/users/avatar-headshot?userIds=12345&size=150x150&format=Png&isCircular=false"
    );
    assert_eq!(
        thumbnail_request(-3),
        "https://thumbnails.roblox.com/v1/users/avatar-headshot?userIds=-3&size=150x150&format=Png&isCircular=false"
    );
    let item = |url: Option<&str>| ThumbnailData {
        target_id: 1,
        state: "Completed".to_string(),
        image_url: url.map(|u| u.to_string()),
    };
    assert_eq!(first_thumbnail(&ThumbnailResponse { data: vec![] }), None);
    assert_eq!(
        first_thumbnail(&ThumbnailResponse {
            data: vec![item(None), item(Some("b"))]
        }),
        None
    );
    assert_eq!(
        first_thumbnail(&ThumbnailResponse {
            data: vec![item(Some("a")), item(Some("b"))]
        }),
        Some("a".to_string())
    );
}

#[test]
fn presence_is_named() {
    assert_eq!(status_name(0), "offline");
    assert_eq!(status_name(1), "online");
    assert_eq!(status_name(2), "ingame");
    assert_eq!(status_name(3), "studio");
    assert_eq!(status_name(4), "unknown");
    assert_eq!(status_name(-1), "unknown");

    assert!(user_presence(&PresenceResponse { user_presences: vec![] }).is_none());
    let shown = user_presence(&PresenceResponse {
        user_presences: vec![presence(2, Some(99)), presence(0, None)],
    })
    .unwrap();
    assert_eq!(shown.status, "ingame");
    assert_eq!(shown.last_location, Some("A Game".to_string()));
    assert_eq!(shown.place_id, Some(99));
}

#[test]
fn a_user_is_in_a_game_when_the_presence_says_so() {
    assert!(user_game_info(&PresenceResponse { user_presences: vec![] }, 1, "n".to_string())
        .is_none());
    let info = user_game_info(
        &PresenceResponse {
            user_presences: vec![presence(2, Some(99))],
        },
        41,
        "target".to_string(),
    )
    .unwrap();
    assert_eq!(info.user_id, 41);
    assert_eq!(info.username, "target");
    assert!(info.is_in_game);
    assert_eq!(info.place_id, Some(99));
    assert_eq!(info.game_id, Some("job-9".to_string()));
    assert_eq!(info.game_name, Some("A Game".to_string()));
    for presence_type in [0, 1, 3, 4] {
        let info = user_game_info(
            &PresenceResponse {
                user_presences: vec![presence(presence_type, None)],
            },
            41,
            "target".to_string(),
        )
        .unwrap();
        assert!(!info.is_in_game);
    }
}

#[test]
fn details_are_put_together_from_what_came() {
    let group = |id: i64| GroupInfo {
        id,
        name: format!("group {}", id),
        member_count: Some(id * 10),
    };
    let response = GroupsResponse {
        data: vec![
            GroupMembership {
                group: group(1),
                role: Some(GroupRole {
                    name: "Owner".to_string(),
                    rank: 255,
                }),
            },
            GroupMembership {
                group: group(2),
                role: None,
            },
        ],
    };
    let groups = group_list(&response);
    assert_eq!(groups.len(), 2);
    assert_eq!(groups[0].id, 1);
    assert_eq!(groups[1].name, "group 2");
    assert_eq!(groups[1].member_count, Some(20));

    let details = user_details(
        261,
        "name".to_string(),
        Some(RobuxResponse { robux: 1500 }),
        groups,
        Some(UserProfileResponse {
            id: 261,
            name: "name".to_string(),
            display_name: "Display".to_string(),
            created: "2006-02-27T21:06:40.3Z".to_string(),
            is_banned: true,
        }),
    );
    assert_eq!(details.user_id, 261);
    assert_eq!(details.username, "name");
    assert_eq!(details.display_name, "Display");
    assert_eq!(details.robux, Some(1500));
    assert_eq!(details.created_at, Some("2006-02-27T21:06:40.3Z".to_string()));
    assert!(details.is_banned);
    assert_eq!(details.groups_count, 2);
    assert_eq!(details.groups.len(), 2);
    assert_eq!(details.profile_url, "https://www.roblox.com/users/261/profile");
    assert_eq!(details.login_link, "https://www.roblox.com/home?userId=261");

    let many = user_details(
        1,
        "n".to_string(),
        None,
        (0..300).map(|id| group(id)).collect(),
        None,
    );
    assert_eq!(many.groups_count, 300);
    assert_eq!(many.groups.len(), 300);

    let bare = user_details(i64::MIN, "n".to_string(), None, vec![], None);
    assert_eq!(bare.display_name, "");
    assert_eq!(bare.robux, None);
    assert_eq!(bare.created_at, None);
    assert!(!bare.is_banned);
    assert_eq!(bare.groups_count, 0);
    assert_eq!(
        bare.profile_url,
        "https://www.roblox.com/users/-9223372036854775808/profile"
    );
}

#[test]
fn addresses_of_the_game_service() {
    assert_eq!(
        universe_url(606849621),
        "https://apis.roblox.com/universes/v1/places/606849621/universe"
    );
    assert_eq!(
        game_url(220552094),
        "https://games.roblox.com/v1/games?universeIds=220552094"
    );
    assert_eq!(
        game_icon_url(5),
        "https://thumbnails.roblox.com/v1/games/icons?universeIds=5&size=150x150&format=Png"
    );
    assert_eq!(
        game_icons_url(&[1, 22, 333]),
        "https://thumbnails.roblox.com/v1/games/icons?universeIds=1,22,333&size=420x420&format=Png"
    );
    assert_eq!(
        game_icons_url(&[7]),
        "https://thumbnails.roblox.com/v1/games/icons?universeIds=7&size=420x420&format=Png"
    );
    assert_eq!(
        game_icons_url(&[]),
        "https://thumbnails.roblox.com/v1/games/icons?universeIds=&size=420x420&format=Png"
    );
    assert_eq!(
        servers_url(9, None),
        "https://games.roblox.com/v1/games/9/servers/Public?sortOrder=Asc&excludeFullGames=false&limit=100"
    );
    assert_eq!(
        servers_url(9, Some("next")),
        "https://games.roblox.com/v1/games/9/servers/Public?sortOrder=Asc&excludeFullGames=false&limit=100&cursor=next"
    );
}

#[test]
fn addresses_of_the_user_and_group_services() {
    assert_eq!(currency_url(12), "https://economy.roblox.com/v1/users/12/currency");
    assert_eq!(groups_url(12), "https://groups.roblox.com/v1/users/12/groups/roles");
    assert_eq!(user_url(12), "https://users.roblox.com/v1/users/12");
    assert_eq!(group_url(7), "https://groups.roblox.com/v1/groups/7");
    assert_eq!(group_members_url(7), "https://groups.roblox.com/v1/groups/7/users");
    assert_eq!(
        group_member_url(7, 12),
        "https://groups.roblox.com/v1/groups/7/users/12"
    );
}

#[test]
fn icons_are_listed_by_universe() {
    let icon = |id: u64, url: Option<&str>| GameIcon {
        target_id: id,
        image_url: url.map(|u| u.to_string()),
    };
    let icons = vec![
        icon(1, Some("a")),
        icon(2, None),
        icon(3, Some("c")),
        icon(1, Some("z")),
        icon(3, None),
    ];
    assert_eq!(first_icon(&icons), Some("a".to_string()));
    assert_eq!(first_icon(&icons[1..].to_vec()), None);
    assert_eq!(first_icon(&vec![]), None);
    let table = icons_by_universe(icons);
    assert_eq!(table.len(), 2);
    assert_eq!(table.get(&1), Some(&"z".to_string()));
    assert_eq!(table.get(&3), Some(&"c".to_string()));
    assert_eq!(table.get(&2), None);
    assert!(icons_by_universe(vec![]).is_empty());
}

#[test]
fn a_game_without_description_gets_an_empty_one() {
    let info = game_info(1, 2, "n".to_string(), None, "c".to_string(), 3, 4, None);
    assert_eq!(info.universe_id, 1);
    assert_eq!(info.place_id, 2);
    assert_eq!(info.description, "");
    assert_eq!(info.creator_name, "c");
    assert_eq!(info.playing, 3);
    assert_eq!(info.visits, 4);
    let info = game_info(
        1,
        2,
        "n".to_string(),
        Some("d".to_string()),
        "c".to_string(),
        3,
        4,
        Some("t".to_string()),
    );
    assert_eq!(info.description, "d");
    assert_eq!(info.thumbnail, Some("t".to_string()));
}

#[test]
fn the_popular_games() {
    let games = get_popular_games();
    assert_eq!(games.len(), 24);
    assert_eq!(games[0].universe_id, 2788229376);
    assert_eq!(games[0].place_id, 8761176980);
    assert!(games[0].name.starts_with("Brookhaven "));
    assert!(games[0].name.ends_with("RP"));
    assert_eq!(games[0].player_count, 500000);
    assert_eq!(games[1].name, "Adopt Me!");
    assert_eq!(games[5].name, "Blox Fruits");
    assert_eq!(games[5].player_count, 550000);
    assert_eq!(games[23].name, "Lumber Tycoon 2");
    assert_eq!(games[23].universe_id, 286419782);
    assert_eq!(games[23].place_id, 1071062235);
    assert!(games.iter().all(|g| g.thumbnail.is_none()));
}

#[test]
fn the_default_settings() {
    let settings = AppSettings::default();
    assert_eq!(settings.auto_lock_timeout, "never");
    assert_eq!(settings.theme, "dark");
    assert_eq!(settings.accent_color, "red");
    assert_eq!(settings.launcher_preference, "default");
    assert!(!settings.launch_on_startup);
    assert!(!settings.always_on_top);
    assert!(!settings.compact_mode);
    assert!(!settings.multi_instance);
    assert!(!settings.quarantine_installers);
    assert!(!settings.save_logs);
    assert!(!settings.force_handle_closure);
    assert!(!settings.low_cpu_mode);
    assert!(settings.favorite_games.is_empty());
    assert_eq!(default_accent(), "red");
}

#[test]
fn what_the_answers_about_groups_mean() {
    assert_eq!(join_outcome(200), JoinOutcome::Joined);
    assert_eq!(join_outcome(204), JoinOutcome::Joined);
    assert_eq!(join_outcome(299), JoinOutcome::Joined);
    assert_eq!(join_outcome(400), JoinOutcome::AlreadyMemberOrLocked);
    assert_eq!(join_outcome(403), JoinOutcome::Refused);
    assert_eq!(join_outcome(300), JoinOutcome::Failed);
    assert_eq!(join_outcome(199), JoinOutcome::Failed);
    assert_eq!(join_outcome(500), JoinOutcome::Failed);
    assert!(left_group(200));
    assert!(!left_group(403));
    assert_eq!(retry_token(403, Some("t".to_string())), Some("t".to_string()));
    assert_eq!(retry_token(403, None), None);
    assert_eq!(retry_token(401, Some("t".to_string())), None);
}

#[test]
fn the_account_of_a_request_comes_from_the_vault() {
    let mut state = CryptoState::new();
    let record = create_vault("pw", "ROKIO-LINUX-h-u", &mut state);
    let key = state.key.unwrap();
    let accounts = vec![Profile {
        id: "acc".to_string(),
        cookie: "the-token".to_string(),
        user_id: 314,
        username: "pi".to_string(),
        display_name: "Pi".to_string(),
        thumbnail: None,
        alias: String::new(),
        description: String::new(),
        is_favorite: false,
        last_played_at: 0,
        created_at: 0,
    }];
    let file = VaultFile::Record(
        save_accounts(&VaultFile::Record(record), &key, &accounts).unwrap(),
    );
    assert_eq!(get_account_cookie(&file, &state, "acc"), Ok("the-token".to_string()));
    assert_eq!(get_account_user_id(&file, &state, "acc"), Ok(314));
    assert_eq!(get_account(&file, &state, "acc").unwrap().username, "pi");
    assert_eq!(
        get_account_cookie(&file, &state, "other"),
        Err(VaultError::AccountNotFound)
    );
    assert_eq!(
        get_account_user_id(&file, &CryptoState::new(), "acc"),
        Err(VaultError::Locked)
    );
    assert_eq!(
        get_account_cookie(&VaultFile::Malformed, &state, "acc"),
        Err(VaultError::Parse)
    );
}

#[test]
fn a_quick_login_shows_a_code_and_its_picture() {
    let given = quick_login_session("CODE".to_string(), Some("https://qr/1".to_string()));
    assert_eq!(given.code, "CODE");
    assert_eq!(given.qr_code_url, "https://qr/1");

    let made = quick_login_session("A b/ü~-_.9".to_string(), None);
    assert_eq!(made.code, "A b/ü~-_.9");
    assert_eq!(
        made.qr_code_url,
        "https://api.qrserver.com/v1/create-qr-code/?size=200x200&data=ROBLOX_QR%3AA%20b%2F%C3%BC~-_.9"
    );
    assert_eq!(code_request("XYZ"), "{\"code\":\"XYZ\"}");
    assert_eq!(code_request(""), "{\"code\":\"\"}");
}

#[test]
fn the_session_token_is_read_from_the_headers() {
    assert_eq!(
        session_cookie_of_header(".ROBLOSECURITY=tok; domain=.roblox.com; HttpOnly"),
        Some("tok".to_string())
    );
    assert_eq!(
        session_cookie_of_header("a=b; .ROBLOSECURITY=tok"),
        Some("tok".to_string())
    );
    assert_eq!(session_cookie_of_header(".ROBLOSECURITY=;x"), Some(String::new()));
    assert_eq!(session_cookie_of_header("GuestData=1; path=/"), None);
    let headers = vec![
        "GuestData=1".to_string(),
        ".ROBLOSECURITY=first; path=/".to_string(),
        ".ROBLOSECURITY=second".to_string(),
    ];
    assert_eq!(find_session_cookie(&headers), Some("first".to_string()));
    assert_eq!(find_session_cookie(&headers[..1]), None);
    assert_eq!(find_session_cookie(&[]), None);
    assert_eq!(login_summary(9, "n", "D N", "tok"), "9|n|D N|tok");
}

#[test]
fn a_user_agent_is_one_of_the_list() {
    for _ in 0..50 {
        let agent = get_random_user_agent();
        assert!(USER_AGENTS.contains(&agent));
        assert!(agent.starts_with("Mozilla/5.0 "));
    }
    assert_eq!(USER_AGENTS.len(), 5);
}
