use rokio::utils::{extract_job_id_from_url, extract_place_id_from_url};

#[test]
fn test_extract_place_id() {
    assert_eq!(extract_place_id_from_url("123456789"), Some(123456789));
    assert_eq!(
        extract_place_id_from_url("https://www.roblox.com/games/123456789/Game-Name"),
        Some(123456789)
    );
    assert_eq!(
        extract_place_id_from_url("roblox://placeId=123456789"),
        Some(123456789)
    );
    assert_eq!(
        extract_place_id_from_url("roblox://placeId=123456789&gameInstanceId=abc"),
        Some(123456789)
    );
    assert_eq!(extract_place_id_from_url("invalid"), None);
}

#[test]
fn test_extract_job_id() {
    assert_eq!(
        extract_job_id_from_url("roblox://placeId=123&gameInstanceId=abc-def-ghi"),
        Some("abc-def-ghi".to_string())
    );
    assert_eq!(extract_job_id_from_url("roblox://placeId=123"), None);
}

#[test]
fn place_id_ignores_surrounding_whitespace() {
    assert_eq!(extract_place_id_from_url("  42\n"), Some(42));
    assert_eq!(extract_place_id_from_url("\u{3000}7\u{2028}"), Some(7));
    assert_eq!(extract_place_id_from_url(" roblox://placeId=9 "), Some(9));
    assert_eq!(extract_place_id_from_url("4 2"), None);
}

#[test]
fn place_id_accepts_a_plus_sign_and_rejects_overflow() {
    assert_eq!(extract_place_id_from_url("+15"), Some(15));
    assert_eq!(extract_place_id_from_url("+"), None);
    assert_eq!(extract_place_id_from_url("-15"), None);
    assert_eq!(extract_place_id_from_url(""), None);
    assert_eq!(
        extract_place_id_from_url("18446744073709551615"),
        Some(u64::MAX)
    );
    assert_eq!(extract_place_id_from_url("18446744073709551616"), None);
    assert_eq!(extract_place_id_from_url("000000000000000000000000012"), Some(12));
}

#[test]
fn place_id_of_a_web_address_stops_at_the_next_slash() {
    assert_eq!(
        extract_place_id_from_url("https://roblox.com/games/55"),
        Some(55)
    );
    assert_eq!(
        extract_place_id_from_url("https://roblox.com/games/55/games/66"),
        Some(55)
    );
    assert_eq!(extract_place_id_from_url("https://roblox.com/games//66"), None);
    assert_eq!(extract_place_id_from_url("https://roblox.com/games/abc/1"), None);
}

#[test]
fn place_id_of_a_deep_link_falls_back_to_the_web_form() {
    assert_eq!(
        extract_place_id_from_url("roblox://placeId=abc/games/77/x"),
        Some(77)
    );
    assert_eq!(extract_place_id_from_url("https://x/?placeId=5"), None);
    assert_eq!(
        extract_place_id_from_url("roblox://experiences/start?placeId=31&x=1"),
        Some(31)
    );
}

#[test]
fn place_id_matches_the_standard_library_on_plain_numbers() {
    for text in ["0", "1", "+0", "0009", "99999999999999999999", "12a", "١٢٣", " 5", "5 "] {
        let expected = text.trim().parse::<u64>().ok();
        assert_eq!(extract_place_id_from_url(text), expected, "{:?}", text);
    }
}

#[test]
fn job_id_is_what_follows_the_first_key() {
    assert_eq!(
        extract_job_id_from_url("gameInstanceId=a&gameInstanceId=b"),
        Some("a".to_string())
    );
    assert_eq!(extract_job_id_from_url("gameInstanceId=&x=1"), None);
    assert_eq!(extract_job_id_from_url("gameInstanceId="), None);
    assert_eq!(
        extract_job_id_from_url("x?gameInstanceId=é-ü&y"),
        Some("é-ü".to_string())
    );
    assert_eq!(extract_job_id_from_url(""), None);
}
