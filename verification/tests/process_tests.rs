use rokio::environment::{cookie_file, cookie_file_at, session_cookie};
use rokio::process_utils::{bypass_singleton_mutex, parse_pids, parse_process_list};
use rokio::text::{parse_u32, push_signed_decimal};

fn expected_pids(output: &str) -> Vec<u32> {
    output
        .lines()
        .filter_map(|line| line.trim().parse::<u32>().ok())
        .collect()
}

fn expected_processes(output: &str) -> Vec<(u32, String)> {
    let mut processes = Vec::new();
    for line in output.lines() {
        let parts: Vec<&str> = line.split_whitespace().collect();
        if let Some(pid_str) = parts.first() {
            if let Ok(pid) = pid_str.parse::<u32>() {
                processes.push((pid, parts[1..].join(" ")));
            }
        }
    }
    processes
}

const LISTINGS: [&str; 12] = [
    "",
    "\n",
    "123",
    "123\n",
    "123\n456\n",
    "  12 \r\n\t34\r\n",
    "ProcessId  \r\r\n4242      \r\r\n\r\r\n",
    "12 34\n56\n",
    "4294967295\n4294967296\n-1\n+7\n",
    "\n\n5\n\nx\n6",
    "1\u{a0}\n\u{2003}2\u{2003}\n",
    "77\r",
];

#[test]
fn process_ids_are_read_line_by_line() {
    assert_eq!(parse_pids("123\n456\n"), vec![123, 456]);
    assert_eq!(parse_pids("ProcessId\n 4242 \n\n"), vec![4242]);
    for listing in LISTINGS {
        assert_eq!(parse_pids(listing), expected_pids(listing), "{:?}", listing);
    }
}

#[test]
fn a_listing_names_processes() {
    let listing = "501 /Applications/Roblox.app/Contents/MacOS/RobloxPlayer  -arg\n\
                   x 502 nothing\n\
                   \t503\tRoblox   Studio \n\
                   504\n";
    let got: Vec<(u32, String)> = parse_process_list(listing)
        .into_iter()
        .map(|p| (p.pid, p.name))
        .collect();
    assert_eq!(
        got,
        vec![
            (
                501,
                "/Applications/Roblox.app/Contents/MacOS/RobloxPlayer -arg".to_string()
            ),
            (503, "Roblox Studio".to_string()),
            (504, String::new()),
        ]
    );
    for listing in LISTINGS {
        let got: Vec<(u32, String)> = parse_process_list(listing)
            .into_iter()
            .map(|p| (p.pid, p.name))
            .collect();
        assert_eq!(got, expected_processes(listing), "{:?}", listing);
    }
}

#[test]
fn lifted_guards_are_counted() {
    assert_eq!(bypass_singleton_mutex(&[]), None);
    assert_eq!(bypass_singleton_mutex(&[Ok(false)]), Some(0));
    assert_eq!(bypass_singleton_mutex(&[Err("denied".to_string())]), Some(0));
    assert_eq!(bypass_singleton_mutex(&[Ok(true)]), Some(1));
    assert_eq!(
        bypass_singleton_mutex(&[
            Ok(true),
            Ok(false),
            Err("denied".to_string()),
            Ok(true),
            Ok(true),
        ]),
        Some(3)
    );
}

#[test]
fn numbers_are_read_and_written() {
    let chars = |s: &str| s.chars().collect::<Vec<char>>();
    assert_eq!(parse_u32(&chars("4294967295")), Some(u32::MAX));
    assert_eq!(parse_u32(&chars("4294967296")), None);
    assert_eq!(parse_u32(&chars("+1")), Some(1));
    assert_eq!(parse_u32(&chars("")), None);
    for n in [0i64, 1, -1, 10, -10, 12345, i64::MAX, i64::MIN, i64::MIN + 1] {
        let mut out = String::new();
        push_signed_decimal(&mut out, n);
        assert_eq!(out, n.to_string());
    }
}

#[test]
fn the_cookie_file_of_a_session() {
    let cookie = session_cookie("tok".to_string());
    assert_eq!(cookie.domain, ".roblox.com");
    assert_eq!(cookie.name, ".ROBLOSECURITY");
    assert_eq!(cookie.path, Some("/".to_string()));
    assert_eq!(cookie.value, "tok");
    assert_eq!(cookie.secure, Some(true));
    assert_eq!(cookie.http_only, Some(true));
    assert_eq!(cookie.expiration, None);
    assert_eq!(cookie.creation, None);

    let now = 1_700_000_000i64;
    let bytes = cookie_file_at("tok".to_string(), now).unwrap();
    assert_eq!(&bytes[..8], &[0x63, 0x6F, 0x6F, 0x6B, 0, 0, 0, 1]);
    assert_eq!(
        &bytes[bytes.len() - 8..],
        &[0x07, 0x17, 0x20, 0x05, 0x00, 0x00, 0x00, 0x4B]
    );
    let record = 12 + 16;
    let field = |at: usize| {
        u32::from_le_bytes([bytes[at], bytes[at + 1], bytes[at + 2], bytes[at + 3]]) as usize
    };
    assert_eq!(field(record + 8), 5);
    let domain = record + field(record + 16);
    let name = record + field(record + 20);
    let path = record + field(record + 24);
    let value = record + field(record + 28);
    assert_eq!(&bytes[domain..name], b".roblox.com\0");
    assert_eq!(&bytes[name..path], b".ROBLOSECURITY\0");
    assert_eq!(&bytes[path..value], b"/\0");
    assert_eq!(&bytes[value..value + 4], b"tok\0");
    let expiration = f64::from_le_bytes(bytes[record + 40..record + 48].try_into().unwrap());
    let creation = f64::from_le_bytes(bytes[record + 48..record + 56].try_into().unwrap());
    assert_eq!(creation, (now - 978_307_200) as f64);
    assert_eq!(expiration, (now + 2_592_000 - 978_307_200) as f64);

    let live = cookie_file("tok".to_string()).unwrap();
    assert_eq!(live.len(), bytes.len());
    assert_eq!(&live[..record + 40], &bytes[..record + 40]);
    assert_eq!(&live[record + 56..live.len() - 12], &bytes[record + 56..bytes.len() - 12]);
}
