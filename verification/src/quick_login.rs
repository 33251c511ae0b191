//! Logging in from another device: the code to show, and the session token
//! that the service hands out once the code is confirmed.

use vstd::prelude::*;
use vstd::slice::slice_subrange;
use vstd::string::StringExecFns;
use vstd::utf8::encode_utf8;
use crate::text::{find, up_to, occurs_at, decimal, percent_encoded, chars_of, string_of, find_in,
    find_char_or_len, push_decimal, percent_encode, lemma_find_is_first};
use crate::roblox::token_key;

verus! {

/// A login that waits to be confirmed: the code, and the address of a
/// picture of it.
#[derive(Debug, Clone)]
pub struct QuickLoginSession {
    pub code: String,
    pub qr_code_url: String,
}

/// The address of a picture of `code`, where the service names none.
pub open spec fn qr_code_url_of(code: Seq<char>) -> Seq<char> {
    "https://api.qrserver.com/v1/create-qr-code/?size=200x200&data="@ + percent_encoded(
        encode_utf8("ROBLOX_QR:"@ + code),
    )
}

/// What to send to ask about `code`.
pub open spec fn code_request_of(code: Seq<char>) -> Seq<char> {
    "{\"code\":\""@ + code + "\"}"@
}

/// The session token that a `Set-Cookie` header carries: what stands
/// between the first `.ROBLOSECURITY=` and the next `;`.
pub open spec fn session_cookie_in(header: Seq<char>) -> Option<Seq<char>> {
    match find(header, token_key()) {
        Some(start) => Some(up_to(header.skip(start + token_key().len()), ';')),
        None => None,
    }
}

/// The session token of the first header that carries one.
pub open spec fn first_session_cookie(headers: Seq<String>) -> Option<Seq<char>>
    decreases headers.len(),
{
    if headers.len() == 0 {
        None
    } else {
        match session_cookie_in(headers[0]@) {
            Some(cookie) => Some(cookie),
            None => first_session_cookie(headers.skip(1)),
        }
    }
}

/// What a completed login hands on: user id, name, display name and session
/// token, joined by `|`.
pub open spec fn login_summary_of(
    user_id: u64,
    name: Seq<char>,
    display_name: Seq<char>,
    cookie: Seq<char>,
) -> Seq<char> {
    decimal(user_id as nat) + seq!['|'] + name + seq!['|'] + display_name + seq!['|'] + cookie
}

/// The login to show for `code`, with the picture that the service names
/// or else one made from the code.
pub fn quick_login_session(code: String, qr_code_url: Option<String>) -> (session: QuickLoginSession)
    ensures
        session.code == code,
        session.qr_code_url@ == match qr_code_url {
            Some(url) => url@,
            None => qr_code_url_of(code@),
        },
{
    let url: String = match qr_code_url {
        Some(url) => url,
        None => {
            let mut data: String = String::from_str("ROBLOX_QR:");
            data.append(code.as_str());
            let mut url: String = String::from_str(
                "https://api.qrserver.com/v1/create-qr-code/?size=200x200&data=",
            );
            url.append(percent_encode(data.as_str()).as_str());
            url
        },
    };
    QuickLoginSession { code, qr_code_url: url }
}

/// What to send to ask about `code`.
pub fn code_request(code: &str) -> (body: String)
    ensures
        body@ == code_request_of(code@),
{
    let mut body: String = String::from_str("{\"code\":\"");
    body.append(code);
    body.append("\"}");
    body
}

/// The session token that a `Set-Cookie` header carries.
pub fn session_cookie_of_header(header: &str) -> (cookie: Option<String>)
    ensures
        match cookie {
            Some(c) => session_cookie_in(header@) == Some(c@),
            None => session_cookie_in(header@) is None,
        },
{
    let chars: Vec<char> = chars_of(header);
    let key: Vec<char> = chars_of(".ROBLOSECURITY=");
    proof {
        lemma_find_is_first(chars@, key@);
    }
    match find_in(chars.as_slice(), key.as_slice(), 0) {
        None => None,
        Some(start) => {
            assert(occurs_at(chars@, key@, start as int));
            assert(chars@.len() == chars.len());
            let from: usize = start + key.len();
            let end: usize = find_char_or_len(chars.as_slice(), from, ';');
            proof {
                assert(chars@.subrange(from as int, end as int) =~= up_to(
                    chars@.skip(from as int),
                    ';',
                ));
            }
            Some(string_of(slice_subrange(chars.as_slice(), from, end)))
        },
    }
}

/// The session token of the first header that carries one.
pub fn find_session_cookie(headers: &[String]) -> (cookie: Option<String>)
    ensures
        match cookie {
            Some(c) => first_session_cookie(headers@) == Some(c@),
            None => first_session_cookie(headers@) is None,
        },
{
    let mut i: usize = 0;
    proof {
        assert(headers@.skip(0) =~= headers@);
    }
    while i < headers.len()
        invariant
            i <= headers@.len(),
            first_session_cookie(headers@) == first_session_cookie(headers@.skip(i as int)),
        decreases headers@.len() - i,
    {
        proof {
            assert(headers@.skip(i as int).skip(1) =~= headers@.skip(i + 1));
        }
        match session_cookie_of_header(headers[i].as_str()) {
            Some(cookie) => {
                return Some(cookie);
            },
            None => {},
        }
        i = i + 1;
    }
    None
}

/// What a completed login hands on.
pub fn login_summary(user_id: u64, name: &str, display_name: &str, cookie: &str) -> (summary:
    String)
    ensures
        summary@ == login_summary_of(user_id, name@, display_name@, cookie@),
{
    let mut summary: String = String::new();
    push_decimal(&mut summary, user_id);
    summary.push('|');
    summary.append(name);
    summary.push('|');
    summary.append(display_name);
    summary.push('|');
    summary.append(cookie);
    proof {
        assert(summary@ =~= login_summary_of(user_id, name@, display_name@, cookie@));
    }
    summary
}

} // verus!
