//! The cookie file that logs one account into the game.

use vstd::prelude::*;
use vstd::string::StringExecFns;
use crate::binarycookies::{BinaryCookies, Cookie, Page};
use crate::binarycookies::binarycookies::{container_bytes, container_fits};
use crate::binarycookies::cookie::CookieView;

verus! {

/// The cookie that carries a session token to the game: for the domain
/// `.roblox.com` and the path `/`, secure and http-only, made now and good
/// for thirty days.
pub open spec fn session_cookie_of(token: Seq<char>) -> CookieView {
    CookieView {
        domain: ".roblox.com"@,
        name: ".ROBLOSECURITY"@,
        path: "/"@,
        value: token,
        secure: true,
        http_only: true,
        expiration: None,
        creation: None,
    }
}

/// The container that holds the session cookie and nothing else.
pub open spec fn session_container_of(token: Seq<char>) -> Seq<Seq<CookieView>> {
    seq![seq![session_cookie_of(token)]]
}

/// The cookie that carries `token` to the game.
pub fn session_cookie(token: String) -> (cookie: Cookie)
    ensures
        cookie@ == session_cookie_of(token@),
{
    Cookie {
        domain: String::from_str(".roblox.com"),
        name: String::from_str(".ROBLOSECURITY"),
        path: Some(String::from_str("/")),
        value: token,
        secure: Some(true),
        http_only: Some(true),
        expiration: None,
        creation: None,
    }
}

/// The container that holds the session cookie for `token`.
pub fn session_container(token: String) -> (container: BinaryCookies)
    ensures
        container@ == session_container_of(token@),
{
    let mut cookies: Vec<Cookie> = Vec::new();
    cookies.push(session_cookie(token));
    let page = Page { cookies };
    let mut pages: Vec<Page> = Vec::new();
    pages.push(page);
    let container = BinaryCookies { pages };
    proof {
        assert(page@ =~= seq![session_cookie_of(token@)]);
        assert(container@ =~= session_container_of(token@));
    }
    container
}

/// The bytes of the cookie file that logs the account of `token` in, or
/// `None` for a token too long for the file to hold.
pub fn cookie_file(token: String) -> (bytes: Option<Vec<u8>>)
    ensures
        bytes is Some <==> container_fits(session_container_of(token@)),
        bytes matches Some(b) ==> exists|now: i64|
            b@ == container_bytes(session_container_of(token@), now as int),
{
    let container: BinaryCookies = session_container(token);
    if container.is_encodable() {
        Some(container.build())
    } else {
        None
    }
}

/// The bytes of the cookie file that logs the account of `token` in, made
/// at the instant `now`, or `None` for a token too long for the file to
/// hold.
pub fn cookie_file_at(token: String, now: i64) -> (bytes: Option<Vec<u8>>)
    ensures
        match bytes {
            Some(b) => container_fits(session_container_of(token@)) && b@ == container_bytes(
                session_container_of(token@),
                now as int,
            ),
            None => !container_fits(session_container_of(token@)),
        },
{
    let container: BinaryCookies = session_container(token);
    if container.is_encodable() {
        Some(container.build_at(now))
    } else {
        None
    }
}

} // verus!
