//! Reading place and server ids out of the links that the game uses, and
//! the names that requests to the service go under.

use vstd::prelude::*;
use vstd::slice::slice_subrange;
use crate::launcher::deep_link;
use crate::text::{find, up_to, occurs_at, starts_with, trimmed, parsed_u64, decimal, is_digit,
    is_whitespace, chars_of, string_of, find_in, find_char_or_len, has_prefix, trim_bounds,
    parse_u64, lemma_find_is_first, lemma_decimal_digits, lemma_decimal_parses,
    lemma_trimmed_keeps_prefix, lemma_up_to_after_digits, lemma_up_to_without_stop};
use crate::trusted::random_below;

verus! {

/// The browsers that requests to the service name themselves as.
pub const USER_AGENTS: [&'static str; 5] = [
    "Mozilla/5.0 (Windows NT 10.0; Win64; x64) AppleWebKit/537.36 (KHTML, like Gecko) Chrome/120.0.0.0 Safari/537.36",
    "Mozilla/5.0 (Windows NT 10.0; Win64; x64) AppleWebKit/537.36 (KHTML, like Gecko) Chrome/119.0.0.0 Safari/537.36",
    "Mozilla/5.0 (Macintosh; Intel Mac OS X 10_15_7) AppleWebKit/537.36 (KHTML, like Gecko) Chrome/120.0.0.0 Safari/537.36",
    "Mozilla/5.0 (Windows NT 10.0; Win64; x64; rv:121.0) Gecko/20100101 Firefox/121.0",
    "Mozilla/5.0 (Macintosh; Intel Mac OS X 10_15_7) AppleWebKit/605.1.15 (KHTML, like Gecko) Version/17.2 Safari/605.1.15",
];

/// The scheme of a deep link into the game.
pub open spec fn deep_link_scheme() -> Seq<char> {
    "roblox://"@
}

/// What a place id follows in a deep link.
pub open spec fn place_key() -> Seq<char> {
    "placeId="@
}

/// What a place id follows in a web address.
pub open spec fn games_segment() -> Seq<char> {
    "/games/"@
}

/// What a server id follows in a deep link.
pub open spec fn instance_key() -> Seq<char> {
    "gameInstanceId="@
}

/// The place id of a deep link: the number between the first `placeId=`
/// and the next `&`, in a text that begins with the scheme.
pub open spec fn deep_link_place_id(link: Seq<char>) -> Option<u64> {
    if starts_with(link, deep_link_scheme()) {
        match find(link, place_key()) {
            Some(start) => parsed_u64(up_to(link.skip(start + place_key().len()), '&')),
            None => None,
        }
    } else {
        None
    }
}

/// The place id of a web address: the number between the first `/games/`
/// and the next `/`.
pub open spec fn web_place_id(address: Seq<char>) -> Option<u64> {
    match find(address, games_segment()) {
        Some(start) => parsed_u64(up_to(address.skip(start + games_segment().len()), '/')),
        None => None,
    }
}

/// The place id that `url` names. Whitespace around it is ignored; then it
/// is read as a bare number, else as a deep link, else as a web address.
pub open spec fn place_id_of(url: Seq<char>) -> Option<u64> {
    let text = trimmed(url);
    if parsed_u64(text) is Some {
        parsed_u64(text)
    } else if deep_link_place_id(text) is Some {
        deep_link_place_id(text)
    } else {
        web_place_id(text)
    }
}

/// The server id that `url` names: what stands between the first
/// `gameInstanceId=` and the next `&`, unless that is empty.
pub open spec fn job_id_of(url: Seq<char>) -> Option<Seq<char>> {
    match find(url, instance_key()) {
        Some(start) => {
            let id = up_to(url.skip(start + instance_key().len()), '&');
            if id.len() > 0 {
                Some(id)
            } else {
                None
            }
        },
        None => None,
    }
}

/// What every link to a place begins with.
pub open spec fn link_head() -> Seq<char> {
    "roblox://experiences/start?placeId="@
}

/// Where in the head of a link the scheme and the key of the place stand,
/// and that neither key stands anywhere before.
proof fn lemma_link_head()
    ensures
        link_head().len() == 35,
        link_head().subrange(0, 9) == deep_link_scheme(),
        link_head().subrange(27, 35) == place_key(),
        forall|j: int|
            0 <= j < 27 ==> !((#[trigger] link_head()[j]) == 'p' && link_head()[j + 1] == 'l'),
        forall|j: int| 0 <= j < 35 ==> (#[trigger] link_head()[j]) != 'g',
        !is_whitespace(link_head()[0]),
        !is_digit(link_head()[0]),
        link_head()[0] != '+',
{
    reveal_strlit("roblox://experiences/start?placeId=");
    reveal_strlit("roblox://");
    reveal_strlit("placeId=");
    let head = link_head();
    assert(head.subrange(0, 9) =~= deep_link_scheme());
    assert(head.subrange(27, 35) =~= place_key());
}

/// A link to a place reads back as the place: what
/// [`build_deep_link`](crate::launcher::build_deep_link) writes,
/// [`extract_place_id_from_url`] reads.
pub proof fn lemma_deep_link_names_its_place(place_id: u64, job_id: Option<Seq<char>>)
    ensures
        place_id_of(deep_link(place_id, job_id)) == Some(place_id),
{
    reveal_strlit("&gameInstanceId=");
    reveal_strlit("placeId=");
    reveal_strlit("roblox://");
    lemma_link_head();
    lemma_decimal_digits(place_id as nat);
    lemma_decimal_parses(place_id);
    let head = link_head();
    let digits = decimal(place_id as nat);
    let tail = match job_id {
        Some(job) => "&gameInstanceId="@ + job,
        None => Seq::<char>::empty(),
    };
    let link = deep_link(place_id, job_id);
    assert(link =~= head + digits + tail);
    let k = head.len() + digits.len() + (if tail.len() > 0 { 16int } else { 0 });
    assert(is_digit(digits[digits.len() - 1]));
    assert(link[0] == head[0]);
    if tail.len() > 0 {
        assert(link[k - 1] == '=');
    } else {
        assert(link[k - 1] == digits[digits.len() - 1]);
    }
    lemma_trimmed_keeps_prefix(link, k);
    let text = trimmed(link);
    let n = text.len() as int;
    assert(text == link.take(n));
    assert(forall|i: int| 0 <= i < n ==> text[i] == link[i]);
    let rest = text.skip(35 + digits.len() as int);
    assert(text =~= head + digits + rest);
    assert(rest.len() == 0 || rest[0] == '&') by {
        if rest.len() > 0 {
            assert(rest[0] == link[35 + digits.len() as int]);
            assert(tail.len() > 0);
            assert(link[35 + digits.len() as int] == tail[0]);
        }
    }
    assert(text[0] == head[0]);
    assert(parsed_u64(text) is None) by {
        assert(!is_digit(text[0]));
    }
    assert(starts_with(text, deep_link_scheme())) by {
        assert(text.subrange(0, 9) =~= head.subrange(0, 9));
    }
    assert(occurs_at(text, place_key(), 27)) by {
        assert(text.subrange(27, 35) =~= head.subrange(27, 35));
    }
    assert forall|j: int| 0 <= j < 27 implies !occurs_at(text, place_key(), j) by {
        if occurs_at(text, place_key(), j) {
            let part = text.subrange(j, j + 8);
            assert(part[0] == 'p' && part[1] == 'l');
            assert(text[j] == head[j] && text[j + 1] == head[j + 1]);
        }
    }
    lemma_find_is_first(text, place_key());
    assert(find(text, place_key()) == Some(27int));
    assert(text.skip(27 + place_key().len() as int) =~= digits + rest);
    lemma_up_to_after_digits(digits, rest, '&');
}

/// A link to a server reads back as the server, if the name of the server
/// is not empty and holds no `&`: what
/// [`build_deep_link`](crate::launcher::build_deep_link) writes,
/// [`extract_job_id_from_url`] reads.
pub proof fn lemma_deep_link_names_its_server(place_id: u64, job_id: Seq<char>)
    requires
        job_id.len() > 0,
        !job_id.contains('&'),
    ensures
        job_id_of(deep_link(place_id, Some(job_id))) == Some(job_id),
{
    reveal_strlit("&gameInstanceId=");
    reveal_strlit("gameInstanceId=");
    lemma_link_head();
    lemma_decimal_digits(place_id as nat);
    let head = link_head();
    let digits = decimal(place_id as nat);
    let key = instance_key();
    let link = deep_link(place_id, Some(job_id));
    let at = 35 + digits.len() as int + 1;
    assert(link =~= head + digits + seq!['&'] + key + job_id);
    assert(occurs_at(link, key, at)) by {
        assert(link.subrange(at, at + 15) =~= key);
    }
    assert forall|j: int| 0 <= j < at implies !occurs_at(link, key, j) by {
        if occurs_at(link, key, j) {
            let part = link.subrange(j, j + 15);
            assert(part[0] == 'g');
            assert(link[j] == 'g');
            if j < 35 {
                assert(link[j] == head[j]);
            } else if j < 35 + digits.len() {
                assert(link[j] == digits[j - 35]);
                assert(is_digit(digits[j - 35]));
            } else {
                assert(link[j] == '&');
            }
        }
    }
    lemma_find_is_first(link, key);
    assert(find(link, key) == Some(at));
    assert(link.skip(at + key.len() as int) =~= job_id);
    lemma_up_to_without_stop(job_id, '&');
}

/// One of the browser names, picked at random.
pub fn get_random_user_agent() -> (agent: &'static str)
    ensures
        exists|i: int| 0 <= i < 5 && agent@ == USER_AGENTS[i]@,
{
    let index: usize = random_below(5);
    USER_AGENTS[index]
}

/// The number in `text` between the first `key` and the next `stop`.
fn number_after(text: &[char], key: &str, stop: char) -> (id: Option<u64>)
    ensures
        id == match find(text@, key@) {
            Some(start) => parsed_u64(up_to(text@.skip(start + key@.len()), stop)),
            None => None,
        },
{
    let key: Vec<char> = chars_of(key);
    proof {
        lemma_find_is_first(text@, key@);
    }
    match find_in(text, key.as_slice(), 0) {
        None => None,
        Some(start) => {
            assert(occurs_at(text@, key@, start as int));
            assert(text@.len() == text.len());
            let from: usize = start + key.len();
            let end: usize = find_char_or_len(text, from, stop);
            proof {
                assert(text@.subrange(from as int, end as int) =~= up_to(
                    text@.skip(from as int),
                    stop,
                ));
            }
            parse_u64(slice_subrange(text, from, end))
        },
    }
}

/// Reads the place id out of a bare number, a deep link
/// (`roblox://placeId=123456789`) or a web address
/// (`https://www.roblox.com/games/123456789/Game-Name`).
pub fn extract_place_id_from_url(url: &str) -> (id: Option<u64>)
    ensures
        id == place_id_of(url@),
{
    let chars: Vec<char> = chars_of(url);
    let (start, end) = trim_bounds(chars.as_slice());
    let text: &[char] = slice_subrange(chars.as_slice(), start, end);

    if let Some(id) = parse_u64(text) {
        return Some(id);
    }
    let scheme: Vec<char> = chars_of("roblox://");
    if has_prefix(text, scheme.as_slice()) {
        if let Some(id) = number_after(text, "placeId=", '&') {
            return Some(id);
        }
    }
    number_after(text, "/games/", '/')
}

/// Reads the server id out of a deep link
/// (`roblox://placeId=123&gameInstanceId=abc-def-ghi`).
pub fn extract_job_id_from_url(url: &str) -> (id: Option<String>)
    ensures
        match id {
            Some(text) => job_id_of(url@) == Some(text@),
            None => job_id_of(url@) is None,
        },
{
    let chars: Vec<char> = chars_of(url);
    let key: Vec<char> = chars_of("gameInstanceId=");
    proof {
        lemma_find_is_first(chars@, key@);
    }
    match find_in(chars.as_slice(), key.as_slice(), 0) {
        None => None,
        Some(start) => {
            assert(occurs_at(chars@, key@, start as int));
            assert(chars@.len() == chars.len());
            let from: usize = start + key.len();
            let end: usize = find_char_or_len(chars.as_slice(), from, '&');
            proof {
                assert(chars@.subrange(from as int, end as int) =~= up_to(
                    chars@.skip(from as int),
                    '&',
                ));
            }
            if end > from {
                Some(string_of(slice_subrange(chars.as_slice(), from, end)))
            } else {
                None
            }
        },
    }
}

} // verus!
