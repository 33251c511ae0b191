//! One cookie and its record in a page.

use vstd::prelude::*;
use vstd::utf8::encode_utf8;
use crate::bytes::{le_u32, le_u64, push_le_u32, push_le_u64, push_all};
use crate::binarycookies::utils::{binary64_of_int, binary64_bits, cocoa_seconds,
    to_cocoa_timestamp, signed_seconds, COCOA_EPOCH_OFFSET, DEFAULT_LIFETIME};
use crate::trusted::unix_time_now;

verus! {

/// Bytes of a record before its strings begin.
pub const RECORD_HEADER_LEN: u32 = 56;

/// The format version written into every record.
pub const RECORD_VERSION: u32 = 1;

/// A cookie as the caller describes it. Instants are whole seconds since
/// 1970-01-01T00:00:00Z, negative for an instant before.
#[derive(Debug, Clone)]
pub struct Cookie {
    pub domain: String,
    pub name: String,
    pub path: Option<String>,
    pub value: String,
    pub secure: Option<bool>,
    pub http_only: Option<bool>,
    pub expiration: Option<i64>,
    pub creation: Option<i64>,
}

/// What a cookie's record depends on: the four strings with the path
/// defaulted, the two flags with absence read as unset, and the two instants.
pub struct CookieView {
    pub domain: Seq<char>,
    pub name: Seq<char>,
    pub path: Seq<char>,
    pub value: Seq<char>,
    pub secure: bool,
    pub http_only: bool,
    pub expiration: Option<int>,
    pub creation: Option<int>,
}

/// The path of a cookie that names none: `/`.
pub open spec fn default_path() -> Seq<char> {
    seq!['/']
}

impl View for Cookie {
    type V = CookieView;

    open spec fn view(&self) -> CookieView {
        CookieView {
            domain: self.domain@,
            name: self.name@,
            path: match self.path {
                Some(p) => p@,
                None => default_path(),
            },
            value: self.value@,
            secure: self.secure == Some(true),
            http_only: self.http_only == Some(true),
            expiration: match self.expiration {
                Some(t) => Some(t as int),
                None => None,
            },
            creation: match self.creation {
                Some(t) => Some(t as int),
                None => None,
            },
        }
    }
}

/// A string as the record stores it: its UTF-8 bytes and one zero byte.
pub open spec fn nul_terminated(s: Seq<char>) -> Seq<u8> {
    encode_utf8(s) + seq![0u8]
}

/// The flag word: bit 0 for secure, bit 2 for http-only.
pub open spec fn record_flags(c: CookieView) -> u32 {
    ((if c.secure { 1int } else { 0 }) + (if c.http_only { 4int } else { 0 })) as u32
}

/// Offset of the name within the record.
pub open spec fn name_offset(c: CookieView) -> nat {
    RECORD_HEADER_LEN as nat + nul_terminated(c.domain).len()
}

/// Offset of the path within the record.
pub open spec fn path_offset(c: CookieView) -> nat {
    name_offset(c) + nul_terminated(c.name).len()
}

/// Offset of the value within the record.
pub open spec fn value_offset(c: CookieView) -> nat {
    path_offset(c) + nul_terminated(c.path).len()
}

/// Length of the whole record.
pub open spec fn record_len(c: CookieView) -> nat {
    value_offset(c) + nul_terminated(c.value).len()
}

/// The expiration written for a cookie built at `now`: its own, or thirty
/// days after `now`.
pub open spec fn expiration_at(c: CookieView, now: int) -> int {
    match c.expiration {
        Some(t) => t,
        None => now + DEFAULT_LIFETIME,
    }
}

/// The creation instant written for a cookie built at `now`: its own, or `now`.
pub open spec fn creation_at(c: CookieView, now: int) -> int {
    match c.creation {
        Some(t) => t,
        None => now,
    }
}

/// The fixed part of a record: size, version, flags, the port marker, the
/// offsets of the four strings, two unused offsets, and the two instants.
pub open spec fn record_header(c: CookieView, now: int) -> Seq<u8> {
    le_u32(record_len(c) as u32)
        + le_u32(RECORD_VERSION)
        + le_u32(record_flags(c))
        + le_u32(0)
        + le_u32(RECORD_HEADER_LEN)
        + le_u32(name_offset(c) as u32)
        + le_u32(path_offset(c) as u32)
        + le_u32(value_offset(c) as u32)
        + le_u32(0)
        + le_u32(0)
        + le_u64(binary64_of_int(cocoa_seconds(expiration_at(c, now))) as u64)
        + le_u64(binary64_of_int(cocoa_seconds(creation_at(c, now))) as u64)
}

/// The record of a cookie built at `now`: the header, then domain, name,
/// path and value, each closed by a zero byte.
pub open spec fn cookie_record(c: CookieView, now: int) -> Seq<u8> {
    record_header(c, now)
        + nul_terminated(c.domain)
        + nul_terminated(c.name)
        + nul_terminated(c.path)
        + nul_terminated(c.value)
}

/// The header is 56 bytes long, so the domain begins where its offset field
/// says, and the record is as long as its size field says.
pub proof fn lemma_record_layout(c: CookieView, now: int)
    ensures
        record_header(c, now).len() == RECORD_HEADER_LEN,
        cookie_record(c, now).len() == record_len(c),
{
}

/// In the flag word, bit 0 is set exactly for a secure cookie and bit 2
/// exactly for an http-only one; no other bit is set.
pub proof fn lemma_record_flags_bits(c: CookieView)
    ensures
        (record_flags(c) & 1 == 1) <==> c.secure,
        (record_flags(c) & 4 == 4) <==> c.http_only,
        record_flags(c) & !5u32 == 0,
{
    assert(0u32 & 1 == 0 && 0u32 & 4 == 0 && 0u32 & !5u32 == 0) by (bit_vector);
    assert(1u32 & 1 == 1 && 1u32 & 4 == 0 && 1u32 & !5u32 == 0) by (bit_vector);
    assert(4u32 & 1 == 0 && 4u32 & 4 == 4 && 4u32 & !5u32 == 0) by (bit_vector);
    assert(5u32 & 1 == 1 && 5u32 & 4 == 4 && 5u32 & !5u32 == 0) by (bit_vector);
}

/// The first four bytes of a record are its length, the domain offset field
/// holds 56, and the domain stands there, up to where the name begins.
pub proof fn lemma_record_fields(c: CookieView, now: int)
    ensures
        cookie_record(c, now).subrange(0, 4) == le_u32(record_len(c) as u32),
        cookie_record(c, now).subrange(16, 20) == le_u32(RECORD_HEADER_LEN),
        cookie_record(c, now).subrange(56, name_offset(c) as int) == nul_terminated(c.domain),
{
    lemma_record_layout(c, now);
    let size = le_u32(record_len(c) as u32);
    let header = record_header(c, now);
    let four = size + le_u32(RECORD_VERSION) + le_u32(record_flags(c)) + le_u32(0);
    assert(four.len() == 16);
    let five = four + le_u32(RECORD_HEADER_LEN);
    assert(five.len() == 20);
    assert(five.subrange(16, 20) =~= le_u32(RECORD_HEADER_LEN));
    assert(five.subrange(0, 4) =~= size);
    assert(header =~= five + header.subrange(20, 56));
    let record = cookie_record(c, now);
    let strings = nul_terminated(c.name) + nul_terminated(c.path) + nul_terminated(c.value);
    assert(record =~= header + nul_terminated(c.domain) + strings);
    assert(record.subrange(0, 4) =~= size);
    assert(record.subrange(16, 20) =~= le_u32(RECORD_HEADER_LEN));
    assert(record.subrange(56, name_offset(c) as int) =~= nul_terminated(c.domain));
}

/// The bit pattern stored for the default expiration of a cookie built at
/// `now`.
fn default_expiration_bits(now: i64) -> (bits: u64)
    ensures
        bits == binary64_of_int(cocoa_seconds(now as int + DEFAULT_LIFETIME as int)),
{
    let gap: i64 = COCOA_EPOCH_OFFSET - DEFAULT_LIFETIME;
    if now >= gap {
        binary64_bits(false, (now - gap) as u64)
    } else {
        binary64_bits(true, (gap as i128 - now as i128) as u64)
    }
}

/// Appends `s` and a zero byte to `out`.
fn push_nul_terminated(out: &mut Vec<u8>, s: &str)
    ensures
        final(out)@ == old(out)@ + nul_terminated(s@),
{
    push_all(out, s.as_bytes());
    out.push(0u8);
}

impl Cookie {
    /// A cookie of the given parts.
    pub fn new(
        domain: String,
        name: String,
        path: Option<String>,
        value: String,
        secure: Option<bool>,
        http_only: Option<bool>,
        expiration: Option<i64>,
        creation: Option<i64>,
    ) -> (cookie: Self)
        ensures
            cookie.domain == domain,
            cookie.name == name,
            cookie.path == path,
            cookie.value == value,
            cookie.secure == secure,
            cookie.http_only == http_only,
            cookie.expiration == expiration,
            cookie.creation == creation,
    {
        Self { domain, name, path, value, secure, http_only, expiration, creation }
    }

    /// The path as written into the record.
    fn path_or_default(&self) -> (p: &str)
        ensures
            p@ == self@.path,
    {
        match &self.path {
            Some(p) => p.as_str(),
            None => {
                proof {
                    reveal_strlit("/");
                    assert("/"@ =~= default_path());
                }
                "/"
            },
        }
    }

    /// The length of the record, if its size field can hold it.
    pub fn encoded_len(&self) -> (len: Option<u32>)
        ensures
            record_len(self@) <= u32::MAX ==> len == Some(record_len(self@) as u32),
            record_len(self@) > u32::MAX ==> len is None,
    {
        let limit: u64 = 0xffff_ffff;
        let d: usize = self.domain.as_str().as_bytes().len();
        let n: usize = self.name.as_str().as_bytes().len();
        let p: usize = self.path_or_default().as_bytes().len();
        let v: usize = self.value.as_str().as_bytes().len();
        if d as u64 > limit || n as u64 > limit || p as u64 > limit || v as u64 > limit {
            return None;
        }
        let total: u64 = 60 + d as u64 + n as u64 + p as u64 + v as u64;
        if total > limit {
            None
        } else {
            Some(total as u32)
        }
    }

    /// The record of this cookie, built at the instant `now`.
    pub fn build_at(&self, now: i64) -> (bytes: Vec<u8>)
        requires
            record_len(self@) <= u32::MAX,
        ensures
            bytes@ == cookie_record(self@, now as int),
    {
        let path: &str = self.path_or_default();
        let d: usize = self.domain.as_str().as_bytes().len();
        let n: usize = self.name.as_str().as_bytes().len();
        let p: usize = path.as_bytes().len();
        let v: usize = self.value.as_str().as_bytes().len();

        let name_at: u32 = RECORD_HEADER_LEN + d as u32 + 1;
        let path_at: u32 = name_at + n as u32 + 1;
        let value_at: u32 = path_at + p as u32 + 1;
        let size: u32 = value_at + v as u32 + 1;

        let mut flags: u32 = 0;
        if let Some(true) = self.secure {
            flags = flags + 1;
        }
        if let Some(true) = self.http_only {
            flags = flags + 4;
        }

        let expiration: u64 = match self.expiration {
            Some(t) => to_cocoa_timestamp(t),
            None => default_expiration_bits(now),
        };
        let creation: u64 = match self.creation {
            Some(t) => to_cocoa_timestamp(t),
            None => to_cocoa_timestamp(now),
        };

        let mut bytes: Vec<u8> = Vec::new();
        push_le_u32(&mut bytes, size);
        push_le_u32(&mut bytes, RECORD_VERSION);
        push_le_u32(&mut bytes, flags);
        push_le_u32(&mut bytes, 0);
        push_le_u32(&mut bytes, RECORD_HEADER_LEN);
        push_le_u32(&mut bytes, name_at);
        push_le_u32(&mut bytes, path_at);
        push_le_u32(&mut bytes, value_at);
        push_le_u32(&mut bytes, 0);
        push_le_u32(&mut bytes, 0);
        push_le_u64(&mut bytes, expiration);
        push_le_u64(&mut bytes, creation);
        assert(bytes@ == record_header(self@, now as int));
        push_nul_terminated(&mut bytes, self.domain.as_str());
        push_nul_terminated(&mut bytes, self.name.as_str());
        push_nul_terminated(&mut bytes, path);
        push_nul_terminated(&mut bytes, self.value.as_str());
        bytes
    }

    /// The record of this cookie, built now. An absent creation instant is
    /// read from the clock, and an absent expiration is thirty days later.
    pub fn build(&self) -> (bytes: Vec<u8>)
        requires
            record_len(self@) <= u32::MAX,
        ensures
            exists|now: i64| bytes@ == cookie_record(self@, now as int),
    {
        let now: i64 = signed_seconds(unix_time_now());
        self.build_at(now)
    }
}

} // verus!
