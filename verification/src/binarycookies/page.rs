//! A page: an offset table followed by the records it points at.

use vstd::prelude::*;
use crate::bytes::{le_u32, push_le_u32, push_all};
use crate::binarycookies::cookie::{Cookie, CookieView, cookie_record, record_len,
    lemma_record_layout};
use crate::binarycookies::utils::signed_seconds;
use crate::trusted::unix_time_now;

verus! {

/// The four bytes that open a page.
pub open spec fn page_header() -> Seq<u8> {
    seq![0x00u8, 0x00u8, 0x01u8, 0x00u8]
}

/// The four bytes between the offset table and the first record.
pub open spec fn page_footer() -> Seq<u8> {
    seq![0x00u8, 0x00u8, 0x00u8, 0x00u8]
}

/// An ordered list of cookies that share one offset table.
#[derive(Debug, Clone)]
pub struct Page {
    pub cookies: Vec<Cookie>,
}

impl View for Page {
    type V = Seq<CookieView>;

    open spec fn view(&self) -> Seq<CookieView> {
        Seq::new(self.cookies@.len(), |i: int| self.cookies@[i]@)
    }
}

/// Total length of the records of `cookies`.
pub open spec fn records_len(cookies: Seq<CookieView>) -> nat
    decreases cookies.len(),
{
    if cookies.len() == 0 {
        0
    } else {
        records_len(cookies.drop_last()) + record_len(cookies.last())
    }
}

/// Bytes of a page before its first record: header, count, one offset for
/// each cookie, footer.
pub open spec fn page_prefix_len(count: nat) -> nat {
    12 + 4 * count
}

/// Offset, from the start of the page, of the record of cookie `i`.
pub open spec fn cookie_offset(cookies: Seq<CookieView>, i: int) -> nat {
    page_prefix_len(cookies.len()) + records_len(cookies.take(i))
}

/// Length of the whole page.
pub open spec fn page_len(cookies: Seq<CookieView>) -> nat {
    page_prefix_len(cookies.len()) + records_len(cookies)
}

/// The offsets of the first `k` cookies, four little-endian bytes each.
pub open spec fn offset_table(cookies: Seq<CookieView>, k: nat) -> Seq<u8>
    decreases k,
{
    if k == 0 {
        Seq::empty()
    } else {
        offset_table(cookies, (k - 1) as nat) + le_u32(cookie_offset(cookies, k - 1) as u32)
    }
}

/// The records of `cookies`, built at `now`, one after the other.
pub open spec fn records(cookies: Seq<CookieView>, now: int) -> Seq<u8>
    decreases cookies.len(),
{
    if cookies.len() == 0 {
        Seq::empty()
    } else {
        records(cookies.drop_last(), now) + cookie_record(cookies.last(), now)
    }
}

/// The page of `cookies` built at `now`: header, little-endian count, offset
/// table, footer, records.
pub open spec fn page_bytes(cookies: Seq<CookieView>, now: int) -> Seq<u8> {
    page_header()
        + le_u32(cookies.len() as u32)
        + offset_table(cookies, cookies.len())
        + page_footer()
        + records(cookies, now)
}

/// The records of a prefix are no longer than the records of the whole.
pub proof fn lemma_records_len_prefix(cookies: Seq<CookieView>, i: int)
    requires
        0 <= i <= cookies.len(),
    ensures
        records_len(cookies.take(i)) <= records_len(cookies),
        i < cookies.len() ==> records_len(cookies.take(i)) + record_len(cookies[i])
            <= records_len(cookies),
    decreases cookies.len(),
{
    if i == cookies.len() {
        assert(cookies.take(i) =~= cookies);
    } else {
        let front = cookies.drop_last();
        assert(front.take(i) =~= cookies.take(i));
        lemma_records_len_prefix(front, i);
    }
}

/// The offset table holds four bytes for each cookie, and the records are
/// as long as their sizes add up to.
pub proof fn lemma_page_layout(cookies: Seq<CookieView>, now: int)
    ensures
        offset_table(cookies, cookies.len()).len() == 4 * cookies.len(),
        records(cookies, now).len() == records_len(cookies),
        page_bytes(cookies, now).len() == page_len(cookies),
{
    lemma_offset_table_len(cookies, cookies.len());
    lemma_records_total(cookies, now);
}

proof fn lemma_offset_table_len(cookies: Seq<CookieView>, k: nat)
    ensures
        offset_table(cookies, k).len() == 4 * k,
    decreases k,
{
    if k > 0 {
        lemma_offset_table_len(cookies, (k - 1) as nat);
    }
}

proof fn lemma_records_total(cookies: Seq<CookieView>, now: int)
    ensures
        records(cookies, now).len() == records_len(cookies),
    decreases cookies.len(),
{
    if cookies.len() > 0 {
        lemma_records_total(cookies.drop_last(), now);
        lemma_record_layout(cookies.last(), now);
    }
}

/// With no cookie before it, the first record begins right after the
/// prefix: at `12 + 4 * count`.
pub proof fn lemma_first_offset(cookies: Seq<CookieView>)
    ensures
        cookie_offset(cookies, 0) == 12 + 4 * cookies.len(),
{
    assert(cookies.take(0) =~= Seq::<CookieView>::empty());
}

impl Page {
    /// A page of the given cookies.
    pub fn new(cookies: Vec<Cookie>) -> (page: Self)
        ensures
            page.cookies == cookies,
    {
        Self { cookies }
    }

    /// The length of the page, if every size and offset in it fits in
    /// 32 bits.
    pub fn encoded_len(&self) -> (len: Option<u32>)
        ensures
            page_len(self@) <= u32::MAX ==> len == Some(page_len(self@) as u32),
            page_len(self@) > u32::MAX ==> len is None,
    {
        let limit: u64 = 0xffff_ffff;
        let count: usize = self.cookies.len();
        if count as u64 > (limit - 12) / 4 {
            return None;
        }
        let mut total: u64 = 12 + 4 * (count as u64);
        let mut i: usize = 0;
        while i < count
            invariant
                i <= count,
                count == self.cookies@.len(),
                self@.len() == count,
                total == page_prefix_len(count as nat) + records_len(self@.take(i as int)),
                total <= limit,
                limit == 0xffff_ffff,
            decreases count - i,
        {
            proof {
                lemma_records_len_prefix(self@, i as int);
                assert(self@.take(i + 1).drop_last() =~= self@.take(i as int));
                assert(self@.take(i + 1).last() == self@[i as int]);
            }
            match self.cookies[i].encoded_len() {
                None => {
                    return None;
                },
                Some(len) => {
                    total = total + len as u64;
                    if total > limit {
                        return None;
                    }
                },
            }
            i = i + 1;
        }
        proof {
            assert(self@.take(count as int) =~= self@);
        }
        Some(total as u32)
    }

    /// The offset table and the records of the page built at `now`.
    fn build_parts(&self, now: i64) -> (parts: (Vec<u8>, Vec<u8>))
        requires
            page_len(self@) <= u32::MAX,
        ensures
            parts.0@ == offset_table(self@, self@.len()),
            parts.1@ == records(self@, now as int),
    {
        let count: usize = self.cookies.len();
        let mut table: Vec<u8> = Vec::new();
        let mut body: Vec<u8> = Vec::new();
        let mut offset: u32 = 12 + 4 * (count as u32);
        let mut i: usize = 0;
        proof {
            lemma_first_offset(self@);
        }
        while i < count
            invariant
                i <= count,
                count == self.cookies@.len(),
                self@.len() == count,
                page_len(self@) <= u32::MAX,
                offset == cookie_offset(self@, i as int),
                table@ == offset_table(self@, i as nat),
                body@ == records(self@.take(i as int), now as int),
            decreases count - i,
        {
            let ghost front = self@.take(i as int);
            let ghost next = self@.take(i + 1);
            proof {
                lemma_records_len_prefix(self@, i as int);
                assert(next.drop_last() =~= front);
                assert(next.last() == self@[i as int]);
                assert(records_len(next) == records_len(front) + record_len(self@[i as int]));
                assert(records(next, now as int) == records(front, now as int) + cookie_record(
                    self@[i as int],
                    now as int,
                ));
                lemma_record_layout(self@[i as int], now as int);
            }
            let record: Vec<u8> = self.cookies[i].build_at(now);
            push_le_u32(&mut table, offset);
            offset = offset + record.len() as u32;
            push_all(&mut body, record.as_slice());
            i = i + 1;
        }
        proof {
            assert(self@.take(count as int) =~= self@);
        }
        (table, body)
    }

    /// The page built at the instant `now`.
    pub fn build_at(&self, now: i64) -> (bytes: Vec<u8>)
        requires
            page_len(self@) <= u32::MAX,
        ensures
            bytes@ == page_bytes(self@, now as int),
    {
        let count: usize = self.cookies.len();
        let (table, body) = self.build_parts(now);
        let mut bytes: Vec<u8> = Vec::new();
        bytes.push(0x00u8);
        bytes.push(0x00u8);
        bytes.push(0x01u8);
        bytes.push(0x00u8);
        assert(bytes@ =~= page_header());
        push_le_u32(&mut bytes, count as u32);
        push_all(&mut bytes, table.as_slice());
        push_le_u32(&mut bytes, 0);
        assert(le_u32(0) =~= page_footer());
        push_all(&mut bytes, body.as_slice());
        bytes
    }

    /// The page built now: every cookie that names no creation instant or
    /// no expiration gets the same reading of the clock.
    pub fn build(&self) -> (bytes: Vec<u8>)
        requires
            page_len(self@) <= u32::MAX,
        ensures
            exists|now: i64| bytes@ == page_bytes(self@, now as int),
    {
        let now: i64 = signed_seconds(unix_time_now());
        self.build_at(now)
    }
}

} // verus!
