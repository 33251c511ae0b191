//! The container file: a table of page sizes, the pages, a checksum.

use vstd::prelude::*;
use vstd::arithmetic::div_mod::lemma_add_mod_noop;
use crate::bytes::{be_u32, push_be_u32, push_all};
use crate::binarycookies::cookie::CookieView;
use crate::binarycookies::page::{Page, page_bytes, page_len, lemma_page_layout};
use crate::binarycookies::utils::signed_seconds;
use crate::trusted::unix_time_now;

verus! {

/// The four bytes that open the file: `cook`.
pub open spec fn file_header() -> Seq<u8> {
    seq![0x63u8, 0x6Fu8, 0x6Fu8, 0x6Bu8]
}

/// The eight bytes that close the file.
pub open spec fn file_footer() -> Seq<u8> {
    seq![0x07u8, 0x17u8, 0x20u8, 0x05u8, 0x00u8, 0x00u8, 0x00u8, 0x4Bu8]
}

/// An ordered list of pages that share one size table and one checksum.
#[derive(Debug, Clone)]
pub struct BinaryCookies {
    pub pages: Vec<Page>,
}

impl View for BinaryCookies {
    type V = Seq<Seq<CookieView>>;

    open spec fn view(&self) -> Seq<Seq<CookieView>> {
        Seq::new(self.pages@.len(), |i: int| self.pages@[i]@)
    }
}

/// Whether the 32-bit fields of the file can hold the page count and the
/// size of every page.
pub open spec fn container_fits(pages: Seq<Seq<CookieView>>) -> bool {
    &&& pages.len() <= u32::MAX
    &&& forall|i: int| 0 <= i < pages.len() ==> page_len(#[trigger] pages[i]) <= u32::MAX
}

/// The sizes of the first `k` pages, four big-endian bytes each.
pub open spec fn size_table(pages: Seq<Seq<CookieView>>, k: nat) -> Seq<u8>
    decreases k,
{
    if k == 0 {
        Seq::empty()
    } else {
        size_table(pages, (k - 1) as nat) + be_u32(page_len(pages[k - 1]) as u32)
    }
}

/// The pages built at `now`, one after the other.
pub open spec fn page_blocks(pages: Seq<Seq<CookieView>>, now: int) -> Seq<u8>
    decreases pages.len(),
{
    if pages.len() == 0 {
        Seq::empty()
    } else {
        page_blocks(pages.drop_last(), now) + page_bytes(pages.last(), now)
    }
}

/// The sum of the bytes of `block` at the indices 0, 4, 8 and so on.
pub open spec fn every_fourth_sum(block: Seq<u8>) -> nat
    decreases block.len(),
{
    if block.len() == 0 {
        0
    } else {
        every_fourth_sum(block.drop_last()) + if (block.len() - 1) % 4 == 0 {
            block.last() as nat
        } else {
            0
        }
    }
}

/// The checksum of the page blocks: the sum of every fourth byte of their
/// concatenation, modulo 2^32.
pub open spec fn checksum(blocks: Seq<u8>) -> u32 {
    (every_fourth_sum(blocks) % 0x1_0000_0000) as u32
}

/// The file of `pages` built at `now`: magic, big-endian page count, size
/// table, pages, big-endian checksum, footer.
pub open spec fn container_bytes(pages: Seq<Seq<CookieView>>, now: int) -> Seq<u8> {
    file_header()
        + be_u32(pages.len() as u32)
        + size_table(pages, pages.len())
        + page_blocks(pages, now)
        + be_u32(checksum(page_blocks(pages, now)))
        + file_footer()
}

/// Every file begins with the magic and the page count and ends with the
/// footer.
pub proof fn lemma_container_frame(pages: Seq<Seq<CookieView>>, now: int)
    ensures
        container_bytes(pages, now).len() >= 20,
        container_bytes(pages, now).subrange(0, 4) == file_header(),
        container_bytes(pages, now).subrange(4, 8) == be_u32(pages.len() as u32),
        container_bytes(pages, now).subrange(
            container_bytes(pages, now).len() - 8,
            container_bytes(pages, now).len() as int,
        ) == file_footer(),
{
    let head = file_header() + be_u32(pages.len() as u32);
    let middle = size_table(pages, pages.len()) + page_blocks(pages, now) + be_u32(
        checksum(page_blocks(pages, now)),
    );
    let all = container_bytes(pages, now);
    assert(all =~= head + middle + file_footer());
    assert(all.subrange(0, 4) =~= file_header());
    assert(all.subrange(4, 8) =~= be_u32(pages.len() as u32));
    assert(all.subrange(all.len() - 8, all.len() as int) =~= file_footer());
}

/// The checksum of `blocks`, in one pass.
fn checksum_of(blocks: &Vec<u8>) -> (sum: u32)
    ensures
        sum == checksum(blocks@),
{
    let mut sum: u64 = 0;
    let mut i: usize = 0;
    while i < blocks.len()
        invariant
            i <= blocks@.len(),
            sum == every_fourth_sum(blocks@.take(i as int)) % 0x1_0000_0000,
        decreases blocks@.len() - i,
    {
        let ghost before = every_fourth_sum(blocks@.take(i as int));
        proof {
            assert(blocks@.take(i + 1).drop_last() =~= blocks@.take(i as int));
            assert(blocks@.take(i + 1).last() == blocks@[i as int]);
        }
        if i % 4 == 0 {
            proof {
                lemma_add_mod_noop(before as int, blocks@[i as int] as int, 0x1_0000_0000);
            }
            sum = (sum + blocks[i] as u64) % 0x1_0000_0000;
        }
        i = i + 1;
    }
    proof {
        assert(blocks@.take(blocks@.len() as int) =~= blocks@);
    }
    sum as u32
}

impl BinaryCookies {
    /// A container of the given pages.
    pub fn new(pages: Vec<Page>) -> (container: Self)
        ensures
            container.pages == pages,
    {
        Self { pages }
    }

    /// Whether [`BinaryCookies::build`] can write this container: the page
    /// count and every size and offset fit in 32 bits.
    pub fn is_encodable(&self) -> (ok: bool)
        ensures
            ok == container_fits(self@),
    {
        let count: usize = self.pages.len();
        if count as u64 > 0xffff_ffff {
            return false;
        }
        let mut i: usize = 0;
        while i < count
            invariant
                i <= count,
                count == self.pages@.len(),
                self@.len() == count,
                forall|j: int| 0 <= j < i ==> page_len(#[trigger] self@[j]) <= u32::MAX,
            decreases count - i,
        {
            if self.pages[i].encoded_len().is_none() {
                assert(page_len(self@[i as int]) > u32::MAX);
                return false;
            }
            i = i + 1;
        }
        true
    }

    /// The size table and the page blocks of the file built at `now`.
    fn build_parts(&self, now: i64) -> (parts: (Vec<u8>, Vec<u8>))
        requires
            container_fits(self@),
        ensures
            parts.0@ == size_table(self@, self@.len()),
            parts.1@ == page_blocks(self@, now as int),
    {
        let count: usize = self.pages.len();
        let mut sizes: Vec<u8> = Vec::new();
        let mut blocks: Vec<u8> = Vec::new();
        let mut i: usize = 0;
        while i < count
            invariant
                i <= count,
                count == self.pages@.len(),
                self@.len() == count,
                container_fits(self@),
                sizes@ == size_table(self@, i as nat),
                blocks@ == page_blocks(self@.take(i as int), now as int),
            decreases count - i,
        {
            let ghost front = self@.take(i as int);
            let ghost next = self@.take(i + 1);
            proof {
                assert(next.drop_last() =~= front);
                assert(next.last() == self@[i as int]);
                assert(page_blocks(next, now as int) == page_blocks(front, now as int)
                    + page_bytes(self@[i as int], now as int));
                lemma_page_layout(self@[i as int], now as int);
            }
            let block: Vec<u8> = self.pages[i].build_at(now);
            push_be_u32(&mut sizes, block.len() as u32);
            push_all(&mut blocks, block.as_slice());
            i = i + 1;
        }
        proof {
            assert(self@.take(count as int) =~= self@);
        }
        (sizes, blocks)
    }

    /// The file built at the instant `now`.
    pub fn build_at(&self, now: i64) -> (bytes: Vec<u8>)
        requires
            container_fits(self@),
        ensures
            bytes@ == container_bytes(self@, now as int),
    {
        let count: usize = self.pages.len();
        let (sizes, blocks) = self.build_parts(now);
        let sum: u32 = checksum_of(&blocks);
        let mut bytes: Vec<u8> = Vec::new();
        bytes.push(0x63u8);
        bytes.push(0x6Fu8);
        bytes.push(0x6Fu8);
        bytes.push(0x6Bu8);
        assert(bytes@ =~= file_header());
        push_be_u32(&mut bytes, count as u32);
        push_all(&mut bytes, sizes.as_slice());
        push_all(&mut bytes, blocks.as_slice());
        push_be_u32(&mut bytes, sum);
        let ghost body = bytes@;
        bytes.push(0x07u8);
        bytes.push(0x17u8);
        bytes.push(0x20u8);
        bytes.push(0x05u8);
        bytes.push(0x00u8);
        bytes.push(0x00u8);
        bytes.push(0x00u8);
        bytes.push(0x4Bu8);
        assert(bytes@ =~= body + file_footer());
        bytes
    }

    /// The file built now: every cookie that names no creation instant or
    /// no expiration gets the same reading of the clock.
    pub fn build(&self) -> (bytes: Vec<u8>)
        requires
            container_fits(self@),
        ensures
            exists|now: i64| bytes@ == container_bytes(self@, now as int),
    {
        let now: i64 = signed_seconds(unix_time_now());
        self.build_at(now)
    }
}

} // verus!
