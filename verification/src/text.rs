//! Text as sequences of characters: searching, trimming, and decimal
//! numbers.

use vstd::prelude::*;
use vstd::utf8::{encode_utf8, encode_utf8_decode_utf8};

verus! {

/// Whether `needle` stands in `hay` at index `i`.
pub open spec fn occurs_at(hay: Seq<char>, needle: Seq<char>, i: int) -> bool {
    &&& 0 <= i
    &&& i + needle.len() <= hay.len()
    &&& hay.subrange(i, i + needle.len()) == needle
}

/// The least index at or after `from` at which `needle` stands in `hay`.
pub open spec fn find_from(hay: Seq<char>, needle: Seq<char>, from: int) -> Option<int>
    decreases hay.len() + 1 - from,
{
    if from < 0 || from + needle.len() > hay.len() {
        None
    } else if occurs_at(hay, needle, from) {
        Some(from)
    } else {
        find_from(hay, needle, from + 1)
    }
}

/// The least index at which `needle` stands in `hay`.
pub open spec fn find(hay: Seq<char>, needle: Seq<char>) -> Option<int> {
    find_from(hay, needle, 0)
}

/// The index of the first `c` in `hay`, or the length of `hay` if there is
/// none.
pub open spec fn index_of_or_len(hay: Seq<char>, c: char) -> int
    decreases hay.len(),
{
    if hay.len() == 0 {
        0
    } else if hay[0] == c {
        0
    } else {
        1 + index_of_or_len(hay.skip(1), c)
    }
}

/// The part of `hay` before its first `c`; all of it if there is none.
pub open spec fn up_to(hay: Seq<char>, c: char) -> Seq<char> {
    hay.take(index_of_or_len(hay, c))
}

/// Whether `hay` begins with `prefix`.
pub open spec fn starts_with(hay: Seq<char>, prefix: Seq<char>) -> bool {
    occurs_at(hay, prefix, 0)
}

/// The characters with the Unicode property `White_Space`.
pub open spec fn is_whitespace(c: char) -> bool {
    let u = c as u32;
    ||| 0x09 <= u <= 0x0D
    ||| u == 0x20
    ||| u == 0x85
    ||| u == 0xA0
    ||| u == 0x1680
    ||| 0x2000 <= u <= 0x200A
    ||| u == 0x2028
    ||| u == 0x2029
    ||| u == 0x202F
    ||| u == 0x205F
    ||| u == 0x3000
}

/// Number of whitespace characters that `s` begins with.
pub open spec fn leading_whitespace(s: Seq<char>) -> nat
    decreases s.len(),
{
    if s.len() > 0 && is_whitespace(s[0]) {
        1 + leading_whitespace(s.skip(1))
    } else {
        0
    }
}

/// Number of whitespace characters that `s` ends with.
pub open spec fn trailing_whitespace(s: Seq<char>) -> nat
    decreases s.len(),
{
    if s.len() > 0 && is_whitespace(s.last()) {
        1 + trailing_whitespace(s.drop_last())
    } else {
        0
    }
}

/// `s` without the whitespace at its two ends.
pub open spec fn trimmed(s: Seq<char>) -> Seq<char> {
    let rest = s.skip(leading_whitespace(s) as int);
    rest.take(rest.len() - trailing_whitespace(rest))
}

/// The ten decimal digits.
pub open spec fn is_digit(c: char) -> bool {
    '0' <= c <= '9'
}

/// Whether `s` holds decimal digits and nothing else.
pub open spec fn all_digits(s: Seq<char>) -> bool {
    forall|i: int| 0 <= i < s.len() ==> is_digit(#[trigger] s[i])
}

/// The number that the decimal digits `s` write; zero for no digits.
pub open spec fn digits_value(s: Seq<char>) -> nat
    decreases s.len(),
{
    if s.len() == 0 {
        0
    } else {
        digits_value(s.drop_last()) * 10 + (s.last() as u32 - '0' as u32) as nat
    }
}

/// The number that `s` writes in decimal, as parsing into a `u64` reads it:
/// an optional `+`, then at least one digit and nothing but digits, with a
/// value that a `u64` can hold.
pub open spec fn parsed_u64(s: Seq<char>) -> Option<u64> {
    let digits = if s.len() > 0 && s[0] == '+' { s.skip(1) } else { s };
    if digits.len() > 0 && all_digits(digits) && digits_value(digits) <= u64::MAX {
        Some(digits_value(digits) as u64)
    } else {
        None
    }
}

/// The number that `s` writes in decimal, as parsing into a `u32` reads it.
pub open spec fn parsed_u32(s: Seq<char>) -> Option<u32> {
    match parsed_u64(s) {
        Some(value) => if value <= u32::MAX {
            Some(value as u32)
        } else {
            None
        },
        None => None,
    }
}

/// The character of a digit value below ten.
pub open spec fn digit_char(d: nat) -> char {
    (('0' as u32) + d as u32) as char
}

/// `n` in decimal, without sign or leading zeros.
pub open spec fn decimal(n: nat) -> Seq<char>
    decreases n,
{
    if n < 10 {
        seq![digit_char(n)]
    } else {
        decimal(n / 10).push(digit_char(n % 10))
    }
}

/// `n` in decimal, with a minus sign if it is negative.
pub open spec fn signed_decimal(n: int) -> Seq<char> {
    if n < 0 {
        seq!['-'] + decimal((-n) as nat)
    } else {
        decimal(n as nat)
    }
}

/// The bytes that percent-encoding leaves as they are: letters, digits,
/// `-`, `.`, `_` and `~`.
pub open spec fn is_unreserved(byte: u8) -> bool {
    ||| 0x30 <= byte <= 0x39
    ||| 0x41 <= byte <= 0x5A
    ||| 0x61 <= byte <= 0x7A
    ||| byte == 0x2D
    ||| byte == 0x2E
    ||| byte == 0x5F
    ||| byte == 0x7E
}

/// The hexadecimal digit of a value below sixteen, in upper case.
pub open spec fn upper_hex_digit(value: u8) -> char {
    if value < 10 {
        (0x30 + value) as char
    } else {
        (0x41 + value - 10) as char
    }
}

/// `bytes` percent-encoded: an unreserved byte stands for itself, any other
/// becomes `%` and its two hexadecimal digits.
pub open spec fn percent_encoded(bytes: Seq<u8>) -> Seq<char>
    decreases bytes.len(),
{
    if bytes.len() == 0 {
        Seq::empty()
    } else {
        let last = bytes.last();
        percent_encoded(bytes.drop_last()) + if is_unreserved(last) {
            seq![last as char]
        } else {
            seq!['%', upper_hex_digit(last / 16), upper_hex_digit(last % 16)]
        }
    }
}

/// `find` gives the first index at which the needle stands, and `None` only
/// if it stands nowhere.
pub proof fn lemma_find_is_first(hay: Seq<char>, needle: Seq<char>)
    ensures
        match find(hay, needle) {
            Some(i) => occurs_at(hay, needle, i) && forall|j: int|
                0 <= j < i ==> !occurs_at(hay, needle, j),
            None => forall|j: int| !occurs_at(hay, needle, j),
        },
{
    lemma_find_from_is_first(hay, needle, 0);
}

proof fn lemma_find_from_is_first(hay: Seq<char>, needle: Seq<char>, from: int)
    requires
        0 <= from,
    ensures
        match find_from(hay, needle, from) {
            Some(i) => from <= i && occurs_at(hay, needle, i) && forall|j: int|
                from <= j < i ==> !occurs_at(hay, needle, j),
            None => forall|j: int| from <= j ==> !occurs_at(hay, needle, j),
        },
    decreases hay.len() + 1 - from,
{
    if from + needle.len() <= hay.len() && !occurs_at(hay, needle, from) {
        lemma_find_from_is_first(hay, needle, from + 1);
    }
}

/// The digits written so far never stand for more than the whole number.
pub proof fn lemma_digits_value_prefix(s: Seq<char>, k: int)
    requires
        0 <= k <= s.len(),
    ensures
        digits_value(s.take(k)) <= digits_value(s),
    decreases s.len() - k,
{
    if k < s.len() {
        assert(s.take(k + 1).drop_last() =~= s.take(k));
        lemma_digits_value_prefix(s, k + 1);
    } else {
        assert(s.take(k) =~= s);
    }
}

/// A number written in decimal is digits and nothing else, and they write
/// that number.
pub proof fn lemma_decimal_digits(n: nat)
    ensures
        decimal(n).len() > 0,
        all_digits(decimal(n)),
        digits_value(decimal(n)) == n,
    decreases n,
{
    let text = decimal(n);
    let last = digit_char(n % 10);
    assert(last as u32 == '0' as u32 + n % 10);
    assert(digits_value(Seq::<char>::empty()) == 0);
    if n < 10 {
        assert(text.drop_last() =~= Seq::<char>::empty());
        assert(text.last() == last);
    } else {
        let front = decimal(n / 10);
        lemma_decimal_digits(n / 10);
        assert(text.drop_last() =~= front);
        assert(text.last() == last);
        assert forall|i: int| 0 <= i < text.len() implies is_digit(#[trigger] text[i]) by {
            if i < front.len() {
                assert(text[i] == front[i]);
            }
        }
    }
}

/// What is written in decimal reads back as the number that was written.
pub proof fn lemma_decimal_parses(n: u64)
    ensures
        parsed_u64(decimal(n as nat)) == Some(n),
{
    lemma_decimal_digits(n as nat);
    let text = decimal(n as nat);
    assert(is_digit(text[0]));
}

/// The text up to a stop that follows digits is the digits.
pub proof fn lemma_up_to_after_digits(digits: Seq<char>, tail: Seq<char>, stop: char)
    requires
        all_digits(digits),
        !is_digit(stop),
        tail.len() == 0 || tail[0] == stop,
    ensures
        index_of_or_len(digits + tail, stop) == digits.len(),
        up_to(digits + tail, stop) == digits,
    decreases digits.len(),
{
    let text = digits + tail;
    if digits.len() == 0 {
        assert(text =~= tail);
    } else {
        assert(text[0] == digits[0]);
        assert(is_digit(digits[0]));
        let rest = digits.skip(1);
        assert(text.skip(1) =~= rest + tail);
        assert forall|i: int| 0 <= i < rest.len() implies is_digit(#[trigger] rest[i]) by {
            assert(rest[i] == digits[i + 1]);
        }
        lemma_up_to_after_digits(rest, tail, stop);
    }
    assert(text.take(digits.len() as int) =~= digits);
}

/// A text without the stop is all there is up to the stop.
pub proof fn lemma_up_to_without_stop(text: Seq<char>, stop: char)
    requires
        !text.contains(stop),
    ensures
        up_to(text, stop) == text,
    decreases text.len(),
{
    if text.len() > 0 {
        assert(text[0] != stop);
        let rest = text.skip(1);
        assert(!rest.contains(stop)) by {
            if rest.contains(stop) {
                let i = choose|i: int| 0 <= i < rest.len() && rest[i] == stop;
                assert(text[i + 1] == stop);
            }
        }
        lemma_up_to_without_stop(rest, stop);
        assert(rest.take(rest.len() as int) =~= rest);
        assert(index_of_or_len(rest, stop) == rest.len()) by {
            lemma_index_of_or_len_bound(rest, stop);
            if index_of_or_len(rest, stop) < rest.len() {
                assert(rest.take(index_of_or_len(rest, stop)).len() < rest.len());
            }
        }
    }
    assert(text.take(text.len() as int) =~= text);
}

/// The first stop is not beyond the end.
pub proof fn lemma_index_of_or_len_bound(text: Seq<char>, stop: char)
    ensures
        0 <= index_of_or_len(text, stop) <= text.len(),
    decreases text.len(),
{
    if text.len() > 0 && text[0] != stop {
        lemma_index_of_or_len_bound(text.skip(1), stop);
    }
}

/// The whitespace at the end of a text does not reach back over a
/// character that is not whitespace.
pub proof fn lemma_trailing_whitespace_bound(text: Seq<char>, k: int)
    requires
        0 < k <= text.len(),
        !is_whitespace(text[k - 1]),
    ensures
        trailing_whitespace(text) <= text.len() - k,
    decreases text.len(),
{
    if text.len() > k && is_whitespace(text.last()) {
        assert(text.drop_last()[k - 1] == text[k - 1]);
        lemma_trailing_whitespace_bound(text.drop_last(), k);
    }
}

/// Trimming a text that begins with a character that is not whitespace
/// cuts it after its last character that is not whitespace, or later.
pub proof fn lemma_trimmed_keeps_prefix(text: Seq<char>, k: int)
    requires
        0 < k <= text.len(),
        !is_whitespace(text[0]),
        !is_whitespace(text[k - 1]),
    ensures
        k <= trimmed(text).len() <= text.len(),
        trimmed(text) == text.take(trimmed(text).len() as int),
{
    assert(leading_whitespace(text) == 0);
    assert(text.skip(0) =~= text);
    lemma_trailing_whitespace_bound(text, k);
    let n = text.len() - trailing_whitespace(text);
    assert(trimmed(text) =~= text.take(n));
}

/// The characters of `s`, in order.
pub fn chars_of(s: &str) -> (chars: Vec<char>)
    ensures
        chars@ == s@,
{
    let mut chars: Vec<char> = Vec::new();
    for c in it: s.chars()
        invariant
            chars@ == it.seq().take(it.index()),
            it.seq() == s@,
    {
        chars.push(c);
    }
    chars
}

/// The string of the characters `chars`.
pub fn string_of(chars: &[char]) -> (s: String)
    ensures
        s@ == chars@,
{
    let mut s: String = String::new();
    let mut i: usize = 0;
    while i < chars.len()
        invariant
            i <= chars@.len(),
            s@ == chars@.take(i as int),
        decreases chars@.len() - i,
    {
        s.push(chars[i]);
        proof {
            assert(chars@.take(i + 1) =~= chars@.take(i as int).push(chars@[i as int]));
        }
        i = i + 1;
    }
    proof {
        assert(chars@.take(chars@.len() as int) =~= chars@);
    }
    s
}

/// Whether two strings hold the same characters.
pub fn str_eq(a: &str, b: &str) -> (eq: bool)
    ensures
        eq == (a@ == b@),
{
    let x: &[u8] = a.as_bytes();
    let y: &[u8] = b.as_bytes();
    proof {
        encode_utf8_decode_utf8(a@);
        encode_utf8_decode_utf8(b@);
    }
    if x.len() != y.len() {
        return false;
    }
    let mut i: usize = 0;
    while i < x.len()
        invariant
            i <= x@.len(),
            x@.len() == y@.len(),
            x@.take(i as int) == y@.take(i as int),
            x@ == encode_utf8(a@),
            y@ == encode_utf8(b@),
        decreases x@.len() - i,
    {
        if x[i] != y[i] {
            return false;
        }
        proof {
            assert(x@.take(i + 1) =~= x@.take(i as int).push(x@[i as int]));
            assert(y@.take(i + 1) =~= y@.take(i as int).push(y@[i as int]));
        }
        i = i + 1;
    }
    proof {
        assert(x@.take(x@.len() as int) =~= x@);
        assert(y@.take(y@.len() as int) =~= y@);
    }
    true
}

/// Whether `needle` stands in `hay` at index `i`.
pub fn matches_at(hay: &[char], needle: &[char], i: usize) -> (found: bool)
    ensures
        found == occurs_at(hay@, needle@, i as int),
{
    if needle.len() > hay.len() || i > hay.len() - needle.len() {
        return false;
    }
    let mut k: usize = 0;
    while k < needle.len()
        invariant
            k <= needle@.len(),
            i + needle@.len() <= hay@.len() <= usize::MAX,
            hay@.subrange(i as int, i + k) == needle@.take(k as int),
        decreases needle@.len() - k,
    {
        if hay[i + k] != needle[k] {
            proof {
                assert(hay@.subrange(i as int, i + needle@.len())[k as int] == hay@[i + k]);
            }
            return false;
        }
        proof {
            assert(hay@.subrange(i as int, i + k + 1) =~= hay@.subrange(i as int, i + k).push(
                hay@[i + k],
            ));
            assert(needle@.take(k + 1) =~= needle@.take(k as int).push(needle@[k as int]));
        }
        k = k + 1;
    }
    proof {
        assert(needle@.take(needle@.len() as int) =~= needle@);
    }
    true
}

/// The least index at or after `from` at which `needle` stands in `hay`.
pub fn find_in(hay: &[char], needle: &[char], from: usize) -> (at: Option<usize>)
    ensures
        match at {
            Some(i) => find_from(hay@, needle@, from as int) == Some(i as int),
            None => find_from(hay@, needle@, from as int) is None,
        },
{
    if needle.len() > hay.len() {
        return None;
    }
    let last: usize = hay.len() - needle.len();
    let mut i: usize = from;
    while i <= last
        invariant
            from <= i,
            last == hay@.len() - needle@.len(),
            find_from(hay@, needle@, from as int) == find_from(hay@, needle@, i as int),
        decreases last - i,
    {
        if matches_at(hay, needle, i) {
            return Some(i);
        }
        if i == last {
            assert(find_from(hay@, needle@, i + 1) is None);
            return None;
        }
        i = i + 1;
    }
    None
}

/// Whether `hay` begins with `prefix`.
pub fn has_prefix(hay: &[char], prefix: &[char]) -> (found: bool)
    ensures
        found == starts_with(hay@, prefix@),
{
    matches_at(hay, prefix, 0)
}

/// The index of the first `c` at or after `from`, or the length of `hay`.
pub fn find_char_or_len(hay: &[char], from: usize, c: char) -> (at: usize)
    requires
        from <= hay@.len(),
    ensures
        at == from + index_of_or_len(hay@.skip(from as int), c),
        from <= at <= hay@.len(),
{
    let mut i: usize = from;
    while i < hay.len() && hay[i] != c
        invariant
            from <= i <= hay@.len(),
            from + index_of_or_len(hay@.skip(from as int), c) == i + index_of_or_len(
                hay@.skip(i as int),
                c,
            ),
        decreases hay@.len() - i,
    {
        proof {
            assert(hay@.skip(i as int).skip(1) =~= hay@.skip(i + 1));
        }
        i = i + 1;
    }
    i
}

/// Whether `c` has the Unicode property `White_Space`.
pub fn char_is_whitespace(c: char) -> (ws: bool)
    ensures
        ws == is_whitespace(c),
{
    let u: u32 = c as u32;
    (0x09 <= u && u <= 0x0D) || u == 0x20 || u == 0x85 || u == 0xA0 || u == 0x1680 || (0x2000 <= u
        && u <= 0x200A) || u == 0x2028 || u == 0x2029 || u == 0x202F || u == 0x205F || u == 0x3000
}

/// The bounds of `s` without the whitespace at its two ends.
pub fn trim_bounds(s: &[char]) -> (bounds: (usize, usize))
    ensures
        bounds.0 <= bounds.1 <= s@.len(),
        s@.subrange(bounds.0 as int, bounds.1 as int) == trimmed(s@),
{
    let mut start: usize = 0;
    proof {
        assert(s@.skip(0) =~= s@);
    }
    while start < s.len() && char_is_whitespace(s[start])
        invariant
            start <= s@.len(),
            leading_whitespace(s@) == start + leading_whitespace(s@.skip(start as int)),
        decreases s@.len() - start,
    {
        proof {
            assert(s@.skip(start as int).skip(1) =~= s@.skip(start + 1));
        }
        start = start + 1;
    }
    let ghost rest = s@.skip(start as int);
    let mut end: usize = s.len();
    proof {
        assert(rest.take(rest.len() as int) =~= rest);
    }
    while end > start && char_is_whitespace(s[end - 1])
        invariant
            start <= end <= s@.len(),
            rest == s@.skip(start as int),
            trailing_whitespace(rest) == (s@.len() - end) + trailing_whitespace(
                rest.take(end - start),
            ),
        decreases end,
    {
        proof {
            assert(rest.take(end - start).drop_last() =~= rest.take(end - start - 1));
            assert(rest.take(end - start).last() == s@[end - 1]);
        }
        end = end - 1;
    }
    proof {
        if end > start {
            assert(rest.take(end - start).last() == s@[end - 1]);
        }
        assert(s@.subrange(start as int, end as int) =~= rest.take(rest.len() - (s@.len() - end)));
    }
    (start, end)
}

/// Reads the decimal number that `s` writes.
pub fn parse_u64(s: &[char]) -> (value: Option<u64>)
    ensures
        value == parsed_u64(s@),
{
    let first: usize = if s.len() > 0 && s[0] == '+' { 1 } else { 0 };
    let ghost digits = s@.skip(first as int);
    if first == s.len() {
        return None;
    }
    let mut value: u64 = 0;
    let mut i: usize = first;
    proof {
        assert(s@.skip(0) =~= s@);
        assert(digits.take(0) =~= Seq::<char>::empty());
    }
    while i < s.len()
        invariant
            first <= i <= s@.len(),
            digits == s@.skip(first as int),
            digits.len() > 0,
            parsed_u64(s@) == if all_digits(digits) && digits_value(digits) <= u64::MAX {
                Some(digits_value(digits) as u64)
            } else {
                None
            },
            all_digits(digits.take(i - first)),
            value == digits_value(digits.take(i - first)),
        decreases s@.len() - i,
    {
        let c: char = s[i];
        let ghost k = i - first;
        proof {
            assert(digits.take(k + 1).drop_last() =~= digits.take(k));
            assert(digits.take(k + 1).last() == c);
            assert(digits[k] == c);
        }
        if c < '0' || c > '9' {
            assert(!is_digit(digits[k]));
            return None;
        }
        let d: u64 = (c as u32 - '0' as u32) as u64;
        proof {
            lemma_digits_value_prefix(digits, k + 1);
        }
        if value > (u64::MAX - d) / 10 {
            return None;
        }
        value = value * 10 + d;
        proof {
            assert forall|j: int| 0 <= j < digits.take(k + 1).len() implies is_digit(
                #[trigger] digits.take(k + 1)[j],
            ) by {
                if j < k {
                    assert(digits.take(k)[j] == digits.take(k + 1)[j]);
                }
            }
        }
        i = i + 1;
    }
    proof {
        assert(digits.take(digits.len() as int) =~= digits);
    }
    Some(value)
}

/// Reads the decimal number that `s` writes, if a `u32` can hold it.
pub fn parse_u32(s: &[char]) -> (value: Option<u32>)
    ensures
        value == parsed_u32(s@),
{
    match parse_u64(s) {
        Some(v) => if v <= 0xffff_ffff {
            Some(v as u32)
        } else {
            None
        },
        None => None,
    }
}

/// Appends `n` in decimal to `out`.
pub fn push_decimal(out: &mut String, n: u64)
    ensures
        final(out)@ == old(out)@ + decimal(n as nat),
    decreases n,
{
    if n >= 10 {
        push_decimal(out, n / 10);
    }
    let d: u8 = (n % 10) as u8;
    let c: char = (48u8 + d) as char;
    out.push(c);
}

/// Appends `n` in decimal to `out`, with a minus sign if it is negative.
pub fn push_signed_decimal(out: &mut String, n: i64)
    ensures
        final(out)@ == old(out)@ + signed_decimal(n as int),
{
    if n < 0 {
        out.push('-');
        let magnitude: u64 = (-(n + 1)) as u64 + 1;
        push_decimal(out, magnitude);
        proof {
            assert(out@ =~= old(out)@ + (seq!['-'] + decimal((-n) as nat)));
        }
    } else {
        push_decimal(out, n as u64);
    }
}

/// Whether percent-encoding leaves `byte` as it is.
fn byte_is_unreserved(byte: u8) -> (plain: bool)
    ensures
        plain == is_unreserved(byte),
{
    (0x30 <= byte && byte <= 0x39) || (0x41 <= byte && byte <= 0x5A) || (0x61 <= byte && byte
        <= 0x7A) || byte == 0x2D || byte == 0x2E || byte == 0x5F || byte == 0x7E
}

/// The hexadecimal digit of a value below sixteen, in upper case.
fn hex_digit(value: u8) -> (digit: char)
    requires
        value < 16,
    ensures
        digit == upper_hex_digit(value),
{
    if value < 10 {
        (0x30u8 + value) as char
    } else {
        (0x41u8 + value - 10) as char
    }
}

/// The UTF-8 bytes of `text`, percent-encoded: letters, digits, `-`, `.`,
/// `_` and `~` stand for themselves, every other byte becomes `%` and its
/// two hexadecimal digits.
pub fn percent_encode(text: &str) -> (encoded: String)
    ensures
        encoded@ == percent_encoded(encode_utf8(text@)),
{
    let bytes: &[u8] = text.as_bytes();
    let mut encoded: String = String::new();
    let mut i: usize = 0;
    proof {
        assert(bytes@.take(0) =~= Seq::<u8>::empty());
    }
    while i < bytes.len()
        invariant
            i <= bytes@.len(),
            encoded@ == percent_encoded(bytes@.take(i as int)),
        decreases bytes@.len() - i,
    {
        let byte: u8 = bytes[i];
        let ghost before = encoded@;
        proof {
            assert(bytes@.take(i + 1).drop_last() =~= bytes@.take(i as int));
            assert(bytes@.take(i + 1).last() == byte);
        }
        if byte_is_unreserved(byte) {
            encoded.push(byte as char);
            proof {
                assert(encoded@ =~= before + seq![byte as char]);
            }
        } else {
            encoded.push('%');
            encoded.push(hex_digit(byte / 16));
            encoded.push(hex_digit(byte % 16));
            proof {
                assert(encoded@ =~= before + seq![
                    '%',
                    upper_hex_digit(byte / 16),
                    upper_hex_digit(byte % 16),
                ]);
            }
        }
        i = i + 1;
    }
    proof {
        assert(bytes@.take(bytes@.len() as int) =~= bytes@);
    }
    encoded
}

} // verus!
