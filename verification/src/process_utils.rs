//! Reading what the tools that list processes print, and counting what
//! came of lifting the guards against a second instance.

use vstd::prelude::*;
use vstd::slice::slice_subrange;
use crate::text::{up_to, trimmed, parsed_u32, is_whitespace, chars_of, string_of,
    find_char_or_len, trim_bounds, parse_u32, char_is_whitespace};

verus! {

/// A running process.
#[derive(Debug, Clone)]
pub struct ProcessInfo {
    pub pid: u32,
    pub name: String,
}

/// A process as mathematics sees it.
pub struct ProcessInfoView {
    pub pid: u32,
    pub name: Seq<char>,
}

impl View for ProcessInfo {
    type V = ProcessInfoView;

    open spec fn view(&self) -> ProcessInfoView {
        ProcessInfoView { pid: self.pid, name: self.name@ }
    }
}

/// The processes of a list, each as its view.
pub open spec fn process_views(processes: Seq<ProcessInfo>) -> Seq<ProcessInfoView> {
    Seq::new(processes.len(), |i: int| processes[i]@)
}

/// The process id that a line holds: the line, whitespace at its ends
/// apart, is a number.
pub open spec fn pid_of_line(line: Seq<char>) -> Option<u32> {
    parsed_u32(trimmed(line))
}

/// The process ids in a text that holds one to a line. A line that is not
/// a number is passed over.
pub open spec fn pids_in(text: Seq<char>) -> Seq<u32>
    decreases text.len(),
{
    let line = up_to(text, '\n');
    let here = match pid_of_line(line) {
        Some(pid) => seq![pid],
        None => Seq::empty(),
    };
    if line.len() < text.len() {
        here + pids_in(text.skip(line.len() as int + 1))
    } else {
        here
    }
}

/// Number of characters of `s` before its first whitespace.
pub open spec fn word_len(s: Seq<char>) -> nat
    decreases s.len(),
{
    if s.len() > 0 && !is_whitespace(s[0]) {
        1 + word_len(s.skip(1))
    } else {
        0
    }
}

/// Number of whitespace characters that `s` begins with.
pub open spec fn gap_len(s: Seq<char>) -> nat
    decreases s.len(),
{
    if s.len() > 0 && is_whitespace(s[0]) {
        1 + gap_len(s.skip(1))
    } else {
        0
    }
}

/// The words of `s`, joined by single spaces: `s` with the whitespace at
/// its ends dropped and every other run of whitespace turned into one space.
pub open spec fn single_spaced(s: Seq<char>) -> Seq<char>
    decreases s.len(),
{
    if s.len() == 0 {
        Seq::empty()
    } else if is_whitespace(s[0]) {
        single_spaced(s.skip(1))
    } else if s.len() > 1 && is_whitespace(s[1]) {
        let more = single_spaced(s.skip(1));
        if more.len() == 0 {
            seq![s[0]]
        } else {
            seq![s[0], ' '] + more
        }
    } else {
        seq![s[0]] + single_spaced(s.skip(1))
    }
}

/// Whitespace at the start does not count.
proof fn lemma_single_spaced_gap(s: Seq<char>)
    ensures
        gap_len(s) <= s.len(),
        gap_len(s.skip(gap_len(s) as int)) == 0,
        single_spaced(s) == single_spaced(s.skip(gap_len(s) as int)),
    decreases s.len(),
{
    if s.len() > 0 && is_whitespace(s[0]) {
        lemma_single_spaced_gap(s.skip(1));
        assert(s.skip(1).skip(gap_len(s.skip(1)) as int) =~= s.skip(gap_len(s) as int));
    } else {
        assert(s.skip(0) =~= s);
    }
}

/// A text that begins with a word is single-spaced as that word, followed
/// by a space and the rest single-spaced if there is more.
proof fn lemma_single_spaced_word(s: Seq<char>)
    requires
        word_len(s) > 0,
    ensures
        word_len(s) <= s.len(),
        single_spaced(s) == {
            let word = s.take(word_len(s) as int);
            let more = single_spaced(s.skip(word_len(s) as int));
            if more.len() == 0 {
                word
            } else {
                word + seq![' '] + more
            }
        },
    decreases s.len(),
{
    let rest = s.skip(1);
    let n = word_len(s);
    if n == 1 {
        assert(s.take(1) =~= seq![s[0]]);
        if rest.len() > 0 {
            assert(rest[0] == s[1]);
        }
        let more = single_spaced(rest);
        if s.len() > 1 && is_whitespace(s[1]) {
            assert(seq![s[0], ' '] + more =~= seq![s[0]] + seq![' '] + more);
        } else {
            assert(rest.len() == 0);
            assert(seq![s[0]] + more =~= seq![s[0]]);
        }
    } else {
        assert(word_len(rest) == n - 1);
        assert(rest.len() > 0);
        assert(rest[0] == s[1]);
        lemma_single_spaced_word(rest);
        let word = s.take(n as int);
        let rest_word = rest.take(word_len(rest) as int);
        assert(word =~= seq![s[0]] + rest_word);
        assert(rest.skip(word_len(rest) as int) =~= s.skip(n as int));
        let more = single_spaced(s.skip(n as int));
        if more.len() == 0 {
        } else {
            assert(seq![s[0]] + (rest_word + seq![' '] + more) =~= word + seq![' '] + more);
        }
    }
}

/// The process that a line of a listing names: its first word is the
/// process id, what follows is the name, single-spaced.
pub open spec fn process_of_line(line: Seq<char>) -> Option<ProcessInfoView> {
    let rest = line.skip(gap_len(line) as int);
    let word = rest.take(word_len(rest) as int);
    if word.len() == 0 {
        None
    } else {
        match parsed_u32(word) {
            Some(pid) => Some(
                ProcessInfoView { pid, name: single_spaced(rest.skip(word_len(rest) as int)) },
            ),
            None => None,
        }
    }
}

/// The processes in a listing that holds one to a line. A line that does
/// not begin with a number is passed over.
pub open spec fn processes_in(text: Seq<char>) -> Seq<ProcessInfoView>
    decreases text.len(),
{
    let line = up_to(text, '\n');
    let here = match process_of_line(line) {
        Some(process) => seq![process],
        None => Seq::empty(),
    };
    if line.len() < text.len() {
        here + processes_in(text.skip(line.len() as int + 1))
    } else {
        here
    }
}

/// Number of attempts among `outcomes` that lifted a guard: those that
/// ended in `Ok(true)`.
pub open spec fn lifted(outcomes: Seq<Result<bool, String>>) -> nat
    decreases outcomes.len(),
{
    if outcomes.len() == 0 {
        0
    } else {
        lifted(outcomes.drop_last()) + if outcomes.last() == Ok::<bool, String>(true) {
            1nat
        } else {
            0nat
        }
    }
}

/// What comes of lifting, in every running instance of the game, the guard
/// against a second instance: `outcomes` holds, for each running instance,
/// whether its guard was found and lifted, or why the attempt failed. With
/// no instance running there is nothing to lift, which is `None`; else the
/// answer is the number of guards lifted.
pub fn bypass_singleton_mutex(outcomes: &[Result<bool, String>]) -> (closed: Option<u32>)
    requires
        outcomes@.len() <= u32::MAX,
    ensures
        closed == if outcomes@.len() == 0 {
            None
        } else {
            Some(lifted(outcomes@) as u32)
        },
{
    if outcomes.len() == 0 {
        return None;
    }
    let mut count: u32 = 0;
    let mut i: usize = 0;
    proof {
        assert(outcomes@.take(0) =~= Seq::<Result<bool, String>>::empty());
    }
    while i < outcomes.len()
        invariant
            i <= outcomes@.len() <= u32::MAX,
            count == lifted(outcomes@.take(i as int)),
            count <= i,
        decreases outcomes@.len() - i,
    {
        proof {
            assert(outcomes@.take(i + 1).drop_last() =~= outcomes@.take(i as int));
            assert(outcomes@.take(i + 1).last() == outcomes@[i as int]);
        }
        match &outcomes[i] {
            Ok(true) => {
                count = count + 1;
            },
            _ => {},
        }
        i = i + 1;
    }
    proof {
        assert(outcomes@.take(outcomes@.len() as int) =~= outcomes@);
    }
    Some(count)
}

/// Reads the process ids out of a text that holds one to a line.
pub fn parse_pids(output: &str) -> (pids: Vec<u32>)
    ensures
        pids@ == pids_in(output@),
{
    let text: Vec<char> = chars_of(output);
    let mut pids: Vec<u32> = Vec::new();
    let mut start: usize = 0;
    proof {
        assert(text@.skip(0) =~= text@);
    }
    loop
        invariant
            start <= text@.len(),
            text@ == output@,
            pids_in(output@) == pids@ + pids_in(text@.skip(start as int)),
        decreases text@.len() - start,
    {
        let end: usize = find_char_or_len(text.as_slice(), start, '\n');
        let line: &[char] = slice_subrange(text.as_slice(), start, end);
        let ghost rest = text@.skip(start as int);
        proof {
            assert(line@ =~= up_to(rest, '\n'));
        }
        let (from, to) = trim_bounds(line);
        match parse_u32(slice_subrange(line, from, to)) {
            Some(pid) => {
                pids.push(pid);
            },
            None => {},
        }
        if end == text.len() {
            proof {
                assert(pids_in(rest) =~= match pid_of_line(line@) {
                    Some(pid) => seq![pid],
                    None => Seq::empty(),
                });
            }
            return pids;
        }
        proof {
            assert(rest.skip(line@.len() as int + 1) =~= text@.skip(end + 1));
        }
        start = end + 1;
    }
}

/// The index of the first character at or after `from` that is whitespace,
/// or the length of `s`.
fn word_end(s: &[char], from: usize) -> (end: usize)
    requires
        from <= s@.len(),
    ensures
        end == from + word_len(s@.skip(from as int)),
        from <= end <= s@.len(),
{
    let mut i: usize = from;
    while i < s.len() && !char_is_whitespace(s[i])
        invariant
            from <= i <= s@.len(),
            from + word_len(s@.skip(from as int)) == i + word_len(s@.skip(i as int)),
        decreases s@.len() - i,
    {
        proof {
            assert(s@.skip(i as int).skip(1) =~= s@.skip(i + 1));
        }
        i = i + 1;
    }
    i
}

/// The index of the first character at or after `from` that is not
/// whitespace, or the length of `s`.
fn gap_end(s: &[char], from: usize) -> (end: usize)
    requires
        from <= s@.len(),
    ensures
        end == from + gap_len(s@.skip(from as int)),
        from <= end <= s@.len(),
{
    let mut i: usize = from;
    while i < s.len() && char_is_whitespace(s[i])
        invariant
            from <= i <= s@.len(),
            from + gap_len(s@.skip(from as int)) == i + gap_len(s@.skip(i as int)),
        decreases s@.len() - i,
    {
        proof {
            assert(s@.skip(i as int).skip(1) =~= s@.skip(i + 1));
        }
        i = i + 1;
    }
    i
}

/// The words of `s` from `from` on, joined by single spaces.
fn single_space(s: &[char], from: usize) -> (out: Vec<char>)
    requires
        from <= s@.len(),
    ensures
        out@ == single_spaced(s@.skip(from as int)),
    decreases s@.len() - from,
{
    let start: usize = gap_end(s, from);
    let end: usize = word_end(s, start);
    let ghost tail = s@.skip(from as int);
    let ghost rest = s@.skip(start as int);
    proof {
        lemma_single_spaced_gap(tail);
        assert(tail.skip(gap_len(tail) as int) =~= rest);
        assert(rest.take(word_len(rest) as int) =~= s@.subrange(start as int, end as int));
        assert(rest.skip(word_len(rest) as int) =~= s@.skip(end as int));
    }
    if end == start {
        proof {
            assert(rest.len() == 0);
        }
        return Vec::new();
    }
    proof {
        lemma_single_spaced_word(rest);
    }
    let mut out: Vec<char> = Vec::new();
    let mut i: usize = start;
    while i < end
        invariant
            start <= i <= end <= s@.len(),
            out@ == s@.subrange(start as int, i as int),
        decreases end - i,
    {
        out.push(s[i]);
        proof {
            assert(s@.subrange(start as int, i + 1) =~= s@.subrange(start as int, i as int).push(
                s@[i as int],
            ));
        }
        i = i + 1;
    }
    let more: Vec<char> = single_space(s, end);
    if more.len() > 0 {
        let ghost word = out@;
        out.push(' ');
        let mut k: usize = 0;
        while k < more.len()
            invariant
                k <= more@.len(),
                out@ == word + seq![' '] + more@.take(k as int),
            decreases more@.len() - k,
        {
            out.push(more[k]);
            proof {
                assert(more@.take(k + 1) =~= more@.take(k as int).push(more@[k as int]));
            }
            k = k + 1;
        }
        proof {
            assert(more@.take(more@.len() as int) =~= more@);
        }
    }
    out
}

/// Reads the process that a line of a listing names.
fn parse_process(line: &[char]) -> (process: Option<ProcessInfo>)
    ensures
        match process {
            Some(p) => process_of_line(line@) == Some(p@),
            None => process_of_line(line@) is None,
        },
{
    let start: usize = gap_end(line, 0);
    let end: usize = word_end(line, start);
    let ghost rest = line@.skip(gap_len(line@) as int);
    proof {
        assert(line@.skip(0) =~= line@);
        assert(rest =~= line@.skip(start as int));
        assert(rest.take(word_len(rest) as int) =~= line@.subrange(start as int, end as int));
        assert(rest.skip(word_len(rest) as int) =~= line@.skip(end as int));
    }
    if end == start {
        return None;
    }
    match parse_u32(slice_subrange(line, start, end)) {
        None => None,
        Some(pid) => {
            let name: Vec<char> = single_space(line, end);
            Some(ProcessInfo { pid, name: string_of(name.as_slice()) })
        },
    }
}

/// Reads the processes out of a listing that holds one to a line: a process
/// id, whitespace, and the name or command line of the process.
pub fn parse_process_list(output: &str) -> (processes: Vec<ProcessInfo>)
    ensures
        process_views(processes@) == processes_in(output@),
{
    let text: Vec<char> = chars_of(output);
    let mut processes: Vec<ProcessInfo> = Vec::new();
    let mut start: usize = 0;
    proof {
        assert(text@.skip(0) =~= text@);
        assert(process_views(processes@) =~= Seq::<ProcessInfoView>::empty());
    }
    loop
        invariant
            start <= text@.len(),
            text@ == output@,
            processes_in(output@) == process_views(processes@) + processes_in(
                text@.skip(start as int),
            ),
        decreases text@.len() - start,
    {
        let end: usize = find_char_or_len(text.as_slice(), start, '\n');
        let line: &[char] = slice_subrange(text.as_slice(), start, end);
        let ghost rest = text@.skip(start as int);
        let ghost before = process_views(processes@);
        proof {
            assert(line@ =~= up_to(rest, '\n'));
        }
        match parse_process(line) {
            Some(process) => {
                processes.push(process);
                proof {
                    assert(process_views(processes@) =~= before.push(process@));
                }
            },
            None => {},
        }
        if end == text.len() {
            proof {
                assert(processes_in(rest) =~= match process_of_line(line@) {
                    Some(p) => seq![p],
                    None => Seq::empty(),
                });
            }
            return processes;
        }
        proof {
            assert(rest.skip(line@.len() as int + 1) =~= text@.skip(end + 1));
        }
        start = end + 1;
    }
}

} // verus!
