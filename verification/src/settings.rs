//! The settings file of the service: one `NAME=value` entry per line.

use vstd::prelude::*;

verus! {

/// The line feed byte.
pub const LINE_FEED: u8 = 10;

/// The carriage return byte.
pub const CARRIAGE_RETURN: u8 = 13;

/// The byte that parts a name from its value.
pub const EQUALS: u8 = 61;

/// A line without the carriage return that ended it before its line feed.
pub open spec fn without_cr(line: Seq<u8>) -> Seq<u8> {
    if line.len() > 0 && line.last() == CARRIAGE_RETURN {
        line.drop_last()
    } else {
        line
    }
}

/// The lines of `t` from position `pos` on, where the current line began at
/// `line_start`: lines end at a line feed or a carriage return and line feed,
/// and the last line needs no ending.
pub open spec fn lines_scan(t: Seq<u8>, line_start: int, pos: int) -> Seq<Seq<u8>>
    decreases t.len() - pos,
{
    if pos >= t.len() {
        if line_start < t.len() {
            seq![t.subrange(line_start, t.len() as int)]
        } else {
            Seq::empty()
        }
    } else if t[pos] == LINE_FEED {
        seq![without_cr(t.subrange(line_start, pos))] + lines_scan(t, pos + 1, pos + 1)
    } else {
        lines_scan(t, line_start, pos + 1)
    }
}

/// The lines of a text.
pub open spec fn text_lines(t: Seq<u8>) -> Seq<Seq<u8>> {
    lines_scan(t, 0, 0)
}

/// The position of the first `=` of the line at or after `i`, or the line's length.
pub open spec fn first_equals(line: Seq<u8>, i: int) -> int
    decreases line.len() - i,
{
    if i >= line.len() {
        line.len() as int
    } else if line[i] == EQUALS {
        i
    } else {
        first_equals(line, i + 1)
    }
}

/// The position of the last `=` among the first `n` bytes of the line, or -1.
pub open spec fn last_equals(line: Seq<u8>, n: int) -> int
    decreases n,
{
    if n <= 0 {
        -1
    } else if line[n - 1] == EQUALS {
        n - 1
    } else {
        last_equals(line, n - 1)
    }
}

/// The name of an entry: the line up to its first `=` (the whole line without one).
pub open spec fn entry_name(line: Seq<u8>) -> Seq<u8> {
    line.take(first_equals(line, 0))
}

/// The value of an entry: the line after its last `=` (the whole line without one).
pub open spec fn entry_value(line: Seq<u8>) -> Seq<u8> {
    line.skip(last_equals(line, line.len() as int) + 1)
}

proof fn lemma_first_equals_bounds(line: Seq<u8>, i: int)
    requires
        0 <= i <= line.len(),
    ensures
        i <= first_equals(line, i) <= line.len(),
    decreases line.len() - i,
{
    if i < line.len() && line[i] != EQUALS {
        lemma_first_equals_bounds(line, i + 1);
    }
}

proof fn lemma_last_equals_bounds(line: Seq<u8>, n: int)
    requires
        0 <= n <= line.len(),
    ensures
        -1 <= last_equals(line, n) < n,
    decreases n,
{
    if n > 0 && line[n - 1] != EQUALS {
        lemma_last_equals_bounds(line, n - 1);
    }
}

proof fn lemma_first_equals_found(line: Seq<u8>, i: int)
    requires
        0 <= i <= line.len(),
    ensures
        forall|j: int| i <= j < first_equals(line, i) ==> #[trigger] line[j] != EQUALS,
        first_equals(line, i) < line.len() ==> line[first_equals(line, i)] == EQUALS,
    decreases line.len() - i,
{
    if i < line.len() && line[i] != EQUALS {
        lemma_first_equals_found(line, i + 1);
    }
}

proof fn lemma_last_equals_found(line: Seq<u8>, n: int)
    requires
        0 <= n <= line.len(),
    ensures
        forall|j: int| last_equals(line, n) < j < n ==> #[trigger] line[j] != EQUALS,
        last_equals(line, n) >= 0 ==> line[last_equals(line, n)] == EQUALS,
    decreases n,
{
    if n > 0 && line[n - 1] != EQUALS {
        lemma_last_equals_found(line, n - 1);
    }
}

/// A line reads as a name and a value: the name is the beginning of the line
/// up to the first `=` (the whole line without one) and holds no `=`; the value
/// is the end of the line after the last `=` (the whole line without one) and
/// holds no `=`.
pub proof fn lemma_entry_parts(line: Seq<u8>)
    ensures
        entry_name(line).len() <= line.len(),
        forall|i: int| 0 <= i < entry_name(line).len() ==> #[trigger] entry_name(line)[i] == line[i]
            && line[i] != EQUALS,
        entry_name(line).len() < line.len() ==> line[entry_name(line).len() as int] == EQUALS,
        entry_value(line).len() <= line.len(),
        forall|i: int|
            0 <= i < entry_value(line).len() ==> #[trigger] entry_value(line)[i] == line[line.len()
                - entry_value(line).len() + i] && entry_value(line)[i] != EQUALS,
        entry_value(line).len() < line.len() ==> line[line.len() - entry_value(line).len() - 1]
            == EQUALS,
{
    lemma_first_equals_bounds(line, 0);
    lemma_first_equals_found(line, 0);
    lemma_last_equals_bounds(line, line.len() as int);
    lemma_last_equals_found(line, line.len() as int);
}

/// The bytes of `t` from `start` up to `end`.
fn copy_range(t: &[u8], start: usize, end: usize) -> (res: Vec<u8>)
    requires
        start <= end <= t@.len(),
    ensures
        res@ == t@.subrange(start as int, end as int),
{
    let mut out: Vec<u8> = Vec::new();
    let mut i: usize = start;
    while i < end
        invariant
            start <= i <= end <= t@.len(),
            out@ == t@.subrange(start as int, i as int),
        decreases end - i,
    {
        out.push(t[i]);
        proof {
            assert(t@.subrange(start as int, i as int + 1) =~= t@.subrange(start as int, i as int).push(
                t@[i as int],
            ));
        }
        i = i + 1;
    }
    out
}

/// The name and value of one line (see `entry_name` and `entry_value`).
pub fn line_entry(line: &[u8]) -> (res: (Vec<u8>, Vec<u8>))
    ensures
        res.0@ == entry_name(line@),
        res.1@ == entry_value(line@),
{
    let mut first: usize = 0;
    while first < line.len() && line[first] != EQUALS
        invariant
            first <= line@.len(),
            first_equals(line@, 0) == first_equals(line@, first as int),
        decreases line@.len() - first,
    {
        first = first + 1;
    }
    let mut after_last: usize = line.len();
    while after_last > 0 && line[after_last - 1] != EQUALS
        invariant
            after_last <= line@.len(),
            last_equals(line@, line@.len() as int) == last_equals(line@, after_last as int),
        decreases after_last,
    {
        after_last = after_last - 1;
    }
    proof {
        lemma_first_equals_bounds(line@, first as int);
    }
    let name = copy_range(line, 0, first);
    let value = copy_range(line, after_last, line.len());
    proof {
        assert(line@.subrange(0, first as int) =~= line@.take(first as int));
        assert(line@.subrange(after_last as int, line@.len() as int) =~= line@.skip(
            last_equals(line@, line@.len() as int) + 1,
        ));
    }
    (name, value)
}

/// The name and value of every line of a settings text, in order.
pub fn settings_entries(text: &[u8]) -> (res: Vec<(Vec<u8>, Vec<u8>)>)
    ensures
        res@.len() == text_lines(text@).len(),
        forall|i: int|
            0 <= i < res@.len() ==> (#[trigger] res@[i]).0@ == entry_name(text_lines(text@)[i])
                && res@[i].1@ == entry_value(text_lines(text@)[i]),
{
    let mut out: Vec<(Vec<u8>, Vec<u8>)> = Vec::new();
    let ghost mut done: Seq<Seq<u8>> = Seq::empty();
    let mut line_start: usize = 0;
    let mut pos: usize = 0;
    while pos < text.len()
        invariant
            line_start <= pos <= text@.len(),
            text_lines(text@) == done + lines_scan(text@, line_start as int, pos as int),
            out@.len() == done.len(),
            forall|i: int|
                0 <= i < out@.len() ==> (#[trigger] out@[i]).0@ == entry_name(done[i])
                    && out@[i].1@ == entry_value(done[i]),
        decreases text@.len() - pos,
    {
        if text[pos] == LINE_FEED {
            let mut end = pos;
            if end > line_start && text[end - 1] == CARRIAGE_RETURN {
                end = end - 1;
            }
            let line = copy_range(text, line_start, end);
            proof {
                let full = text@.subrange(line_start as int, pos as int);
                assert(line@ =~= without_cr(full));
                assert(done + lines_scan(text@, line_start as int, pos as int) =~= done.push(
                    without_cr(full),
                ) + lines_scan(text@, pos + 1, pos + 1));
                done = done.push(without_cr(full));
            }
            let entry = line_entry(line.as_slice());
            out.push(entry);
            line_start = pos + 1;
        }
        pos = pos + 1;
    }
    if line_start < text.len() {
        let line = copy_range(text, line_start, text.len());
        proof {
            assert(done + lines_scan(text@, line_start as int, pos as int) =~= done.push(line@));
            done = done.push(line@);
        }
        let entry = line_entry(line.as_slice());
        out.push(entry);
    } else {
        proof {
            assert(done + lines_scan(text@, line_start as int, pos as int) =~= done);
        }
    }
    out
}

} // verus!
