//! Text primitives shared by the record encoders and the list parsers.

use vstd::prelude::*;

verus! {

/// `String::push` of the standard library: the character is appended at the
/// end and nothing else changes.
pub assume_specification[ String::push ](s: &mut String, c: char)
    ensures
        final(s)@ == old(s)@.push(c),
;

/// The character that stands for one decimal digit.
pub open spec fn digit_char(d: nat) -> char
    recommends
        d < 10,
{
    (('0' as u8) + (d as u8)) as char
}

/// The decimal numeral of `n`, most significant digit first, without
/// leading zeros (`0` is written as a single digit).
pub open spec fn decimal(n: nat) -> Seq<char>
    decreases n,
{
    if n < 10 {
        seq![digit_char(n)]
    } else {
        decimal(n / 10).push(digit_char(n % 10))
    }
}

/// Appends the decimal numeral of `n` to `out`.
pub fn push_decimal(out: &mut String, n: u128)
    ensures
        final(out)@ == old(out)@ + decimal(n as nat),
    decreases n,
{
    if n >= 10 {
        push_decimal(out, n / 10);
    }
    let d: u8 = (n % 10) as u8;
    let c: char = (48u8 + d) as char;
    out.push(c);
    assert(c == digit_char((n % 10) as nat));
    assert(out@ =~= old(out)@ + decimal(n as nat));
}

/// No character of `s` is a line feed.
pub open spec fn has_no_newline(s: Seq<char>) -> bool {
    forall|i: int| 0 <= i < s.len() ==> s[i] != '\n'
}

/// `s` can stand as one line of a line-delimited stream and be read back
/// unchanged: it holds no line feed and does not end in a carriage return.
pub open spec fn is_line(s: Seq<char>) -> bool {
    has_no_newline(s) && !(s.len() > 0 && s.last() == '\r')
}

/// The position of the first line feed of `s`, or the length of `s` where it
/// holds none.
pub open spec fn first_break(s: Seq<char>) -> int
    decreases s.len(),
{
    if s.len() == 0 || s[0] == '\n' {
        0
    } else {
        1 + first_break(s.skip(1))
    }
}

/// A line without the carriage return that may precede its line feed.
pub open spec fn without_trailing_cr(line: Seq<char>) -> Seq<char> {
    if line.len() > 0 && line.last() == '\r' {
        line.drop_last()
    } else {
        line
    }
}

/// The lines of a text. A line ends at a line feed, or at a carriage return
/// directly followed by one; neither is part of the line. The last line need
/// not be terminated, and an empty remainder after the last terminator is no
/// line.
pub open spec fn lines_of(s: Seq<char>) -> Seq<Seq<char>>
    decreases s.len(),
{
    let k = first_break(s);
    if s.len() == 0 {
        Seq::empty()
    } else if 0 <= k < s.len() {
        seq![without_trailing_cr(s.take(k))] + lines_of(s.skip(k + 1))
    } else {
        seq![s]
    }
}

/// The text in which every one of `lines` is followed by a line feed.
pub open spec fn terminated(lines: Seq<Seq<char>>) -> Seq<char>
    decreases lines.len(),
{
    if lines.len() == 0 {
        Seq::empty()
    } else {
        terminated(lines.drop_last()) + lines.last().push('\n')
    }
}

/// The first line feed of `s` is at `k` if none comes before `k` and one is
/// at `k`, or `s` ends there.
pub proof fn lemma_first_break(s: Seq<char>, k: int)
    requires
        0 <= k <= s.len(),
        forall|j: int| 0 <= j < k ==> s[j] != '\n',
        k == s.len() || s[k] == '\n',
    ensures
        first_break(s) == k,
    decreases k,
{
    if k > 0 {
        lemma_first_break(s.skip(1), k - 1);
    }
}

/// A line feed splits a text into the line before it and the lines after it.
pub proof fn lemma_lines_after_line(line: Seq<char>, rest: Seq<char>)
    requires
        has_no_newline(line),
    ensures
        lines_of(line.push('\n') + rest) == seq![without_trailing_cr(line)] + lines_of(rest),
{
    let s = line.push('\n') + rest;
    let k = line.len() as int;
    lemma_first_break(s, k);
    assert(s.take(k) =~= line);
    assert(s.skip(k + 1) =~= rest);
}

/// Terminating the lines of two lists and joining the texts is the same as
/// terminating the joined list.
pub proof fn lemma_terminated_concat(first: Seq<Seq<char>>, second: Seq<Seq<char>>)
    ensures
        terminated(first + second) == terminated(first) + terminated(second),
    decreases second.len(),
{
    if second.len() == 0 {
        assert(first + second =~= first);
        assert(terminated(first) + terminated(second) =~= terminated(first));
    } else {
        let whole = first + second;
        assert(whole.drop_last() =~= first + second.drop_last());
        assert(whole.last() == second.last());
        lemma_terminated_concat(first, second.drop_last());
        assert(terminated(whole) =~= terminated(first) + terminated(second));
    }
}

/// A text made of terminated lines, followed by anything, reads back as
/// those lines followed by the lines of what follows.
pub proof fn lemma_lines_of_terminated(lines: Seq<Seq<char>>, rest: Seq<char>)
    requires
        forall|i: int| 0 <= i < lines.len() ==> is_line(#[trigger] lines[i]),
    ensures
        lines_of(terminated(lines) + rest) == lines + lines_of(rest),
    decreases lines.len(),
{
    if lines.len() == 0 {
        assert(terminated(lines) + rest =~= rest);
        assert(lines + lines_of(rest) =~= lines_of(rest));
    } else {
        let head = lines[0];
        let tail = lines.skip(1);
        assert(lines =~= seq![head] + tail);
        lemma_terminated_concat(seq![head], tail);
        assert(seq![head].drop_last() =~= Seq::<Seq<char>>::empty());
        assert(terminated(Seq::<Seq<char>>::empty()) =~= Seq::<char>::empty());
        assert(terminated(seq![head]) =~= head.push('\n'));
        assert(terminated(lines) + rest =~= head.push('\n') + (terminated(tail) + rest));
        lemma_lines_after_line(head, terminated(tail) + rest);
        assert forall|i: int| 0 <= i < tail.len() implies is_line(#[trigger] tail[i]) by {
            assert(tail[i] == lines[i + 1]);
        }
        lemma_lines_of_terminated(tail, rest);
        assert(seq![head] + (tail + lines_of(rest)) =~= lines + lines_of(rest));
    }
}

/// Every line of a line-delimited stream can be read on its own: a stream of
/// terminated lines reads back as exactly those lines, and two streams
/// written one after the other read back as the lines of the first followed
/// by the lines of the second.
pub proof fn lemma_streams_read_back(first: Seq<Seq<char>>, second: Seq<Seq<char>>)
    requires
        forall|i: int| 0 <= i < first.len() ==> is_line(#[trigger] first[i]),
        forall|i: int| 0 <= i < second.len() ==> is_line(#[trigger] second[i]),
    ensures
        lines_of(terminated(first)) == first,
        lines_of(terminated(second)) == second,
        lines_of(terminated(first) + terminated(second)) == first + second,
{
    let none = Seq::<char>::empty();
    lemma_lines_of_terminated(first, none);
    lemma_lines_of_terminated(second, none);
    assert(terminated(first) + none =~= terminated(first));
    assert(terminated(second) + none =~= terminated(second));
    assert(first + lines_of(none) =~= first);
    assert(second + lines_of(none) =~= second);
    lemma_lines_of_terminated(first, terminated(second));
}

/// The texts held by a sequence of strings.
pub open spec fn texts(strings: Seq<String>) -> Seq<Seq<char>> {
    strings.map_values(|s: String| s@)
}

/// Splits a text into its lines.
pub fn split_lines(text: &str) -> (lines: Vec<String>)
    ensures
        texts(lines@) == lines_of(text@),
{
    let mut lines: Vec<String> = Vec::new();
    let mut current = String::new();
    let mut pending_cr = false;
    let mut open = false;
    let ghost mut start: int = 0;
    assert(text@.skip(0) =~= text@);
    assert(texts(lines@) + lines_of(text@) =~= lines_of(text@));
    for c in it: text.chars()
        invariant
            it.seq() == text@,
            0 <= start <= it.index() <= text@.len(),
            open == (start < it.index()),
            has_no_newline(text@.subrange(start, it.index() as int)),
            current@ + (if pending_cr {
                seq!['\r']
            } else {
                Seq::empty()
            }) == text@.subrange(start, it.index() as int),
            !pending_cr ==> !(current@.len() > 0 && current@.last() == '\r'),
            lines_of(text@) == texts(lines@) + lines_of(text@.skip(start)),
    {
        let ghost i = it.index() as int;
        let ghost seen = text@.subrange(start, i);
        assert(text@.subrange(start, i + 1) =~= seen.push(c));
        if c == '\n' {
            proof {
                let tail = text@.skip(start);
                assert(tail =~= seen.push('\n') + text@.skip(i + 1));
                lemma_lines_after_line(seen, text@.skip(i + 1));
                if pending_cr {
                    assert(seen.drop_last() =~= current@);
                }
                assert(without_trailing_cr(seen) == current@);
                assert(texts(lines@.push(current)) =~= texts(lines@).push(current@));
                assert(texts(lines@).push(current@) + lines_of(text@.skip(i + 1)) =~= texts(lines@)
                    + (seq![current@] + lines_of(text@.skip(i + 1))));
                start = i + 1;
                assert(text@.subrange(start, i + 1) =~= Seq::<char>::empty());
            }
            lines.push(current);
            current = String::new();
            pending_cr = false;
            open = false;
        } else {
            if pending_cr {
                current.push('\r');
            }
            if c == '\r' {
                pending_cr = true;
            } else {
                current.push(c);
                pending_cr = false;
            }
            open = true;
        }
    }
    if open {
        let ghost unfinished = current@;
        if pending_cr {
            current.push('\r');
            assert(current@ =~= unfinished + seq!['\r']);
        } else {
            assert(current@ =~= unfinished + Seq::<char>::empty());
        }
        proof {
            let tail = text@.skip(start);
            assert(tail =~= text@.subrange(start, text@.len() as int));
            assert(current@ == tail);
            lemma_first_break(tail, tail.len() as int);
            assert(lines_of(tail) =~= seq![tail]);
            assert(texts(lines@.push(current)) =~= texts(lines@) + seq![tail]);
        }
        lines.push(current);
    } else {
        assert(text@.skip(start) =~= Seq::<char>::empty());
        assert(texts(lines@) + lines_of(text@.skip(start)) =~= texts(lines@));
    }
    lines
}

} // verus!
