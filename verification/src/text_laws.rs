//! What holds of trimming and of lines.

use crate::text::{
    decimal, has_part, is_white_space, lemma_line_end, line_end, lines_from, opt_text, stands_at,
    text_lines, texts, trim_end, trim_start, trimmed, without_return,
};
use vstd::prelude::*;

verus! {

/// Whether a text neither begins nor ends with white space.
pub open spec fn has_clean_ends(text: Seq<char>) -> bool {
    text.len() > 0 ==> !is_white_space(text.first()) && !is_white_space(text.last())
}

/// Whether a text is white space from `from` up to, not including, `to`.
pub open spec fn all_white(text: Seq<char>, from: int, to: int) -> bool {
    forall|i: int| from <= i < to ==> is_white_space(#[trigger] text[i])
}

proof fn lemma_trim_start(text: Seq<char>)
    ensures
        trim_start(text).len() > 0 ==> !is_white_space(trim_start(text).first()),
        exists|n: int|
            0 <= n <= text.len() && trim_start(text) == #[trigger] text.skip(n) && all_white(
                text,
                0,
                n,
            ),
    decreases text.len(),
{
    if text.len() > 0 && is_white_space(text.first()) {
        lemma_trim_start(text.drop_first());
        let n = choose|n: int|
            0 <= n <= text.drop_first().len() && trim_start(text.drop_first())
                == #[trigger] text.drop_first().skip(n) && all_white(text.drop_first(), 0, n);
        assert(text.drop_first().skip(n) =~= text.skip(n + 1));
        assert forall|i: int| 0 <= i < n + 1 implies is_white_space(#[trigger] text[i]) by {
            if i > 0 {
                assert(text[i] == text.drop_first()[i - 1]);
            }
        }
    } else {
        assert(text.skip(0) =~= text);
    }
}

proof fn lemma_trim_end(text: Seq<char>)
    ensures
        trim_end(text).len() > 0 ==> !is_white_space(trim_end(text).last()),
        trim_end(text).len() > 0 ==> trim_end(text).first() == text.first(),
        exists|n: int|
            0 <= n <= text.len() && trim_end(text) == #[trigger] text.take(n) && all_white(
                text,
                n,
                text.len() as int,
            ),
    decreases text.len(),
{
    if text.len() > 0 && is_white_space(text.last()) {
        lemma_trim_end(text.drop_last());
        let n = choose|n: int|
            0 <= n <= text.drop_last().len() && trim_end(text.drop_last())
                == #[trigger] text.drop_last().take(n) && all_white(
                text.drop_last(),
                n,
                text.len() - 1,
            );
        assert(text.drop_last().take(n) =~= text.take(n));
        assert forall|i: int| n <= i < text.len() implies is_white_space(#[trigger] text[i]) by {
            if i < text.len() - 1 {
                assert(text[i] == text.drop_last()[i]);
            }
        }
    } else {
        assert(text.take(text.len() as int) =~= text);
    }
}

/// A trimmed text is a piece of the text with no white space at either end and nothing but white
/// space around it; so trimming a text without such white space changes nothing.
pub proof fn law_trimmed(text: Seq<char>)
    ensures
        has_clean_ends(trimmed(text)),
        exists|from: int, to: int|
            0 <= from <= to <= text.len() && trimmed(text) == #[trigger] text.subrange(from, to)
                && all_white(text, 0, from) && all_white(text, to, text.len() as int),
        has_clean_ends(text) ==> trimmed(text) == text,
        trimmed(trimmed(text)) == trimmed(text),
{
    lemma_trim_start(text);
    let start = trim_start(text);
    lemma_trim_end(start);
    let from = choose|n: int|
        0 <= n <= text.len() && start == #[trigger] text.skip(n) && all_white(text, 0, n);
    let n = choose|n: int|
        0 <= n <= start.len() && trim_end(start) == #[trigger] start.take(n) && all_white(
            start,
            n,
            start.len() as int,
        );
    assert(text.skip(from).take(n) =~= text.subrange(from, from + n));
    assert forall|i: int| from + n <= i < text.len() implies is_white_space(#[trigger] text[i]) by {
        assert(text[i] == start[i - from]);
    }
}

/// What is added around a text in white space is what trimming takes away: any text without white
/// space at its ends is what is left of it between any two runs of white space.
pub proof fn law_white_space_around_is_removed(
    before: Seq<char>,
    text: Seq<char>,
    after: Seq<char>,
)
    requires
        all_white(before, 0, before.len() as int),
        all_white(after, 0, after.len() as int),
        has_clean_ends(text),
    ensures
        trimmed(before + text + after) == text,
{
    let whole = before + text + after;
    law_trimmed(whole);
    let (from, to) = choose|from: int, to: int|
        0 <= from <= to <= whole.len() && trimmed(whole) == #[trigger] whole.subrange(from, to)
            && all_white(whole, 0, from) && all_white(whole, to, whole.len() as int);
    let a = before.len() as int;
    let b = a + text.len();
    assert forall|i: int| 0 <= i < a implies is_white_space(#[trigger] whole[i]) by {
        assert(whole[i] == before[i]);
    }
    assert forall|i: int| b <= i < whole.len() implies is_white_space(#[trigger] whole[i]) by {
        assert(whole[i] == after[i - b]);
    }
    if text.len() == 0 {
        if from < to {
            assert(trimmed(whole).first() == whole[from]);
        }
        assert(trimmed(whole) =~= text);
    } else {
        assert(whole[a] == text.first());
        assert(whole[b - 1] == text.last());
        assert(from <= a && b <= to);
        assert(trimmed(whole).first() == whole[from]);
        assert(trimmed(whole).last() == whole[to - 1]);
        assert(trimmed(whole) =~= text);
    }
}

/// A text has something left after trimming exactly if it holds a character that is not white space.
pub proof fn law_blank_texts_are_trimmed_away(text: Seq<char>)
    ensures
        trimmed(text).len() > 0 <==> exists|i: int|
            0 <= i < text.len() && !is_white_space(#[trigger] text[i]),
{
    law_trimmed(text);
    let (from, to) = choose|from: int, to: int|
        0 <= from <= to <= text.len() && trimmed(text) == #[trigger] text.subrange(from, to)
            && all_white(text, 0, from) && all_white(text, to, text.len() as int);
    if trimmed(text).len() > 0 {
        assert(trimmed(text).first() == text[from]);
    }
}

/// Whether a text is made of another with something, or nothing, before and after it.
pub open spec fn is_around(whole: Seq<char>, part: Seq<char>) -> bool {
    exists|before: Seq<char>, after: Seq<char>| whole == #[trigger] (before + part + after)
}

/// A text is part of another exactly if the other is made of it with something before and something
/// after it.
pub proof fn law_part_has_a_before_and_an_after(whole: Seq<char>, part: Seq<char>)
    ensures
        has_part(whole, part) <==> is_around(whole, part),
{
    if has_part(whole, part) {
        let at = choose|at: int| #[trigger] stands_at(whole, part, at);
        let before = whole.take(at);
        let after = whole.skip(at + part.len());
        assert forall|i: int| 0 <= i < whole.len() implies whole[i] == (before + part + after)[i] by {
            if at <= i < at + part.len() {
                assert(whole.subrange(at, at + part.len())[i - at] == part[i - at]);
            }
        }
        assert(whole =~= before + part + after);
    }
    if exists|before: Seq<char>, after: Seq<char>| whole == #[trigger] (before + part + after) {
        let (before, after) = choose|before: Seq<char>, after: Seq<char>|
            whole == #[trigger] (before + part + after);
        let at = before.len() as int;
        assert(whole.subrange(at, at + part.len()) =~= part);
        assert(stands_at(whole, part, at));
    }
}

/// The number that a text of decimal digits stands for.
pub open spec fn digits_value(digits: Seq<char>) -> int
    decreases digits.len(),
{
    if digits.len() == 0 {
        0
    } else {
        10 * digits_value(digits.drop_last()) + (digits.last() as int - '0' as int)
    }
}

/// A number is written in decimal digits that stand for it, without a needless zero in front.
pub proof fn law_decimal_stands_for_its_number(n: nat)
    ensures
        digits_value(decimal(n)) == n,
        decimal(n).len() > 0,
        forall|i: int| 0 <= i < decimal(n).len() ==> '0' <= #[trigger] decimal(n)[i] <= '9',
        decimal(n).len() > 1 ==> decimal(n)[0] != '0',
        n == 0 ==> decimal(n).len() == 1,
    decreases n,
{
    reveal_with_fuel(digits_value, 2);
    if n >= 10 {
        let front = decimal(n / 10);
        law_decimal_stands_for_its_number(n / 10);
        assert(decimal(n).drop_last() =~= front);
        assert(n / 10 > 0);
        if front.len() == 1 {
            assert(front.drop_last().len() == 0);
            assert(digits_value(front) == front[0] as int - '0' as int);
        }
    } else {
        assert(decimal(n).drop_last().len() == 0);
    }
}

/// Whether a text holds no line feed.
pub open spec fn is_one_line(line: Seq<char>) -> bool {
    forall|i: int| 0 <= i < line.len() ==> line[i] != '\n'
}

/// A line feed, with a carriage return before it or not.
pub open spec fn line_ending(with_return: bool) -> Seq<char> {
    if with_return {
        seq!['\r', '\n']
    } else {
        seq!['\n']
    }
}

proof fn lemma_line_end_shift(front: Seq<char>, rest: Seq<char>, k: int)
    requires
        0 <= k <= rest.len(),
    ensures
        line_end(front + rest, front.len() + k) == front.len() + line_end(rest, k),
    decreases rest.len() - k,
{
    if k < rest.len() {
        assert((front + rest)[front.len() + k] == rest[k]);
        if rest[k] != '\n' {
            lemma_line_end_shift(front, rest, k + 1);
        }
    }
}

proof fn lemma_lines_shift(front: Seq<char>, rest: Seq<char>, k: int)
    requires
        0 <= k <= rest.len(),
    ensures
        lines_from(front + rest, front.len() + k) == lines_from(rest, k),
    decreases rest.len() - k,
{
    lemma_line_end_shift(front, rest, k);
    lemma_line_end(rest, k);
    if k < rest.len() {
        let end = line_end(rest, k);
        let all = front + rest;
        let n = front.len() as int;
        if end >= rest.len() {
            assert(all.subrange(n + k, all.len() as int) =~= rest.subrange(k, rest.len() as int));
        } else {
            lemma_lines_shift(front, rest, end + 1);
            assert(all.subrange(n + k, n + end) =~= rest.subrange(k, end));
        }
    }
}

proof fn lemma_line_end_found(text: Seq<char>, from: int, end: int)
    requires
        0 <= from <= end <= text.len(),
        end < text.len() ==> text[end] == '\n',
        forall|i: int| from <= i < end ==> text[i] != '\n',
    ensures
        line_end(text, from) == end,
    decreases end - from,
{
    if from < end {
        lemma_line_end_found(text, from + 1, end);
    }
}

/// The first line of a text is what stands before the first line ending, and the other lines are
/// those of the rest. A line that ends in a carriage return of its own can only be written with
/// one before its line feed.
pub proof fn law_first_line_is_split_off(line: Seq<char>, with_return: bool, rest: Seq<char>)
    requires
        is_one_line(line),
        with_return || line.len() == 0 || line.last() != '\r',
    ensures
        text_lines(line + line_ending(with_return) + rest) == seq![line] + text_lines(rest),
{
    let front = line + line_ending(with_return);
    let text = front + rest;
    let end = front.len() - 1;
    assert forall|i: int| 0 <= i < end implies text[i] != '\n' by {
        assert(text[i] == front[i]);
        if i < line.len() {
            assert(front[i] == line[i]);
        }
    }
    assert(text[end] == front[end]);
    lemma_line_end_found(text, 0, end);
    if with_return {
        assert(text.subrange(0, end) =~= line.push('\r'));
        assert(line.push('\r').drop_last() =~= line);
    } else {
        assert(text.subrange(0, end) =~= line);
    }
    lemma_lines_shift(front, rest, 0);
    assert(without_return(text.subrange(0, end)) =~= line);
}

/// A text without a line feed is one line, or none if it is empty: the last line ending is
/// optional.
pub proof fn law_last_line_needs_no_ending(line: Seq<char>)
    requires
        is_one_line(line),
    ensures
        text_lines(line) == if line.len() == 0 {
            seq![]
        } else {
            seq![line]
        },
{
    lemma_line_end_found(line, 0, line.len() as int);
    assert(line.subrange(0, line.len() as int) =~= line);
}

/// A text written as lines, each with its line ending.
pub open spec fn written_lines(lines: Seq<Seq<char>>) -> Seq<char>
    decreases lines.len(),
{
    if lines.len() == 0 {
        seq![]
    } else {
        lines.first() + line_ending(false) + written_lines(lines.drop_first())
    }
}

/// Lines that are written one by one are read back.
pub proof fn law_written_lines_are_read(lines: Seq<Seq<char>>)
    requires
        forall|i: int| 0 <= i < lines.len() ==> is_one_line(#[trigger] lines[i]),
        forall|i: int|
            0 <= i < lines.len() && (#[trigger] lines[i]).len() > 0 ==> lines[i].last() != '\r',
    ensures
        text_lines(written_lines(lines)) == lines,
    decreases lines.len(),
{
    if lines.len() == 0 {
        law_last_line_needs_no_ending(seq![]);
        assert(lines =~= seq![]);
    } else {
        let more = lines.drop_first();
        assert forall|i: int| 0 <= i < more.len() implies is_one_line(#[trigger] more[i]) by {
            assert(more[i] == lines[i + 1]);
        }
        assert forall|i: int|
            0 <= i < more.len() && (#[trigger] more[i]).len() > 0 implies more[i].last() != '\r' by {
            assert(more[i] == lines[i + 1]);
        }
        law_written_lines_are_read(more);
        assert(is_one_line(lines[0]));
        law_first_line_is_split_off(lines.first(), false, written_lines(more));
        assert(seq![lines.first()] + more =~= lines);
    }
}

/// The texts of a list of strings are those of its strings, one by one, and an optional string has a
/// text exactly if there is one, which is then its own.
pub proof fn law_texts_are_those_of_the_strings(strings: Seq<String>, s: Option<String>)
    ensures
        texts(strings).len() == strings.len(),
        forall|i: int| 0 <= i < strings.len() ==> #[trigger] texts(strings)[i] == strings[i]@,
        opt_text(s) is Some <==> s is Some,
        s is Some ==> opt_text(s)->0 == (s->0)@,
{
}

} // verus!
