//! What the converters share: the tidying of blank lines.

use vstd::prelude::*;
use crate::text::{
    append, blank, chars_of, find_from, is_blank, join, joined, lemma_find_from, lemma_short_empty,
    lemma_short_part, lemma_short_parted, occurs, occurs_at, runs_within, slice, string_of, views,
};

verus! {

/// The first position at or after `i` that holds a line feed, or the end of
/// the text.
pub open spec fn line_end(s: Seq<char>, i: int) -> int
    decreases s.len() - i,
{
    if 0 <= i < s.len() && s[i] != '\n' {
        line_end(s, i + 1)
    } else {
        i
    }
}

/// A line without the carriage return at its end, if it has one.
pub open spec fn without_cr(line: Seq<char>) -> Seq<char> {
    if line.len() > 0 && line.last() == '\r' {
        line.drop_last()
    } else {
        line
    }
}

/// The lines of a text. A line ends with a line feed, or with a carriage
/// return and a line feed, neither of which belongs to it; what follows the
/// last line feed is a line of its own unless it is empty.
pub open spec fn lines(s: Seq<char>) -> Seq<Seq<char>>
    decreases s.len(),
{
    if s.len() == 0 {
        Seq::empty()
    } else {
        let e = line_end(s, 0);
        if 0 <= e < s.len() {
            seq![without_cr(s.subrange(0, e))] + lines(s.subrange(e + 1, s.len() as int))
        } else {
            seq![s]
        }
    }
}

/// The lines from `i` on that are kept: every line that is not blank, and
/// one empty line in front of it where blank lines stood between it and the
/// line kept before. `seen` says that a line was kept before, `gap` that
/// blank lines have been passed since.
pub open spec fn kept_from(all: Seq<Seq<char>>, i: int, seen: bool, gap: bool) -> Seq<Seq<char>>
    decreases all.len() - i,
{
    if i < 0 || i >= all.len() {
        Seq::empty()
    } else if is_blank(all[i]) {
        kept_from(all, i + 1, seen, seen)
    } else if gap {
        seq![Seq::empty(), all[i]] + kept_from(all, i + 1, true, false)
    } else {
        seq![all[i]] + kept_from(all, i + 1, true, false)
    }
}

/// The lines that are kept: blank lines at the two ends go, a run of blank
/// lines between two others becomes one empty line, and every other line
/// stays as it is.
pub open spec fn kept(all: Seq<Seq<char>>) -> Seq<Seq<char>> {
    kept_from(all, 0, false, false)
}

/// The text with its blank lines tidied: the kept lines, joined by line
/// feeds.
pub open spec fn normalized_whitespace(s: Seq<char>) -> Seq<char> {
    join(kept(lines(s)), "\n"@)
}

/// `line_end` stays inside the text and stops on a line feed or at the end,
/// with no line feed before it.
pub proof fn lemma_line_end(s: Seq<char>, i: int)
    requires
        0 <= i <= s.len(),
    ensures
        i <= line_end(s, i) <= s.len(),
        line_end(s, i) < s.len() ==> s[line_end(s, i)] == '\n',
        forall|k: int| i <= k < line_end(s, i) ==> #[trigger] s[k] != '\n',
    decreases s.len() - i,
{
    if i < s.len() && s[i] != '\n' {
        lemma_line_end(s, i + 1);
    }
}

/// A text has no line feed.
pub open spec fn one_line(s: Seq<char>) -> bool {
    forall|k: int| 0 <= k < s.len() ==> #[trigger] s[k] != '\n'
}

/// Every text of a list has no line feed.
pub open spec fn all_one_line(parts: Seq<Seq<char>>) -> bool {
    forall|i: int| 0 <= i < parts.len() ==> one_line(#[trigger] parts[i])
}

/// A text without a line feed is all one line.
proof fn lemma_line_end_of_one_line(s: Seq<char>, i: int)
    requires
        0 <= i <= s.len(),
        one_line(s),
    ensures
        line_end(s, i) == s.len(),
    decreases s.len() - i,
{
    if i < s.len() {
        lemma_line_end_of_one_line(s, i + 1);
    }
}

/// In front of a line feed, the line ends where the text in front ends.
proof fn lemma_line_end_at_break(head: Seq<char>, tail: Seq<char>, i: int)
    requires
        0 <= i <= head.len(),
        one_line(head),
    ensures
        line_end(head + seq!['\n'] + tail, i) == head.len(),
    decreases head.len() - i,
{
    let s = head + seq!['\n'] + tail;
    if i < head.len() {
        assert(s[i] == head[i]);
        lemma_line_end_at_break(head, tail, i + 1);
    } else {
        assert(s[i] == '\n');
    }
}

/// No line of a text holds a line feed.
pub proof fn lemma_lines_are_one_line(s: Seq<char>)
    ensures
        all_one_line(lines(s)),
    decreases s.len(),
{
    if s.len() > 0 {
        lemma_line_end(s, 0);
        let e = line_end(s, 0);
        if e < s.len() {
            lemma_lines_are_one_line(s.subrange(e + 1, s.len() as int));
            let first = without_cr(s.subrange(0, e));
            let rest = lines(s.subrange(e + 1, s.len() as int));
            assert(one_line(first));
            assert forall|i: int| 0 <= i < lines(s).len() implies one_line(
                #[trigger] lines(s)[i],
            ) by {
                if i > 0 {
                    assert(lines(s)[i] == rest[i - 1]);
                }
            }
        } else {
            assert(one_line(s));
        }
    }
}

/// Joining starts with the first part and the separator.
pub proof fn lemma_join_front(parts: Seq<Seq<char>>, sep: Seq<char>)
    requires
        parts.len() >= 2,
    ensures
        join(parts, sep) == parts[0] + sep + join(parts.drop_first(), sep),
    decreases parts.len(),
{
    if parts.len() == 2 {
        assert(parts.drop_last().len() == 1);
        assert(parts.drop_first().len() == 1);
        assert(join(parts.drop_last(), sep) == parts[0]);
        assert(join(parts.drop_first(), sep) == parts[1]);
    } else {
        lemma_join_front(parts.drop_last(), sep);
        assert(parts.drop_last().drop_first() =~= parts.drop_first().drop_last());
        assert(parts.drop_first().last() == parts.last());
        assert(parts.drop_last()[0] == parts[0]);
        assert(join(parts, sep) =~= parts[0] + sep + join(parts.drop_first(), sep));
    }
}

/// The kept lines hold no line feed where the lines they come from hold
/// none, and the last of them is not blank.
proof fn lemma_kept_lines(all: Seq<Seq<char>>, i: int, seen: bool, gap: bool)
    requires
        0 <= i <= all.len(),
        all_one_line(all),
    ensures
        all_one_line(kept_from(all, i, seen, gap)),
        kept_from(all, i, seen, gap).len() > 0 ==> !is_blank(kept_from(all, i, seen, gap).last()),
    decreases all.len() - i,
{
    let out = kept_from(all, i, seen, gap);
    if i < all.len() {
        if is_blank(all[i]) {
            lemma_kept_lines(all, i + 1, seen, seen);
        } else {
            lemma_kept_lines(all, i + 1, true, false);
            let tail = kept_from(all, i + 1, true, false);
            let head = if gap {
                seq![Seq::<char>::empty(), all[i]]
            } else {
                seq![all[i]]
            };
            assert(out == head + tail);
            assert forall|k: int| 0 <= k < out.len() implies one_line(#[trigger] out[k]) by {
                if k >= head.len() {
                    assert(out[k] == tail[k - head.len()]);
                }
            }
            if tail.len() > 0 {
                assert(out.last() == tail.last());
            } else {
                assert(out.last() == all[i]);
            }
        }
    }
}

/// The lines from `i` on that are not blank, in their order.
pub open spec fn written_from(all: Seq<Seq<char>>, i: int) -> Seq<Seq<char>>
    decreases all.len() - i,
{
    if i < 0 || i >= all.len() {
        Seq::empty()
    } else if is_blank(all[i]) {
        written_from(all, i + 1)
    } else {
        seq![all[i]] + written_from(all, i + 1)
    }
}

/// The lines that are not blank, in their order.
pub open spec fn written(all: Seq<Seq<char>>) -> Seq<Seq<char>> {
    written_from(all, 0)
}

/// Every blank line of the list is empty and stands between two lines that
/// are not blank.
pub open spec fn well_spaced(all: Seq<Seq<char>>) -> bool {
    forall|k: int|
        0 <= k < all.len() && is_blank(#[trigger] all[k]) ==> {
            &&& all[k].len() == 0
            &&& 0 < k < all.len() - 1
            &&& !is_blank(all[k - 1])
            &&& !is_blank(all[k + 1])
        }
}

/// Behind other lines, the lines that are not blank are those of what
/// follows.
proof fn lemma_written_behind(head: Seq<Seq<char>>, tail: Seq<Seq<char>>, j: int)
    requires
        0 <= j,
    ensures
        written_from(head + tail, head.len() + j) == written_from(tail, j),
    decreases tail.len() - j,
{
    if j < tail.len() {
        lemma_written_behind(head, tail, j + 1);
        assert((head + tail)[head.len() + j] == tail[j]);
    }
}

/// The lines that are not blank of two lists in a row are those of the one
/// and then those of the other.
proof fn lemma_written_joined(head: Seq<Seq<char>>, tail: Seq<Seq<char>>, k: int)
    requires
        0 <= k <= head.len(),
    ensures
        written_from(head + tail, k) == written_from(head, k) + written(tail),
    decreases head.len() - k,
{
    if k < head.len() {
        lemma_written_joined(head, tail, k + 1);
        assert((head + tail)[k] == head[k]);
        if !is_blank(head[k]) {
            assert(seq![head[k]] + (written_from(head, k + 1) + written(tail)) =~= (seq![head[k]]
                + written_from(head, k + 1)) + written(tail));
        }
    } else {
        lemma_written_behind(head, tail, 0);
        assert(Seq::<Seq<char>>::empty() + written(tail) =~= written(tail));
    }
}

/// What is kept holds the lines that are not blank, all of them and in
/// their order, and its blank lines are empty, never first, never last and
/// never two in a row.
proof fn lemma_kept_lines_shape(all: Seq<Seq<char>>, i: int, seen: bool, gap: bool)
    requires
        0 <= i <= all.len(),
        gap ==> seen,
    ensures
        written(kept_from(all, i, seen, gap)) == written_from(all, i),
        forall|k: int|
            0 <= k < kept_from(all, i, seen, gap).len() && is_blank(
                #[trigger] kept_from(all, i, seen, gap)[k],
            ) ==> {
                &&& kept_from(all, i, seen, gap)[k].len() == 0
                &&& k + 1 < kept_from(all, i, seen, gap).len()
                &&& !is_blank(kept_from(all, i, seen, gap)[k + 1])
                &&& k > 0 ==> !is_blank(kept_from(all, i, seen, gap)[k - 1])
                &&& k == 0 ==> seen
            },
    decreases all.len() - i,
{
    let out = kept_from(all, i, seen, gap);
    if i >= all.len() {
    } else if is_blank(all[i]) {
        lemma_kept_lines_shape(all, i + 1, seen, seen);
    } else {
        lemma_kept_lines_shape(all, i + 1, true, false);
        let tail = kept_from(all, i + 1, true, false);
        let empty = Seq::<char>::empty();
        assert(is_blank(empty));
        let head = if gap {
            seq![empty, all[i]]
        } else {
            seq![all[i]]
        };
        assert(out == head + tail);
        lemma_written_joined(head, tail, 0);
        if gap {
            assert(written_from(head, 2) =~= Seq::<Seq<char>>::empty());
            assert(written_from(head, 1) =~= seq![all[i]]);
            assert(written_from(head, 0) =~= seq![all[i]]);
        } else {
            assert(written_from(head, 1) =~= Seq::<Seq<char>>::empty());
            assert(written_from(head, 0) =~= seq![all[i]]);
        }
        assert forall|k: int| 0 <= k < out.len() && is_blank(#[trigger] out[k]) implies {
            &&& out[k].len() == 0
            &&& k + 1 < out.len()
            &&& !is_blank(out[k + 1])
            &&& k > 0 ==> !is_blank(out[k - 1])
            &&& k == 0 ==> seen
        } by {
            let n = head.len() as int;
            if k >= n {
                assert(out[k] == tail[k - n]);
                assert(is_blank(tail[k - n]));
                assert(out[k + 1] == tail[k - n + 1]);
                if k > n {
                    assert(out[k - 1] == tail[k - n - 1]);
                } else {
                    assert(out[k - 1] == all[i]);
                }
            } else {
                assert(out[k] == head[k]);
                assert(out[1] == all[i]);
            }
        }
    }
}

/// Tidying keeps every line that is not blank, in its place among the
/// others, and leaves a blank line only as one empty line between two of
/// them.
pub proof fn lemma_kept_shape(all: Seq<Seq<char>>)
    ensures
        written(kept(all)) == written(all),
        well_spaced(kept(all)),
{
    lemma_kept_lines_shape(all, 0, false, false);
}

/// Keeping lines a second time changes nothing: what was kept of `all` from
/// `i` on is kept whole when it follows any lines already passed.
proof fn lemma_kept_again(
    passed: Seq<Seq<char>>,
    all: Seq<Seq<char>>,
    i: int,
    seen: bool,
    gap: bool,
)
    requires
        0 <= i <= all.len(),
        gap ==> seen,
    ensures
        kept_from(passed + kept_from(all, i, seen, gap), passed.len() as int, seen, false)
            == kept_from(all, i, seen, gap),
    decreases all.len() - i,
{
    let out = kept_from(all, i, seen, gap);
    let n = passed.len() as int;
    if i >= all.len() {
        assert(passed + out =~= passed);
    } else if is_blank(all[i]) {
        lemma_kept_again(passed, all, i + 1, seen, seen);
    } else {
        let tail = kept_from(all, i + 1, true, false);
        if gap {
            let head = seq![Seq::<char>::empty(), all[i]];
            lemma_kept_again(passed + head, all, i + 1, true, false);
            assert((passed + head) + tail =~= passed + out);
            assert((passed + out)[n] == Seq::<char>::empty());
            assert((passed + out)[n + 1] == all[i]);
            assert(is_blank(Seq::<char>::empty()));
            assert(kept_from(passed + out, n, seen, false) == kept_from(
                passed + out,
                n + 1,
                seen,
                seen,
            ));
        } else {
            let head = seq![all[i]];
            lemma_kept_again(passed + head, all, i + 1, true, false);
            assert((passed + head) + tail =~= passed + out);
            assert((passed + out)[n] == all[i]);
        }
    }
}

/// The lines of joined lines are those lines, where none holds a line feed,
/// the last is not empty and the joined text has no carriage return in
/// front of a line feed.
proof fn lemma_lines_of_joined(parts: Seq<Seq<char>>)
    requires
        all_one_line(parts),
        parts.len() > 0 ==> parts.last().len() > 0,
        !occurs(join(parts, "\n"@), "\r\n"@),
    ensures
        lines(join(parts, "\n"@)) == parts,
    decreases parts.len(),
{
    reveal_strlit("\n");
    reveal_strlit("\r\n");
    let sep = "\n"@;
    let crlf = "\r\n"@;
    assert(sep =~= seq!['\n']);
    let text = join(parts, sep);
    if parts.len() == 0 {
    } else if parts.len() == 1 {
        assert(one_line(parts[0]));
        lemma_line_end_of_one_line(text, 0);
        assert(parts =~= seq![text]);
    } else {
        let head = parts[0];
        let rest = parts.drop_first();
        let tail = join(rest, sep);
        lemma_join_front(parts, sep);
        assert(text == head + seq!['\n'] + tail);
        assert(one_line(head));
        lemma_line_end_at_break(head, tail, 0);
        let e = head.len() as int;
        assert(text.subrange(0, e) =~= head);
        assert(text.subrange(e + 1, text.len() as int) =~= tail);
        lemma_find_from(text, crlf, 0);
        if head.len() > 0 && head.last() == '\r' {
            assert(text.subrange(e - 1, e + 1) =~= crlf);
            assert(occurs_at(text, crlf, e - 1));
            assert(false);
        }
        assert(without_cr(head) == head);
        assert(all_one_line(rest)) by {
            assert forall|i: int| 0 <= i < rest.len() implies one_line(#[trigger] rest[i]) by {
                assert(rest[i] == parts[i + 1]);
            }
        }
        assert(rest.last() == parts.last());
        assert(!occurs(tail, crlf)) by {
            lemma_find_from(tail, crlf, 0);
            if occurs(tail, crlf) {
                let p = find_from(tail, crlf, 0)->0;
                assert(occurs_at(tail, crlf, p));
                assert(text.subrange(p + e + 1, p + e + 1 + crlf.len()) =~= tail.subrange(
                    p,
                    p + crlf.len(),
                ));
                assert(occurs_at(text, crlf, p + e + 1));
                assert(false);
            }
        }
        lemma_lines_of_joined(rest);
        assert(lines(text) =~= seq![head] + rest);
        assert(seq![head] + rest =~= parts);
    }
}

/// Tidying blank lines a second time changes nothing, unless the tidied
/// text holds a carriage return in front of a line feed: that pair ends one
/// line, and the next reading takes the carriage return for part of the
/// line's end.
pub proof fn lemma_normalize_whitespace_idempotent(s: Seq<char>)
    requires
        !occurs(normalized_whitespace(s), "\r\n"@),
    ensures
        normalized_whitespace(normalized_whitespace(s)) == normalized_whitespace(s),
{
    let all = lines(s);
    let rest = kept(all);
    lemma_lines_are_one_line(s);
    lemma_kept_lines(all, 0, false, false);
    if rest.len() > 0 {
        assert(!is_blank(rest.last()));
        if rest.last().len() == 0 {
            assert(is_blank(rest.last()));
        }
    }
    lemma_lines_of_joined(rest);
    lemma_kept_again(Seq::empty(), all, 0, false, false);
    assert(Seq::<Seq<char>>::empty() + rest =~= rest);
}

/// The stretches of every text of the list are short.
pub open spec fn all_within(parts: Seq<Seq<char>>, limit: nat) -> bool {
    forall|k: int| 0 <= k < parts.len() ==> runs_within(#[trigger] parts[k], limit)
}

/// The lines of a text whose stretches are short have short stretches.
proof fn lemma_lines_short(s: Seq<char>, limit: nat)
    requires
        runs_within(s, limit),
    ensures
        all_within(lines(s), limit),
    decreases s.len(),
{
    if s.len() > 0 {
        lemma_line_end(s, 0);
        let e = line_end(s, 0);
        if e < s.len() {
            let line = s.subrange(0, e);
            let tail = s.subrange(e + 1, s.len() as int);
            lemma_short_part(s, 0, e, limit);
            if line.len() > 0 {
                lemma_short_part(line, 0, line.len() - 1, limit);
                assert(line.drop_last() =~= line.subrange(0, line.len() - 1));
            }
            lemma_short_part(s, e + 1, s.len() as int, limit);
            lemma_lines_short(tail, limit);
            let rest = lines(tail);
            assert forall|k: int| 0 <= k < lines(s).len() implies runs_within(
                #[trigger] lines(s)[k],
                limit,
            ) by {
                if k > 0 {
                    assert(lines(s)[k] == rest[k - 1]);
                }
            }
        }
    }
}

/// The lines that are kept of lines whose stretches are short have short
/// stretches.
proof fn lemma_kept_short(all: Seq<Seq<char>>, i: int, seen: bool, gap: bool, limit: nat)
    requires
        0 <= i <= all.len(),
        all_within(all, limit),
    ensures
        all_within(kept_from(all, i, seen, gap), limit),
    decreases all.len() - i,
{
    let out = kept_from(all, i, seen, gap);
    if i < all.len() {
        if is_blank(all[i]) {
            lemma_kept_short(all, i + 1, seen, seen, limit);
        } else {
            lemma_kept_short(all, i + 1, true, false, limit);
            lemma_short_empty(limit);
            let tail = kept_from(all, i + 1, true, false);
            let head = if gap {
                seq![Seq::<char>::empty(), all[i]]
            } else {
                seq![all[i]]
            };
            assert(out == head + tail);
            assert forall|k: int| 0 <= k < out.len() implies runs_within(
                #[trigger] out[k],
                limit,
            ) by {
                if k >= head.len() {
                    assert(out[k] == tail[k - head.len()]);
                } else {
                    assert(out[k] == head[k]);
                }
            }
        }
    }
}

/// Lines whose stretches are short, joined by line feeds, make a text whose
/// stretches are short.
proof fn lemma_join_short(parts: Seq<Seq<char>>, limit: nat)
    requires
        all_within(parts, limit),
    ensures
        runs_within(join(parts, "\n"@), limit),
    decreases parts.len(),
{
    reveal_strlit("\n");
    assert("\n"@ =~= seq!['\n']);
    if parts.len() == 0 {
        lemma_short_empty(limit);
    } else if parts.len() == 1 {
    } else {
        let head = parts.drop_last();
        assert forall|k: int| 0 <= k < head.len() implies runs_within(#[trigger] head[k], limit) by {
            assert(head[k] == parts[k]);
        }
        lemma_join_short(head, limit);
        lemma_short_parted(join(head, "\n"@), '\n', parts.last(), limit);
    }
}

/// Tidying the blank lines of a text whose stretches are short leaves its
/// stretches short.
pub proof fn lemma_tidy_short(s: Seq<char>, limit: nat)
    requires
        runs_within(s, limit),
    ensures
        runs_within(normalized_whitespace(s), limit),
{
    lemma_lines_short(s, limit);
    lemma_kept_short(lines(s), 0, false, false, limit);
    lemma_join_short(kept(lines(s)), limit);
}

/// Splits a text into its lines.
pub fn split_lines(text: &Vec<char>) -> (r: Vec<Vec<char>>)
    ensures
        views(r@) == lines(text@),
{
    let n = text.len();
    let mut out: Vec<Vec<char>> = Vec::new();
    let mut i: usize = 0;
    assert(views(out@) =~= Seq::<Seq<char>>::empty());
    assert(text@.subrange(0, n as int) =~= text@);
    while i < n
        invariant
            n == text.len(),
            i <= n,
            views(out@) + lines(text@.subrange(i as int, n as int)) == lines(text@),
        decreases n - i,
    {
        let ghost rest = text@.subrange(i as int, n as int);
        let mut e: usize = i;
        while e < n && text[e] != '\n'
            invariant
                n == text.len(),
                i <= e <= n,
                rest == text@.subrange(i as int, n as int),
                line_end(rest, 0) == line_end(rest, e - i),
            decreases n - e,
        {
            e += 1;
        }
        let ghost before = views(out@);
        if e < n {
            let line = if e > i && text[e - 1] == '\r' {
                slice(text, i, e - 1)
            } else {
                slice(text, i, e)
            };
            proof {
                assert(rest.subrange(0, e - i) =~= text@.subrange(i as int, e as int));
                assert(rest.subrange(e - i + 1, rest.len() as int) =~= text@.subrange(
                    e + 1,
                    n as int,
                ));
                if e > i && text@[e - 1] == '\r' {
                    assert(text@.subrange(i as int, e as int).drop_last() =~= text@.subrange(
                        i as int,
                        e - 1,
                    ));
                }
                assert(line@ == without_cr(rest.subrange(0, e - i)));
            }
            out.push(line);
            assert(views(out@) =~= before + seq![line@]);
            assert(before + (seq![line@] + lines(text@.subrange(e + 1, n as int))) =~= (before
                + seq![line@]) + lines(text@.subrange(e + 1, n as int)));
            i = e + 1;
        } else {
            let line = slice(text, i, n);
            out.push(line);
            assert(views(out@) =~= before + seq![line@]);
            assert(text@.subrange(n as int, n as int) =~= Seq::<char>::empty());
            assert(before + (seq![rest] + Seq::<Seq<char>>::empty()) =~= before + seq![rest]);
            i = n;
        }
    }
    assert(text@.subrange(n as int, n as int) =~= Seq::<char>::empty());
    assert(views(out@) + Seq::<Seq<char>>::empty() =~= views(out@));
    out
}

/// Keeps the lines that are not blank, with one empty line wherever blank
/// lines stood between two of them.
pub fn collapse_blank_lines(all: &Vec<Vec<char>>) -> (r: Vec<Vec<char>>)
    ensures
        views(r@) == kept(views(all@)),
{
    let mut out: Vec<Vec<char>> = Vec::new();
    let mut seen = false;
    let mut gap = false;
    let mut i: usize = 0;
    assert(views(out@) =~= Seq::<Seq<char>>::empty());
    while i < all.len()
        invariant
            i <= all.len(),
            views(out@) + kept_from(views(all@), i as int, seen, gap) == kept(views(all@)),
        decreases all.len() - i,
    {
        let ghost before = views(out@);
        let ghost line = all@[i as int]@;
        assert(views(all@)[i as int] == line);
        if blank(&all[i]) {
            gap = seen;
        } else {
            if gap {
                out.push(Vec::new());
            }
            let mut copy: Vec<char> = Vec::new();
            append(&mut copy, &all[i]);
            assert(copy@ =~= line);
            out.push(copy);
            proof {
                let tail = kept_from(views(all@), i + 1, true, false);
                if gap {
                    assert(views(out@) =~= before + seq![Seq::<char>::empty(), line]);
                    assert(before + (seq![Seq::<char>::empty(), line] + tail) =~= (before
                        + seq![Seq::<char>::empty(), line]) + tail);
                } else {
                    assert(views(out@) =~= before + seq![line]);
                    assert(before + (seq![line] + tail) =~= (before + seq![line]) + tail);
                }
            }
            seen = true;
            gap = false;
        }
        i += 1;
    }
    assert(views(out@) + Seq::<Seq<char>>::empty() =~= views(out@));
    out
}

/// Tidies the blank lines of a text.
pub fn tidy_lines(text: &Vec<char>) -> (r: Vec<char>)
    ensures
        r@ == normalized_whitespace(text@),
{
    let all = split_lines(text);
    let rest = collapse_blank_lines(&all);
    joined(&rest, "\n")
}

/// Tidies the blank lines of a text: runs of blank lines become one empty
/// line, blank lines at the two ends go, and every other line stays.
pub fn normalize_whitespace(text: &str) -> (r: String)
    ensures
        r@ == normalized_whitespace(text@),
{
    string_of(&tidy_lines(&chars_of(text)))
}

} // verus!
