//! The residue cleaner: takes out of a text what leaked into it from macros
//! and diagrams and means nothing to a reader.

use vstd::prelude::*;
use crate::scan::{lemma_nothing_to_rewrite, rewrite_all, rewritten, Rewrite, Span, MAX_ITERATIONS};
use crate::text::{
    append, chars_of, find, find_from, is_space, is_whitespace, lemma_part_absent,
    lemma_run_start_bound, lemma_short_cons, lemma_short_empty, occurs, run_end, run_start,
    runs_within, slice, splice, spliced,
};

verus! {

/// The longest run of characters without white space that is still taken
/// for text. A longer one is encoded data.
pub const MAX_RUN_LENGTH: usize = 500;

/// The character at `i` belongs to a run without white space that is longer
/// than `MAX_RUN_LENGTH`.
pub open spec fn in_long_run(s: Seq<char>, i: int) -> bool {
    0 <= i < s.len() && !is_space(s[i]) && run_end(s, i) - run_start(s, i) > MAX_RUN_LENGTH
}

/// The part of `s` from `i` on without the characters of its long runs.
pub open spec fn without_long_runs_from(s: Seq<char>, i: int) -> Seq<char>
    decreases s.len() - i,
{
    if i < 0 || i >= s.len() {
        Seq::empty()
    } else if in_long_run(s, i) {
        without_long_runs_from(s, i + 1)
    } else {
        seq![s[i]] + without_long_runs_from(s, i + 1)
    }
}

/// `s` without the characters of its long runs; every other character stays
/// where it was.
pub open spec fn without_long_runs(s: Seq<char>) -> Seq<char> {
    without_long_runs_from(s, 0)
}

/// The rule that cuts a diagram model out of a text, root element through
/// its closing tag.
pub open spec fn diagram_model() -> Span {
    Span { open: "<mxGraphModel", close: "</mxGraphModel>" }
}

/// The rule that cuts out a diagram model whose root element is escaped by
/// a backslash, together with the backslash.
pub open spec fn escaped_diagram_model() -> Span {
    Span { open: "\\<mxGraphModel", close: "</mxGraphModel>" }
}

/// `s` without diagram models, escaped or not.
pub open spec fn without_diagram_models(s: Seq<char>) -> Seq<char> {
    rewritten(
        diagram_model(),
        rewritten(escaped_diagram_model(), s, MAX_ITERATIONS as nat),
        MAX_ITERATIONS as nat,
    )
}

/// `s` without diagram models and without long runs.
pub open spec fn binary_cleaned(s: Seq<char>) -> Seq<char> {
    without_long_runs(without_diagram_models(s))
}

/// Cuts out the first bookkeeping attribute of one name: the name, `="`,
/// the value and the closing quote.
pub struct Attribute {
    pub open: &'static str,
}

/// `s` without its first attribute that opens with `open`; `None` where
/// `open` does not occur or no quote closes the value.
pub open spec fn cut_attribute(s: Seq<char>, open: Seq<char>) -> Option<Seq<char>> {
    match find_from(s, open, 0) {
        Some(a) => match find_from(s, "\""@, a + open.len()) {
            Some(b) => Some(splice(s, a, b + 1, Seq::empty())),
            None => None,
        },
        None => None,
    }
}

impl Rewrite for Attribute {
    open spec fn step(&self, s: Seq<char>) -> Option<Seq<char>> {
        cut_attribute(s, self.open@)
    }

    fn apply(&self, s: &Vec<char>) -> (r: Option<Vec<char>>) {
        let open = chars_of(self.open);
        let quote = chars_of("\"");
        match find(s, &open, 0) {
            Some(a) => match find(s, &quote, a + open.len()) {
                Some(b) => {
                    proof {
                        reveal_strlit("\"");
                    }
                    Some(spliced(s, a, b + 1, &Vec::new()))
                },
                None => None,
            },
            None => None,
        }
    }
}

/// `s` without the attributes that name a macro instance, its schema
/// version or its local identifier.
pub open spec fn metadata_cleaned(s: Seq<char>) -> Seq<char> {
    let a = rewritten(Attribute { open: "ac:macro-id=\"" }, s, MAX_ITERATIONS as nat);
    let b = rewritten(Attribute { open: "ac:schema-version=\"" }, a, MAX_ITERATIONS as nat);
    rewritten(Attribute { open: "ac:local-id=\"" }, b, MAX_ITERATIONS as nat)
}

/// `s` without residue of any kind: first without diagram models, then
/// without bookkeeping attributes, and last without the long runs that are
/// left or have come about.
pub open spec fn residue_cleaned(s: Seq<char>) -> Seq<char> {
    without_long_runs(metadata_cleaned(without_diagram_models(s)))
}

/// Inside a run that spans `a..e`, every position has `a` as the start of
/// its run and `e` as its end.
proof fn lemma_run_bounds(s: Seq<char>, a: int, e: int, k: int)
    requires
        0 <= a <= k < e <= s.len(),
        a == 0 || is_space(s[a - 1]),
        e == s.len() || is_space(s[e]),
        forall|j: int| a <= j < e ==> !is_space(#[trigger] s[j]),
    ensures
        run_start(s, k) == a,
        run_end(s, k) == e,
{
    lemma_run_start(s, a, k);
    lemma_run_end(s, e, k);
}

/// A run that starts at `a` has `a` as its start at every position that no
/// white space parts from `a`.
proof fn lemma_run_start(s: Seq<char>, a: int, k: int)
    requires
        0 <= a <= k <= s.len(),
        a == 0 || is_space(s[a - 1]),
        forall|j: int| a <= j < k ==> !is_space(#[trigger] s[j]),
    ensures
        run_start(s, k) == a,
    decreases k - a,
{
    if k > a {
        lemma_run_start(s, a, k - 1);
    }
}

/// A run that ends at `e` has `e` as its end at every position that no
/// white space parts from `e`.
proof fn lemma_run_end(s: Seq<char>, e: int, k: int)
    requires
        0 <= k <= e <= s.len(),
        e == s.len() || is_space(s[e]),
        forall|j: int| k <= j < e ==> !is_space(#[trigger] s[j]),
    ensures
        run_end(s, k) == e,
    decreases e - k,
{
    if k < e {
        lemma_run_end(s, e, k + 1);
    }
}

/// A whole run is dropped where it is long and kept where it is not.
proof fn lemma_whole_run(s: Seq<char>, a: int, e: int, k: int)
    requires
        0 <= a <= k <= e <= s.len(),
        a == 0 || is_space(s[a - 1]),
        e == s.len() || is_space(s[e]),
        forall|j: int| a <= j < e ==> !is_space(#[trigger] s[j]),
    ensures
        without_long_runs_from(s, k) == if e - a > MAX_RUN_LENGTH {
            without_long_runs_from(s, e)
        } else {
            s.subrange(k, e) + without_long_runs_from(s, e)
        },
    decreases e - k,
{
    if k < e {
        lemma_run_bounds(s, a, e, k);
        lemma_whole_run(s, a, e, k + 1);
        if e - a <= MAX_RUN_LENGTH {
            let rest = without_long_runs_from(s, e);
            assert(seq![s[k]] + (s.subrange(k + 1, e) + rest) =~= s.subrange(k, e) + rest);
        }
    } else {
        assert(s.subrange(k, e) + without_long_runs_from(s, e) =~= without_long_runs_from(s, e));
    }
}

/// A text holds no residue: no diagram model, no long run and none of the
/// bookkeeping attributes.
pub open spec fn residue_free(s: Seq<char>) -> bool {
    &&& !occurs(s, "<mxGraphModel"@)
    &&& forall|i: int| !in_long_run(s, i)
    &&& !occurs(s, "ac:macro-id=\""@)
    &&& !occurs(s, "ac:schema-version=\""@)
    &&& !occurs(s, "ac:local-id=\""@)
}

/// A text without long runs stays as it is.
proof fn lemma_no_long_runs(s: Seq<char>, i: int)
    requires
        0 <= i <= s.len(),
        forall|k: int| !in_long_run(s, k),
    ensures
        without_long_runs_from(s, i) == s.subrange(i, s.len() as int),
    decreases s.len() - i,
{
    if i < s.len() {
        lemma_no_long_runs(s, i + 1);
        assert(seq![s[i]] + s.subrange(i + 1, s.len() as int) =~= s.subrange(i, s.len() as int));
    } else {
        assert(s.subrange(i, s.len() as int) =~= Seq::<char>::empty());
    }
}

/// The residue cleaner leaves a text without residue as it is.
pub proof fn lemma_residue_free_unchanged(s: Seq<char>)
    requires
        residue_free(s),
    ensures
        residue_cleaned(s) == s,
{
    let n = MAX_ITERATIONS as nat;
    reveal_strlit("<mxGraphModel");
    reveal_strlit("\\<mxGraphModel");
    lemma_part_absent(s, "\\<mxGraphModel"@, "<mxGraphModel"@, 1);
    lemma_nothing_to_rewrite(escaped_diagram_model(), s, n);
    lemma_nothing_to_rewrite(diagram_model(), s, n);
    lemma_nothing_to_rewrite(Attribute { open: "ac:macro-id=\"" }, s, n);
    lemma_nothing_to_rewrite(Attribute { open: "ac:schema-version=\"" }, s, n);
    lemma_nothing_to_rewrite(Attribute { open: "ac:local-id=\"" }, s, n);
    lemma_no_long_runs(s, 0);
    assert(s.subrange(0, s.len() as int) =~= s);
}

/// The start of a run is the same in a text and in a part of it that
/// holds the run from its start.
proof fn lemma_run_start_agrees(s: Seq<char>, t: Seq<char>, d: int, k: int)
    requires
        0 <= k <= t.len(),
        0 <= d,
        d + k <= s.len(),
        forall|j: int| 0 <= j < k ==> s[d + j] == #[trigger] t[j],
        d == 0 || (k > 0 && is_space(t[0])),
    ensures
        run_start(s, d + k) == d + run_start(t, k),
    decreases k,
{
    if k > 0 {
        assert(s[d + (k - 1)] == t[k - 1]);
        if !is_space(t[k - 1]) {
            lemma_run_start_agrees(s, t, d, k - 1);
        }
    }
}

/// The end of a run is the same in two texts that agree from the position
/// up to the end of both.
proof fn lemma_run_end_agrees(s: Seq<char>, t: Seq<char>, d: int, k: int)
    requires
        0 <= k <= t.len(),
        0 <= d,
        d + t.len() == s.len(),
        forall|j: int| k <= j < t.len() ==> s[d + j] == #[trigger] t[j],
    ensures
        run_end(s, d + k) == d + run_end(t, k),
    decreases t.len() - k,
{
    if k < t.len() {
        assert(s[d + k] == t[k]);
        if !is_space(t[k]) {
            lemma_run_end_agrees(s, t, d, k + 1);
        }
    }
}

/// In front of a white space, a text is cleaned as if it stood alone.
proof fn lemma_runs_in_front(head: Seq<char>, tail: Seq<char>, k: int)
    requires
        0 <= k <= head.len(),
        head.len() == 0 || is_space(head.last()),
    ensures
        without_long_runs_from(head + tail, k) == without_long_runs_from(head, k)
            + without_long_runs_from(head + tail, head.len() as int),
    decreases head.len() - k,
{
    let s = head + tail;
    if k < head.len() {
        lemma_runs_in_front(head, tail, k + 1);
        assert(s[k] == head[k]);
        assert forall|j: int| 0 <= j < k implies s[0 + j] == #[trigger] head[j] by {}
        assert forall|j: int| k <= j < head.len() implies s[0 + j] == #[trigger] head[j] by {}
        lemma_run_start_agrees(s, head, 0, k);
        if !is_space(head[k]) {
            lemma_run_end_in_front(s, head, k);
        }
        let rest = without_long_runs_from(s, head.len() as int);
        if !in_long_run(s, k) {
            assert(seq![s[k]] + (without_long_runs_from(head, k + 1) + rest) =~= (seq![head[k]]
                + without_long_runs_from(head, k + 1)) + rest);
        }
    } else {
        assert(Seq::<char>::empty() + without_long_runs_from(s, head.len() as int)
            =~= without_long_runs_from(s, head.len() as int));
    }
}

/// A run that ends in front of a white space ends there in every text that
/// starts alike.
proof fn lemma_run_end_in_front(s: Seq<char>, head: Seq<char>, k: int)
    requires
        0 <= k < head.len() <= s.len(),
        is_space(head.last()),
        forall|j: int| 0 <= j < head.len() ==> s[j] == #[trigger] head[j],
    ensures
        run_end(s, k) == run_end(head, k),
    decreases head.len() - k,
{
    assert(s[k] == head[k]);
    if !is_space(head[k]) {
        lemma_run_end_in_front(s, head, k + 1);
    }
}

/// Behind a white space, a text is cleaned as if it stood alone.
proof fn lemma_runs_behind(head: Seq<char>, tail: Seq<char>, j: int)
    requires
        0 <= j <= tail.len(),
        tail.len() == 0 || is_space(tail[0]),
    ensures
        without_long_runs_from(head + tail, head.len() + j) == without_long_runs_from(tail, j),
    decreases tail.len() - j,
{
    let s = head + tail;
    let d = head.len() as int;
    if j < tail.len() {
        lemma_runs_behind(head, tail, j + 1);
        assert(s[d + j] == tail[j]);
        assert forall|i: int| 0 <= i < j implies s[d + i] == #[trigger] tail[i] by {}
        assert forall|i: int| j <= i < tail.len() implies s[d + i] == #[trigger] tail[i] by {}
        if !is_space(tail[j]) {
            lemma_run_start_agrees(s, tail, d, j);
            lemma_run_end_agrees(s, tail, d, j);
        }
    }
}

/// A long run that stands between white space, or at an end of the text,
/// goes, and what stands in front of it and behind it is cleaned as if the
/// run had never been there.
pub proof fn lemma_long_run_removed(head: Seq<char>, run: Seq<char>, tail: Seq<char>)
    requires
        run.len() > MAX_RUN_LENGTH,
        forall|k: int| 0 <= k < run.len() ==> !is_space(#[trigger] run[k]),
        head.len() == 0 || is_space(head.last()),
        tail.len() == 0 || is_space(tail[0]),
    ensures
        without_long_runs(head + run + tail) == without_long_runs(head) + without_long_runs(tail),
{
    let s = head + run + tail;
    let a = head.len() as int;
    let e = a + run.len();
    assert(s =~= head + (run + tail));
    lemma_runs_in_front(head, run + tail, 0);
    assert forall|j: int| a <= j < e implies !is_space(#[trigger] s[j]) by {
        assert(s[j] == run[j - a]);
    }
    if a > 0 {
        assert(s[a - 1] == head.last());
    }
    if tail.len() > 0 {
        assert(s[e] == tail[0]);
    }
    lemma_whole_run(s, a, e, a);
    lemma_runs_behind(head + run, tail, 0);
}

/// A long run stays long at the next position of the same run.
proof fn lemma_same_run(s: Seq<char>, i: int)
    requires
        0 <= i,
        i + 1 < s.len(),
        !is_space(s[i]),
        !is_space(s[i + 1]),
    ensures
        in_long_run(s, i) == in_long_run(s, i + 1),
{
}

/// Once the long runs are out, no stretch of more than `MAX_RUN_LENGTH`
/// characters is free of white space; and what is left of a run that the
/// text holds at `i` is no longer than that run was from `i` on.
proof fn lemma_long_runs_gone_from(s: Seq<char>, i: int)
    requires
        0 <= i <= s.len(),
    ensures
        runs_within(without_long_runs_from(s, i), MAX_RUN_LENGTH as nat),
        run_end(without_long_runs_from(s, i), 0) <= if i < s.len() && !is_space(s[i])
            && !in_long_run(s, i) {
            run_end(s, i) - i
        } else {
            0
        },
    decreases s.len() - i,
{
    let limit = MAX_RUN_LENGTH as nat;
    if i < s.len() {
        lemma_long_runs_gone_from(s, i + 1);
        let rest = without_long_runs_from(s, i + 1);
        lemma_run_start_bound(s, i);
        if is_space(s[i]) {
            lemma_short_cons(s[i], rest, limit);
        } else {
            if i + 1 < s.len() && !is_space(s[i + 1]) {
                lemma_same_run(s, i);
            }
            if !in_long_run(s, i) {
                lemma_short_cons(s[i], rest, limit);
            }
        }
    } else {
        lemma_short_empty(limit);
    }
}

/// Once the long runs are out of a text, no stretch of more than
/// `MAX_RUN_LENGTH` characters of it is free of white space.
pub proof fn lemma_long_runs_gone(s: Seq<char>)
    ensures
        runs_within(without_long_runs(s), MAX_RUN_LENGTH as nat),
{
    lemma_long_runs_gone_from(s, 0);
}

/// Takes the long runs out of `text`. No stretch of more than
/// `MAX_RUN_LENGTH` characters of the result is free of white space.
pub fn remove_long_runs(text: &Vec<char>) -> (r: Vec<char>)
    ensures
        r@ == without_long_runs(text@),
        runs_within(r@, MAX_RUN_LENGTH as nat),
{
    proof {
        lemma_long_runs_gone(text@);
    }
    let n = text.len();
    let mut out: Vec<char> = Vec::new();
    let mut i: usize = 0;
    while i < n
        invariant
            n == text.len(),
            i <= n,
            i == 0 || i == n || is_space(text@[i - 1]) || is_space(text@[i as int]),
            out@ + without_long_runs_from(text@, i as int) == without_long_runs(text@),
        decreases n - i,
    {
        let ghost before = out@;
        if is_whitespace(text[i]) {
            out.push(text[i]);
            assert(before + (seq![text@[i as int]] + without_long_runs_from(text@, i + 1))
                =~= before.push(text@[i as int]) + without_long_runs_from(text@, i + 1));
            i += 1;
        } else {
            let mut e: usize = i;
            while e < n && !is_whitespace(text[e])
                invariant
                    n == text.len(),
                    i <= e <= n,
                    forall|j: int| i <= j < e ==> !is_space(#[trigger] text@[j]),
                decreases n - e,
            {
                e += 1;
            }
            proof {
                lemma_whole_run(text@, i as int, e as int, i as int);
            }
            if e - i <= MAX_RUN_LENGTH {
                let run = slice(text, i, e);
                append(&mut out, &run);
                assert(before + (text@.subrange(i as int, e as int) + without_long_runs_from(
                    text@,
                    e as int,
                )) =~= (before + run@) + without_long_runs_from(text@, e as int));
            }
            i = e;
        }
    }
    assert(out@ + Seq::<char>::empty() =~= out@);
    out
}

/// Takes diagram models and long runs out of `text`.
pub fn clean_binary_data(text: &Vec<char>) -> (r: Vec<char>)
    ensures
        r@ == binary_cleaned(text@),
{
    remove_long_runs(&remove_diagram_models(text))
}

/// Takes the bookkeeping attributes of macros out of `text`.
pub fn clean_metadata(text: &Vec<char>) -> (r: Vec<char>)
    ensures
        r@ == metadata_cleaned(text@),
{
    let a = rewrite_all(&Attribute { open: "ac:macro-id=\"" }, text, MAX_ITERATIONS);
    let b = rewrite_all(&Attribute { open: "ac:schema-version=\"" }, &a, MAX_ITERATIONS);
    rewrite_all(&Attribute { open: "ac:local-id=\"" }, &b, MAX_ITERATIONS)
}

/// Takes the diagram models out of `text`.
pub fn remove_diagram_models(text: &Vec<char>) -> (r: Vec<char>)
    ensures
        r@ == without_diagram_models(text@),
{
    let escaped = Span { open: "\\<mxGraphModel", close: "</mxGraphModel>" };
    let plain = Span { open: "<mxGraphModel", close: "</mxGraphModel>" };
    let without_escaped = rewrite_all(&escaped, text, MAX_ITERATIONS);
    rewrite_all(&plain, &without_escaped, MAX_ITERATIONS)
}

/// Takes the residue of macros and diagrams out of a converted text. No
/// stretch of more than `MAX_RUN_LENGTH` characters of the result is free
/// of white space.
pub fn clean_residue(markdown: &Vec<char>) -> (r: Vec<char>)
    ensures
        r@ == residue_cleaned(markdown@),
        runs_within(r@, MAX_RUN_LENGTH as nat),
{
    proof {
        lemma_long_runs_gone(metadata_cleaned(without_diagram_models(markdown@)));
    }
    remove_long_runs(&clean_metadata(&remove_diagram_models(markdown)))
}

} // verus!
