//! Well-bracketed texts, and what cutting tags out of them can and cannot
//! do.
//!
//! A pass that cuts one kind of tag out of a text joins what stood in front
//! of a tag to what stood behind it. In a text whose tags never overlap that
//! joint cannot bring a new tag about, so tags only ever get fewer.

use vstd::prelude::*;
use crate::scan::{rewritten, Rewrite, Span};
use crate::text::{find_from, lemma_find_from, occurs, occurs_at, splice};

verus! {

/// `c` opens or closes a tag.
pub open spec fn is_bracket(c: char) -> bool {
    c == '<' || c == '>'
}

/// The first position at or after `j` that holds a bracket, or the end of
/// the text.
pub open spec fn next_bracket(s: Seq<char>, j: int) -> int
    decreases s.len() - j,
{
    if 0 <= j < s.len() && !is_bracket(s[j]) {
        next_bracket(s, j + 1)
    } else {
        j
    }
}

/// The bracket that follows position `i` closes a tag.
pub open spec fn closed_at(s: Seq<char>, i: int) -> bool {
    next_bracket(s, i + 1) < s.len() && s[next_bracket(s, i + 1)] == '>'
}

/// Every `<` of the text is followed by a `>` before the next `<`.
pub open spec fn well_bracketed(s: Seq<char>) -> bool {
    forall|i: int| 0 <= i < s.len() && s[i] == '<' ==> #[trigger] closed_at(s, i)
}

/// `q` is the start of a tag: a `<` and then no bracket.
pub open spec fn opener(q: Seq<char>) -> bool {
    q.len() > 0 && q[0] == '<' && forall|k: int| 1 <= k < q.len() ==> !is_bracket(#[trigger] q[k])
}

/// The number of positions from `from` on where `q` stands in `s`.
pub open spec fn count_from(s: Seq<char>, q: Seq<char>, from: int) -> nat
    decreases s.len() + 1 - from,
{
    if from + q.len() > s.len() {
        0
    } else if occurs_at(s, q, from) {
        1 + count_from(s, q, from + 1)
    } else {
        count_from(s, q, from + 1)
    }
}

/// The number of positions where `q` stands in `s`.
pub open spec fn count(s: Seq<char>, q: Seq<char>) -> nat {
    count_from(s, q, 0)
}

/// What `next_bracket` finds is the first bracket from `j` on.
pub proof fn lemma_next_bracket(s: Seq<char>, j: int)
    requires
        0 <= j <= s.len(),
    ensures
        j <= next_bracket(s, j) <= s.len(),
        forall|k: int| j <= k < next_bracket(s, j) ==> !is_bracket(#[trigger] s[k]),
        next_bracket(s, j) < s.len() ==> is_bracket(s[next_bracket(s, j)]),
    decreases s.len() - j,
{
    if j < s.len() && !is_bracket(s[j]) {
        lemma_next_bracket(s, j + 1);
    }
}

/// The first bracket from `j` on is what `next_bracket` finds.
pub proof fn lemma_next_bracket_is(s: Seq<char>, j: int, r: int)
    requires
        0 <= j <= r <= s.len(),
        forall|k: int| j <= k < r ==> !is_bracket(#[trigger] s[k]),
        r == s.len() || is_bracket(s[r]),
    ensures
        next_bracket(s, j) == r,
    decreases r - j,
{
    if j < r {
        lemma_next_bracket_is(s, j + 1, r);
    }
}

/// A pattern of one character stands where that character stands.
pub proof fn lemma_one_char(s: Seq<char>, c: char, k: int)
    ensures
        occurs_at(s, seq![c], k) <==> (0 <= k < s.len() && s[k] == c),
{
    if occurs_at(s, seq![c], k) {
        assert(s.subrange(k, k + 1)[0] == seq![c][0]);
    }
    if 0 <= k < s.len() && s[k] == c {
        assert(s.subrange(k, k + 1) =~= seq![c]);
    }
}

/// Where `q` stands in `s`, the characters of `s` are those of `q`.
pub proof fn lemma_occurrence(s: Seq<char>, q: Seq<char>, a: int)
    requires
        occurs_at(s, q, a),
    ensures
        forall|k: int| 0 <= k < q.len() ==> #[trigger] s[a + k] == q[k],
{
    assert forall|k: int| 0 <= k < q.len() implies #[trigger] s[a + k] == q[k] by {
        assert(s.subrange(a, a + q.len())[k] == q[k]);
    }
}

/// In a well-bracketed text the tag that opens with `q` at `a` closes: the
/// first `>` from `a` on is the first bracket after `a`, and it comes after
/// `q`.
pub proof fn lemma_tag_closes(s: Seq<char>, q: Seq<char>, a: int)
    requires
        well_bracketed(s),
        opener(q),
        occurs_at(s, q, a),
    ensures
        a + q.len() <= next_bracket(s, a + 1) < s.len(),
        s[a] == '<',
        s[next_bracket(s, a + 1)] == '>',
        find_from(s, seq!['>'], a) == Some(next_bracket(s, a + 1)),
{
    let g = next_bracket(s, a + 1);
    lemma_occurrence(s, q, a);
    assert(s[a + 0] == q[0]);
    assert(closed_at(s, a));
    lemma_next_bracket(s, a + 1);
    if g < a + q.len() {
        assert(s[a + (g - a)] == q[g - a]);
        assert(!is_bracket(q[g - a]));
    }
    lemma_find_from(s, seq!['>'], a);
    lemma_one_char(s, '>', g);
    match find_from(s, seq!['>'], a) {
        Some(i) => {
            lemma_one_char(s, '>', i);
            if i < g {
                if i > a {
                    assert(!is_bracket(s[i]));
                }
            }
        },
        None => {},
    }
}

/// Cutting a tag out of a well-bracketed text leaves it well-bracketed.
pub proof fn lemma_cut_keeps_brackets(s: Seq<char>, a: int, g: int)
    requires
        well_bracketed(s),
        0 <= a < g < s.len(),
        s[a] == '<',
        g == next_bracket(s, a + 1),
    ensures
        well_bracketed(splice(s, a, g + 1, Seq::empty())),
{
    let t = splice(s, a, g + 1, Seq::empty());
    let d = g + 1 - a;
    assert(t.len() == s.len() - d);
    assert forall|i: int| 0 <= i < t.len() && t[i] == '<' implies #[trigger] closed_at(t, i) by {
        if i < a {
            assert(t[i] == s[i]);
            assert(closed_at(s, i));
            let j = next_bracket(s, i + 1);
            lemma_next_bracket(s, i + 1);
            if j >= a {
                if j > a {
                    assert(!is_bracket(s[a]));
                }
            }
            assert(j < a);
            assert forall|k: int| i + 1 <= k < j implies !is_bracket(#[trigger] t[k]) by {
                assert(t[k] == s[k]);
            }
            assert(t[j] == s[j]);
            lemma_next_bracket_is(t, i + 1, j);
        } else {
            assert(t[i] == s[i + d]);
            assert(closed_at(s, i + d));
            let j = next_bracket(s, i + d + 1);
            lemma_next_bracket(s, i + d + 1);
            assert forall|k: int| i + 1 <= k < j - d implies !is_bracket(#[trigger] t[k]) by {
                assert(t[k] == s[k + d]);
            }
            assert(t[j - d] == s[j]);
            lemma_next_bracket_is(t, i + 1, j - d);
        }
    }
}

/// A tag start that stands in the text after a cut stood in the text
/// before it: in front of the cut at the same place, behind it further
/// back. The cut joins no new one.
pub proof fn lemma_cut_joins_nothing(s: Seq<char>, q: Seq<char>, a: int, g: int, p: int)
    requires
        well_bracketed(s),
        opener(q),
        0 <= a < g < s.len(),
        s[a] == '<',
        occurs_at(splice(s, a, g + 1, Seq::empty()), q, p),
    ensures
        if p < a {
            p + q.len() <= a && occurs_at(s, q, p)
        } else {
            occurs_at(s, q, p + (g + 1 - a))
        },
{
    let t = splice(s, a, g + 1, Seq::empty());
    let d = g + 1 - a;
    lemma_occurrence(t, q, p);
    if p >= a {
        assert(s.subrange(p + d, p + d + q.len()) =~= q) by {
            assert forall|k: int| 0 <= k < q.len() implies s.subrange(p + d, p + d + q.len())[k]
                == q[k] by {
                assert(t[p + k] == s[p + k + d]);
            }
        }
    } else if p + q.len() <= a {
        assert(s.subrange(p, p + q.len()) =~= q) by {
            assert forall|k: int| 0 <= k < q.len() implies s.subrange(p, p + q.len())[k]
                == q[k] by {
                assert(t[p + k] == s[p + k]);
            }
        }
    } else {
        assert(t[p + 0] == q[0]);
        assert(s[p] == '<');
        assert(closed_at(s, p));
        assert forall|k: int| p + 1 <= k < a implies !is_bracket(#[trigger] s[k]) by {
            assert(t[p + (k - p)] == q[k - p]);
            assert(s[k] == t[k]);
        }
        lemma_next_bracket_is(s, p + 1, a);
        assert(false);
    }
}

/// Where `q` stands nowhere from `from` up to `to`, counting from either
/// gives the same.
pub proof fn lemma_count_skip(s: Seq<char>, q: Seq<char>, from: int, to: int)
    requires
        from <= to,
        to + q.len() <= s.len() || forall|j: int| to <= j ==> !occurs_at(s, q, j),
        forall|j: int| from <= j < to ==> !occurs_at(s, q, j),
    ensures
        count_from(s, q, from) == count_from(s, q, to),
    decreases to - from,
{
    if from < to {
        lemma_count_skip(s, q, from + 1, to);
        if from + q.len() > s.len() {
            lemma_count_nothing(s, q, to);
        }
    }
}

/// Where `q` stands nowhere from `from` on, the count is zero.
pub proof fn lemma_count_nothing(s: Seq<char>, q: Seq<char>, from: int)
    requires
        forall|j: int| from <= j ==> !occurs_at(s, q, j),
    ensures
        count_from(s, q, from) == 0,
    decreases s.len() + 1 - from,
{
    if from + q.len() <= s.len() {
        lemma_count_nothing(s, q, from + 1);
    }
}

/// Counting from further back never gives more.
pub proof fn lemma_count_monotone(s: Seq<char>, q: Seq<char>, i: int, j: int)
    requires
        i <= j,
    ensures
        count_from(s, q, j) <= count_from(s, q, i),
    decreases j - i,
{
    if i < j {
        lemma_count_monotone(s, q, i + 1, j);
        if i + q.len() > s.len() {
            assert(count_from(s, q, j) == 0);
        }
    }
}

/// Behind a text `x`, counting goes as in what follows alone.
pub proof fn lemma_count_behind(x: Seq<char>, y: Seq<char>, q: Seq<char>, k: int)
    requires
        0 <= k,
    ensures
        count_from(x + y, q, x.len() + k) == count_from(y, q, k),
    decreases y.len() + 1 - k,
{
    if k + q.len() <= y.len() {
        lemma_count_behind(x, y, q, k + 1);
        assert((x + y).subrange(x.len() + k, x.len() + k + q.len()) =~= y.subrange(
            k,
            k + q.len(),
        ));
    }
}

/// One character is counted in two joined texts as often as in both.
pub proof fn lemma_count_joined(x: Seq<char>, y: Seq<char>, c: char, from: int)
    requires
        0 <= from <= x.len(),
    ensures
        count_from(x + y, seq![c], from) == count_from(x, seq![c], from) + count(y, seq![c]),
    decreases x.len() - from,
{
    if from < x.len() {
        lemma_count_joined(x, y, c, from + 1);
        lemma_one_char(x + y, c, from);
        lemma_one_char(x, c, from);
        assert((x + y)[from] == x[from]);
        if from + 1 > y.len() + x.len() {
        }
    } else {
        lemma_count_behind(x, y, seq![c], 0);
        assert(count_from(x, seq![c], from) == 0);
    }
}

/// A text holds a pattern that is not empty no more often than it has
/// characters.
pub proof fn lemma_count_bound(s: Seq<char>, q: Seq<char>, from: int)
    requires
        0 <= from,
        q.len() > 0,
    ensures
        count_from(s, q, from) <= if from <= s.len() {
            s.len() - from
        } else {
            0
        },
    decreases s.len() + 1 - from,
{
    if from + q.len() <= s.len() {
        lemma_count_bound(s, q, from + 1);
    }
}

/// A text holds `q` exactly when the count of `q` is not zero.
pub proof fn lemma_count_zero(s: Seq<char>, q: Seq<char>)
    ensures
        count(s, q) == 0 <==> !occurs(s, q),
{
    lemma_find_from(s, q, 0);
    match find_from(s, q, 0) {
        Some(a) => {
            lemma_count_skip(s, q, 0, a);
        },
        None => {
            lemma_count_nothing(s, q, 0);
        },
    }
}

/// Where every occurrence in `t` from `a` on has one in `s`, `d` further
/// back, `t` counts no more from `a` than `s` does from `a + d`.
pub proof fn lemma_count_shifted(t: Seq<char>, s: Seq<char>, q: Seq<char>, a: int, d: int)
    requires
        d >= 0,
        t.len() + d == s.len(),
        forall|p: int| a <= p && occurs_at(t, q, p) ==> occurs_at(s, q, p + d),
    ensures
        count_from(t, q, a) <= count_from(s, q, a + d),
    decreases t.len() + 1 - a,
{
    if a + q.len() <= t.len() {
        lemma_count_shifted(t, s, q, a + 1, d);
    }
}

/// Cutting a tag out of a well-bracketed text leaves no more tag starts of
/// any kind than there were.
pub proof fn lemma_cut_counts(s: Seq<char>, q: Seq<char>, a: int, g: int, from: int)
    requires
        well_bracketed(s),
        opener(q),
        0 <= a < g < s.len(),
        s[a] == '<',
        0 <= from <= a,
    ensures
        count_from(splice(s, a, g + 1, Seq::empty()), q, from) <= count_from(s, q, from),
    decreases a - from,
{
    let t = splice(s, a, g + 1, Seq::empty());
    let d = g + 1 - a;
    if from < a {
        lemma_cut_counts(s, q, a, g, from + 1);
        if occurs_at(t, q, from) {
            lemma_cut_joins_nothing(s, q, a, g, from);
        }
    } else {
        assert forall|p: int| a <= p && occurs_at(t, q, p) implies occurs_at(s, q, p + d) by {
            lemma_cut_joins_nothing(s, q, a, g, p);
        }
        lemma_count_shifted(t, s, q, a, d);
        lemma_count_monotone(s, q, a, a + d);
    }
}

/// Cutting the first tag of its kind out of a well-bracketed text leaves
/// fewer starts of that kind.
pub proof fn lemma_cut_counts_down(s: Seq<char>, q: Seq<char>, a: int, g: int)
    requires
        well_bracketed(s),
        opener(q),
        0 <= a < g < s.len(),
        find_from(s, q, 0) == Some(a),
    ensures
        count(splice(s, a, g + 1, Seq::empty()), q) < count(s, q),
{
    let t = splice(s, a, g + 1, Seq::empty());
    let d = g + 1 - a;
    lemma_find_from(s, q, 0);
    lemma_occurrence(s, q, a);
    assert(s[a + 0] == q[0]);
    assert forall|p: int| 0 <= p < a implies !occurs_at(t, q, p) by {
        if occurs_at(t, q, p) {
            lemma_cut_joins_nothing(s, q, a, g, p);
        }
    }
    assert forall|p: int| a <= p && occurs_at(t, q, p) implies occurs_at(s, q, p + d) by {
        lemma_cut_joins_nothing(s, q, a, g, p);
    }
    if a + q.len() <= t.len() {
        lemma_count_skip(t, q, 0, a);
    } else {
        assert forall|j: int| 0 <= j implies !occurs_at(t, q, j) by {
            if occurs_at(t, q, j) {
                assert(j + q.len() <= t.len());
            }
        }
        lemma_count_nothing(t, q, 0);
        lemma_count_nothing(t, q, a);
    }
    lemma_count_shifted(t, s, q, a, d);
    lemma_count_monotone(s, q, a + 1, a + d);
    lemma_count_skip(s, q, 0, a);
}

/// A pass that cuts the tags that open with `rule.open` out of a
/// well-bracketed text leaves it well-bracketed and with no more starts of
/// any tag than it had; with a budget of at least as many steps as the text
/// has such tags, it leaves none of them.
pub proof fn lemma_tags_cut(rule: Span, s: Seq<char>, fuel: nat, q: Seq<char>)
    requires
        well_bracketed(s),
        opener(rule.open@),
        rule.close@ == seq!['>'],
        opener(q),
    ensures
        well_bracketed(rewritten(rule, s, fuel)),
        count(rewritten(rule, s, fuel), q) <= count(s, q),
        count(s, rule.open@) <= fuel ==> !occurs(rewritten(rule, s, fuel), rule.open@),
    decreases fuel,
{
    let open = rule.open@;
    lemma_find_from(s, open, 0);
    lemma_count_zero(s, open);
    match find_from(s, open, 0) {
        Some(a) => {
            lemma_tag_closes(s, open, a);
            let g = next_bracket(s, a + 1);
            let t = splice(s, a, g + 1, Seq::empty());
            assert(rule.step(s) == Some(t));
            lemma_cut_keeps_brackets(s, a, g);
            lemma_cut_counts(s, q, a, g, 0);
            lemma_cut_counts_down(s, open, a, g);
            if fuel > 0 {
                lemma_tags_cut(rule, t, (fuel - 1) as nat, q);
            }
        },
        None => {
            assert(rule.step(s) is None);
        },
    }
}

} // verus!
