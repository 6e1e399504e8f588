//! Bounded scan-and-replace passes.
//!
//! A pass looks for the first instance of one kind of element, rewrites it,
//! and starts over on the rewritten text. It stops when nothing is left to
//! rewrite or when its budget of steps is used up, so a malformed text can
//! never keep it running.

use vstd::prelude::*;
use crate::text::{
    append, chars_of, find, find_from, index_of, lemma_find_from, splice, spliced, text_of,
};

verus! {

/// The number of steps that one pass may take.
pub const MAX_ITERATIONS: usize = 1000;

/// One kind of rewriting step.
pub trait Rewrite {
    /// What one step makes of `s`; `None` where it finds nothing to rewrite.
    spec fn step(&self, s: Seq<char>) -> Option<Seq<char>>;

    /// Takes one step on `s`.
    fn apply(&self, s: &Vec<char>) -> (r: Option<Vec<char>>)
        ensures
            text_of(r) == self.step(s@),
    ;
}

/// The text after at most `fuel` steps of `rule`, stopping early where a
/// step finds nothing to rewrite.
pub open spec fn rewritten<R: Rewrite>(rule: R, s: Seq<char>, fuel: nat) -> Seq<char>
    decreases fuel,
{
    if fuel == 0 {
        s
    } else {
        match rule.step(s) {
            Some(t) => rewritten(rule, t, (fuel - 1) as nat),
            None => s,
        }
    }
}

/// The number of steps that `rule` takes on `s` when it may take `fuel`.
pub open spec fn steps<R: Rewrite>(rule: R, s: Seq<char>, fuel: nat) -> nat
    decreases fuel,
{
    if fuel == 0 {
        0
    } else {
        match rule.step(s) {
            Some(t) => 1 + steps(rule, t, (fuel - 1) as nat),
            None => 0,
        }
    }
}

/// The text after the steps of `rule` that shorten it, taken until one finds
/// nothing to rewrite or would not shorten the text any more.
pub open spec fn exhausted<R: Rewrite>(rule: R, s: Seq<char>) -> Seq<char>
    decreases s.len(),
{
    match rule.step(s) {
        Some(t) => if t.len() < s.len() {
            exhausted(rule, t)
        } else {
            s
        },
        None => s,
    }
}

/// A pass takes no more steps than it may.
pub proof fn lemma_steps_bounded<R: Rewrite>(rule: R, s: Seq<char>, fuel: nat)
    ensures
        steps(rule, s, fuel) <= fuel,
    decreases fuel,
{
    if fuel > 0 {
        match rule.step(s) {
            Some(t) => {
                lemma_steps_bounded(rule, t, (fuel - 1) as nat);
            },
            None => {},
        }
    }
}

/// Where a rule finds nothing to rewrite, the text stays as it is.
pub proof fn lemma_nothing_to_rewrite<R: Rewrite>(rule: R, s: Seq<char>, fuel: nat)
    requires
        rule.step(s) is None,
    ensures
        rewritten(rule, s, fuel) == s,
{
}

/// A step of the rule on `s`, if there is one, shortens the text.
pub open spec fn shortens<R: Rewrite>(rule: R, s: Seq<char>) -> bool {
    match rule.step(s) {
        Some(t) => t.len() < s.len(),
        None => true,
    }
}

/// Every step of the rule shortens the text.
pub open spec fn shrinking<R: Rewrite>(rule: R) -> bool {
    forall|s: Seq<char>| #[trigger] shortens(rule, s)
}

/// Exhausting a rule never lengthens the text.
pub proof fn lemma_exhausted_len<R: Rewrite>(rule: R, s: Seq<char>)
    ensures
        exhausted(rule, s).len() <= s.len(),
    decreases s.len(),
{
    match rule.step(s) {
        Some(t) => {
            if t.len() < s.len() {
                lemma_exhausted_len(rule, t);
            }
        },
        None => {},
    }
}

/// A rule whose every step shortens the text is exhausted only when it
/// finds nothing to rewrite any more.
pub proof fn lemma_exhausted_stable<R: Rewrite>(rule: R, s: Seq<char>)
    requires
        shrinking(rule),
    ensures
        rule.step(exhausted(rule, s)) is None,
    decreases s.len(),
{
    assert(shortens(rule, s));
    match rule.step(s) {
        Some(t) => {
            lemma_exhausted_stable(rule, t);
        },
        None => {},
    }
}

/// The span of an element lies inside the text and holds one of the two
/// closing marks.
pub proof fn lemma_element_span(s: Seq<char>, open: Seq<char>, close: Seq<char>, other: Seq<char>)
    ensures
        element_span(s, open, close, other) matches Some((a, b)) ==> 0 <= a <= b <= s.len() && (a
            + close.len() <= b || a + other.len() <= b),
{
    lemma_find_from(s, open, 0);
    match find_from(s, open, 0) {
        Some(a) => {
            lemma_find_from(s, close, a);
            lemma_find_from(s, other, a);
        },
        None => {},
    }
}

/// Cutting a span with a closing mark that is not empty shortens the text.
pub proof fn lemma_span_shrinks(rule: Span)
    requires
        rule.close@.len() > 0,
    ensures
        shrinking(rule),
{
    assert forall|s: Seq<char>| #[trigger] shortens(rule, s) by {
        lemma_find_from(s, rule.open@, 0);
        match find_from(s, rule.open@, 0) {
            Some(a) => {
                lemma_find_from(s, rule.close@, a);
            },
            None => {},
        }
    }
}

/// Runs `rule` on `text` for at most `limit` steps, and counts the steps
/// that it takes.
pub fn rewrite_counted<R: Rewrite>(rule: &R, text: &Vec<char>, limit: usize) -> (r: (
    Vec<char>,
    usize,
))
    ensures
        r.0@ == rewritten(*rule, text@, limit as nat),
        r.1 == steps(*rule, text@, limit as nat),
        r.1 <= limit,
{
    let mut result: Vec<char> = Vec::new();
    append(&mut result, text);
    assert(result@ =~= text@);
    let mut taken: usize = 0;
    let mut done = false;
    while taken < limit && !done
        invariant
            taken <= limit,
            rewritten(*rule, text@, limit as nat) == rewritten(
                *rule,
                result@,
                (limit - taken) as nat,
            ),
            steps(*rule, text@, limit as nat) == taken + steps(
                *rule,
                result@,
                (limit - taken) as nat,
            ),
            done ==> rule.step(result@) is None,
        decreases limit - taken + (if done { 0int } else { 1int }),
    {
        match rule.apply(&result) {
            Some(t) => {
                result = t;
                taken += 1;
            },
            None => {
                done = true;
            },
        }
    }
    (result, taken)
}

/// Runs `rule` on `text` for at most `limit` steps.
pub fn rewrite_all<R: Rewrite>(rule: &R, text: &Vec<char>, limit: usize) -> (r: Vec<char>)
    ensures
        r@ == rewritten(*rule, text@, limit as nat),
{
    rewrite_counted(rule, text, limit).0
}

/// Runs `rule` on `text` for as long as its steps shorten the text.
pub fn rewrite_shrinking<R: Rewrite>(rule: &R, text: &Vec<char>) -> (r: Vec<char>)
    ensures
        r@ == exhausted(*rule, text@),
{
    let mut result: Vec<char> = Vec::new();
    append(&mut result, text);
    assert(result@ =~= text@);
    let mut done = false;
    while !done
        invariant
            exhausted(*rule, text@) == exhausted(*rule, result@),
            done ==> exhausted(*rule, result@) == result@,
        decreases result.len() + (if done { 0int } else { 1int }),
    {
        match rule.apply(&result) {
            Some(t) => {
                if t.len() < result.len() {
                    result = t;
                } else {
                    done = true;
                }
            },
            None => {
                done = true;
            },
        }
    }
    result
}

/// The position after the first `close` found in `s` from `start` on.
pub open spec fn end_of(s: Seq<char>, start: int, close: Seq<char>) -> Option<int> {
    match find_from(s, close, start) {
        Some(e) => Some(e + close.len()),
        None => None,
    }
}

/// The span of the first element of one kind: it opens with the first
/// `open` and ends after the first `close` found from there on, or, where
/// there is none, after the first `other`.
pub open spec fn element_span(
    s: Seq<char>,
    open: Seq<char>,
    close: Seq<char>,
    other: Seq<char>,
) -> Option<(int, int)> {
    match find_from(s, open, 0) {
        None => None,
        Some(a) => match end_of(s, a, close) {
            Some(b) => Some((a, b)),
            None => match end_of(s, a, other) {
                Some(b) => Some((a, b)),
                None => None,
            },
        },
    }
}

/// Finds the end of the element that opens at `start`.
pub fn find_end(s: &Vec<char>, start: usize, close: &str) -> (r: Option<usize>)
    ensures
        index_of(r) == end_of(s@, start as int, close@),
        r matches Some(b) ==> start + close@.len() <= b <= s.len(),
{
    let c = chars_of(close);
    match find(s, &c, start) {
        Some(e) => Some(e + c.len()),
        None => None,
    }
}

/// Finds the span of the first element of one kind.
pub fn first_element(
    s: &Vec<char>,
    open: &str,
    close: &str,
    other: &str,
) -> (r: Option<(usize, usize)>)
    ensures
        match r {
            Some((a, b)) => element_span(s@, open@, close@, other@) == Some((a as int, b as int))
                && a <= b <= s.len(),
            None => element_span(s@, open@, close@, other@) is None,
        },
{
    let o = chars_of(open);
    match find(s, &o, 0) {
        None => None,
        Some(a) => match find_end(s, a, close) {
            Some(b) => Some((a, b)),
            None => match find_end(s, a, other) {
                Some(b) => Some((a, b)),
                None => None,
            },
        },
    }
}

/// Cuts out the first span that opens with `open` and runs through the
/// first `close` found from there on.
pub struct Span {
    pub open: &'static str,
    pub close: &'static str,
}

/// `s` without its first span from `open` through the next `close`; `None`
/// where `open` does not occur or no `close` follows.
pub open spec fn cut_span(s: Seq<char>, open: Seq<char>, close: Seq<char>) -> Option<Seq<char>> {
    match find_from(s, open, 0) {
        Some(a) => match find_from(s, close, a) {
            Some(b) => Some(splice(s, a, b + close.len(), Seq::empty())),
            None => None,
        },
        None => None,
    }
}

impl Rewrite for Span {
    open spec fn step(&self, s: Seq<char>) -> Option<Seq<char>> {
        cut_span(s, self.open@, self.close@)
    }

    fn apply(&self, s: &Vec<char>) -> (r: Option<Vec<char>>) {
        let open = chars_of(self.open);
        let close = chars_of(self.close);
        match find(s, &open, 0) {
            Some(a) => match find(s, &close, a) {
                Some(b) => Some(spliced(s, a, b + close.len(), &Vec::new())),
                None => None,
            },
            None => None,
        }
    }
}

/// Cuts out the first container element: from `open` through the first
/// `close` found from there on, or, where none follows, the opening tag
/// alone, through its `>`.
pub struct Container {
    pub open: &'static str,
    pub close: &'static str,
}

/// `s` without its first container; `None` where `open` does not occur or
/// neither `close` nor a `>` follows.
pub open spec fn cut_container(
    s: Seq<char>,
    open: Seq<char>,
    close: Seq<char>,
) -> Option<Seq<char>> {
    match cut_span(s, open, close) {
        Some(t) => Some(t),
        None => cut_span(s, open, ">"@),
    }
}

impl Rewrite for Container {
    open spec fn step(&self, s: Seq<char>) -> Option<Seq<char>> {
        cut_container(s, self.open@, self.close@)
    }

    fn apply(&self, s: &Vec<char>) -> (r: Option<Vec<char>>) {
        let paired = Span { open: self.open, close: self.close };
        match paired.apply(s) {
            Some(t) => Some(t),
            None => {
                let lone = Span { open: self.open, close: ">" };
                lone.apply(s)
            },
        }
    }
}

} // verus!
