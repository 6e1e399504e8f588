//! Character-level text primitives.
//!
//! Every routine of the converter works on a text as a sequence of characters
//! (`Vec<char>` at run time, `Seq<char>` in contracts). This module holds the
//! searching, slicing, replacing and trimming that the passes are built from,
//! each with the mathematical function it computes.

use vstd::prelude::*;

verus! {

/// `String::push` of the standard library: appends one character to the end
/// of the string and leaves the characters before it as they were.
pub assume_specification[ String::push ](s: &mut String, c: char)
    ensures
        final(s)@ == old(s)@.push(c),
;

/// The upper-case form of a text, as `str::to_uppercase` gives it.
pub uninterp spec fn uppercase(s: Seq<char>) -> Seq<char>;

/// The lower-case form of a text, as `str::to_lowercase` gives it.
pub uninterp spec fn lowercase(s: Seq<char>) -> Seq<char>;

/// `str::to_uppercase` of the standard library: the upper-case equivalent of
/// the string as a new `String`, a function of its characters alone.
pub assume_specification[ str::to_uppercase ](s: &str) -> (r: String)
    ensures
        r@ == uppercase(s@),
;

/// `str::to_lowercase` of the standard library: the lower-case equivalent of
/// the string as a new `String`, a function of its characters alone.
pub assume_specification[ str::to_lowercase ](s: &str) -> (r: String)
    ensures
        r@ == lowercase(s@),
;

// ---------------------------------------------------------------------------
// Models
// ---------------------------------------------------------------------------

/// `pat` stands in `s` at position `i`.
pub open spec fn occurs_at(s: Seq<char>, pat: Seq<char>, i: int) -> bool {
    0 <= i && i + pat.len() <= s.len() && s.subrange(i, i + pat.len()) =~= pat
}

/// The least position at or after `from` where `pat` stands in `s`.
pub open spec fn find_from(s: Seq<char>, pat: Seq<char>, from: int) -> Option<int>
    decreases s.len() - from,
{
    if from + pat.len() > s.len() {
        None
    } else if occurs_at(s, pat, from) {
        Some(from)
    } else {
        find_from(s, pat, from + 1)
    }
}

/// `pat` stands somewhere in `s`.
pub open spec fn occurs(s: Seq<char>, pat: Seq<char>) -> bool {
    find_from(s, pat, 0) is Some
}

/// `s` with the characters from `a` up to `b` replaced by `r`.
pub open spec fn splice(s: Seq<char>, a: int, b: int, r: Seq<char>) -> Seq<char> {
    s.subrange(0, a) + r + s.subrange(b, s.len() as int)
}

/// The text after the first `open` up to the first `close` that follows it.
pub open spec fn between(s: Seq<char>, open: Seq<char>, close: Seq<char>) -> Option<Seq<char>> {
    match find_from(s, open, 0) {
        Some(i) => match find_from(s, close, i + open.len()) {
            Some(j) => Some(s.subrange(i + open.len(), j)),
            None => None,
        },
        None => None,
    }
}

/// The part of `s` from position `from` on, with every occurrence of `pat`
/// replaced by `with`, the occurrences taken from the left and never
/// overlapping. An empty `pat` replaces nothing.
pub open spec fn replace_from(s: Seq<char>, pat: Seq<char>, with: Seq<char>, from: int) -> Seq<char>
    decreases s.len() - from,
{
    if from < 0 || from >= s.len() {
        Seq::empty()
    } else if pat.len() == 0 {
        s.subrange(from, s.len() as int)
    } else if occurs_at(s, pat, from) {
        with + replace_from(s, pat, with, from + pat.len())
    } else {
        seq![s[from]] + replace_from(s, pat, with, from + 1)
    }
}

/// `s` with every occurrence of `pat` replaced by `with`.
pub open spec fn replace_all(s: Seq<char>, pat: Seq<char>, with: Seq<char>) -> Seq<char> {
    replace_from(s, pat, with, 0)
}

/// The characters that count as white space: the code points with the
/// Unicode property `White_Space`.
pub open spec fn is_space(c: char) -> bool {
    let u = c as u32;
    ||| 0x09 <= u <= 0x0D
    ||| u == 0x20
    ||| u == 0x85
    ||| u == 0xA0
    ||| u == 0x1680
    ||| 0x2000 <= u <= 0x200A
    ||| u == 0x2028
    ||| u == 0x2029
    ||| u == 0x202F
    ||| u == 0x205F
    ||| u == 0x3000
}

/// Every character of `s` is white space.
pub open spec fn is_blank(s: Seq<char>) -> bool {
    forall|i: int| 0 <= i < s.len() ==> is_space(#[trigger] s[i])
}

/// The first position at or after `i` that holds no white space.
pub open spec fn skip_spaces(s: Seq<char>, i: int) -> int
    decreases s.len() - i,
{
    if 0 <= i < s.len() && is_space(s[i]) {
        skip_spaces(s, i + 1)
    } else {
        i
    }
}

/// The end of `s[lo..j]` once the white space at its end is dropped.
pub open spec fn drop_spaces(s: Seq<char>, lo: int, j: int) -> int
    decreases j - lo,
{
    if lo < j <= s.len() && is_space(s[j - 1]) {
        drop_spaces(s, lo, j - 1)
    } else {
        j
    }
}

/// `s` without the white space at its two ends.
pub open spec fn trim(s: Seq<char>) -> Seq<char> {
    let a = skip_spaces(s, 0);
    s.subrange(a, drop_spaces(s, a, s.len() as int))
}

/// The start of the run without white space that ends at or holds `i`.
pub open spec fn run_start(s: Seq<char>, i: int) -> int
    decreases i,
{
    if 0 < i <= s.len() && !is_space(s[i - 1]) {
        run_start(s, i - 1)
    } else {
        i
    }
}

/// The end of the run without white space that starts at or holds `i`.
pub open spec fn run_end(s: Seq<char>, i: int) -> int
    decreases s.len() - i,
{
    if 0 <= i < s.len() && !is_space(s[i]) {
        run_end(s, i + 1)
    } else {
        i
    }
}

/// No character from `a` up to `b` is white space.
pub open spec fn solid(s: Seq<char>, a: int, b: int) -> bool {
    forall|k: int| a <= k < b ==> !is_space(#[trigger] s[k])
}

/// No stretch of more than `limit` characters of the text is free of white
/// space.
pub open spec fn runs_within(s: Seq<char>, limit: nat) -> bool {
    forall|a: int, b: int| 0 <= a <= b <= s.len() && #[trigger] solid(s, a, b) ==> b - a <= limit
}

/// The part of `s` from `i` on without its tags: a `<` opens a tag, a `>`
/// closes one, and neither they nor what stands inside a tag is kept.
pub open spec fn strip_tags_from(s: Seq<char>, i: int, in_tag: bool) -> Seq<char>
    decreases s.len() - i,
{
    if i < 0 || i >= s.len() {
        Seq::empty()
    } else if s[i] == '<' {
        strip_tags_from(s, i + 1, true)
    } else if s[i] == '>' {
        strip_tags_from(s, i + 1, false)
    } else if in_tag {
        strip_tags_from(s, i + 1, true)
    } else {
        seq![s[i]] + strip_tags_from(s, i + 1, false)
    }
}

/// `s` without its tags.
pub open spec fn strip_tags(s: Seq<char>) -> Seq<char> {
    strip_tags_from(s, 0, false)
}

/// The parts joined into one text with `sep` between neighbours.
pub open spec fn join(parts: Seq<Seq<char>>, sep: Seq<char>) -> Seq<char>
    decreases parts.len(),
{
    if parts.len() == 0 {
        Seq::empty()
    } else if parts.len() == 1 {
        parts[0]
    } else {
        join(parts.drop_last(), sep) + sep + parts.last()
    }
}

/// The texts that a list of character vectors holds.
pub open spec fn views(parts: Seq<Vec<char>>) -> Seq<Seq<char>> {
    parts.map_values(|v: Vec<char>| v@)
}

/// A position as a mathematical integer.
pub open spec fn index_of(r: Option<usize>) -> Option<int> {
    match r {
        Some(i) => Some(i as int),
        None => None,
    }
}

/// An optional text as an optional sequence of characters.
pub open spec fn text_of(r: Option<Vec<char>>) -> Option<Seq<char>> {
    match r {
        Some(v) => Some(v@),
        None => None,
    }
}

// ---------------------------------------------------------------------------
// Facts about the models
// ---------------------------------------------------------------------------

/// What `find_from` finds is the first occurrence at or after `from`, and it
/// finds nothing only where there is none.
pub proof fn lemma_find_from(s: Seq<char>, pat: Seq<char>, from: int)
    ensures
        match find_from(s, pat, from) {
            Some(i) => {
                &&& from <= i
                &&& i + pat.len() <= s.len()
                &&& occurs_at(s, pat, i)
                &&& forall|j: int| from <= j < i ==> !occurs_at(s, pat, j)
            },
            None => forall|j: int| from <= j ==> !occurs_at(s, pat, j),
        },
    decreases s.len() - from,
{
    if from + pat.len() > s.len() {
    } else if occurs_at(s, pat, from) {
    } else {
        lemma_find_from(s, pat, from + 1);
    }
}

/// Replacing leaves a text without the pattern as it is.
pub proof fn lemma_replace_absent(s: Seq<char>, pat: Seq<char>, with: Seq<char>, from: int)
    requires
        0 <= from <= s.len(),
        forall|j: int| from <= j ==> !occurs_at(s, pat, j),
    ensures
        replace_from(s, pat, with, from) == s.subrange(from, s.len() as int),
    decreases s.len() - from,
{
    if from >= s.len() {
        assert(s.subrange(from, s.len() as int) =~= Seq::<char>::empty());
    } else if pat.len() == 0 {
    } else {
        lemma_replace_absent(s, pat, with, from + 1);
        assert(seq![s[from]] + s.subrange(from + 1, s.len() as int) =~= s.subrange(
            from,
            s.len() as int,
        ));
    }
}

/// A text that does not hold the pattern stays as it is.
pub proof fn lemma_replace_nothing(s: Seq<char>, pat: Seq<char>, with: Seq<char>)
    requires
        !occurs(s, pat),
    ensures
        replace_all(s, pat, with) == s,
{
    lemma_find_from(s, pat, 0);
    lemma_replace_absent(s, pat, with, 0);
    assert(s.subrange(0, s.len() as int) =~= s);
}

/// A text that does not hold a part of a pattern does not hold the
/// pattern.
pub proof fn lemma_part_absent(s: Seq<char>, pat: Seq<char>, part: Seq<char>, k: int)
    requires
        occurs_at(pat, part, k),
        !occurs(s, part),
    ensures
        !occurs(s, pat),
{
    lemma_find_from(s, pat, 0);
    lemma_find_from(s, part, 0);
    if find_from(s, pat, 0) is Some {
        let i = find_from(s, pat, 0)->0;
        assert(s.subrange(i + k, i + k + part.len()) =~= s.subrange(i, i + pat.len()).subrange(
            k,
            k + part.len(),
        ));
        assert(occurs_at(s, part, i + k));
    }
}

/// A text that does not hold the start of a pattern does not hold the
/// pattern.
pub proof fn lemma_start_absent(s: Seq<char>, pat: Seq<char>, start: Seq<char>)
    requires
        occurs_at(pat, start, 0),
        !occurs(s, start),
    ensures
        !occurs(s, pat),
{
    lemma_part_absent(s, pat, start, 0);
}

/// What stands between two marks is shorter than the text by at least the
/// two marks.
pub proof fn lemma_between_len(s: Seq<char>, open: Seq<char>, close: Seq<char>)
    ensures
        between(s, open, close) matches Some(x) ==> x.len() + open.len() + close.len() <= s.len(),
{
    lemma_find_from(s, open, 0);
    match find_from(s, open, 0) {
        Some(i) => {
            lemma_find_from(s, close, i + open.len());
        },
        None => {},
    }
}

/// Replacing by the empty text never lengthens.
pub proof fn lemma_replace_with_nothing_len(s: Seq<char>, pat: Seq<char>, from: int)
    requires
        0 <= from <= s.len(),
    ensures
        replace_from(s, pat, Seq::empty(), from).len() <= s.len() - from,
    decreases s.len() - from,
{
    if from >= s.len() {
    } else if pat.len() == 0 {
    } else if occurs_at(s, pat, from) {
        lemma_replace_with_nothing_len(s, pat, from + pat.len());
    } else {
        lemma_replace_with_nothing_len(s, pat, from + 1);
    }
}

/// `skip_spaces` stops inside the text, past white space only, and on a
/// character that is none.
pub proof fn lemma_skip_spaces(s: Seq<char>, i: int)
    requires
        0 <= i <= s.len(),
    ensures
        i <= skip_spaces(s, i) <= s.len(),
        forall|k: int| i <= k < skip_spaces(s, i) ==> is_space(#[trigger] s[k]),
        skip_spaces(s, i) < s.len() ==> !is_space(s[skip_spaces(s, i)]),
    decreases s.len() - i,
{
    if i < s.len() && is_space(s[i]) {
        lemma_skip_spaces(s, i + 1);
    }
}

/// `drop_spaces` stops at or after `lo`, before white space only, and after
/// a character that is none.
pub proof fn lemma_drop_spaces(s: Seq<char>, lo: int, j: int)
    requires
        0 <= lo <= j <= s.len(),
    ensures
        lo <= drop_spaces(s, lo, j) <= j,
        forall|k: int| drop_spaces(s, lo, j) <= k < j ==> is_space(#[trigger] s[k]),
        lo < drop_spaces(s, lo, j) ==> !is_space(s[drop_spaces(s, lo, j) - 1]),
    decreases j - lo,
{
    if lo < j && is_space(s[j - 1]) {
        lemma_drop_spaces(s, lo, j - 1);
    }
}

/// Trimming never lengthens.
pub proof fn lemma_trim_len(s: Seq<char>)
    ensures
        trim(s).len() <= s.len(),
{
    lemma_skip_spaces(s, 0);
    lemma_drop_spaces(s, skip_spaces(s, 0), s.len() as int);
}

/// A run starts at or before every position that it holds.
pub proof fn lemma_run_start_bound(s: Seq<char>, i: int)
    requires
        0 <= i <= s.len(),
    ensures
        0 <= run_start(s, i) <= i,
    decreases i,
{
    if 0 < i && !is_space(s[i - 1]) {
        lemma_run_start_bound(s, i - 1);
    }
}

/// A run ends inside the text, and up to its end it is free of white
/// space.
pub proof fn lemma_run_solid(s: Seq<char>, i: int)
    requires
        0 <= i <= s.len(),
    ensures
        i <= run_end(s, i) <= s.len(),
        solid(s, i, run_end(s, i)),
    decreases s.len() - i,
{
    if i < s.len() && !is_space(s[i]) {
        lemma_run_solid(s, i + 1);
    }
}

/// A stretch that is free of white space ends no later than the run that
/// starts where it starts.
pub proof fn lemma_solid_in_run(s: Seq<char>, a: int, b: int)
    requires
        0 <= a <= b <= s.len(),
        solid(s, a, b),
    ensures
        b <= run_end(s, a),
    decreases b - a,
{
    if a < b {
        assert(!is_space(s[a]));
        assert(solid(s, a + 1, b));
        lemma_solid_in_run(s, a + 1, b);
    } else {
        lemma_run_solid(s, a);
    }
}

/// Behind one character, a run ends where it ends in what follows alone.
pub proof fn lemma_run_end_behind(c: char, t: Seq<char>, k: int)
    requires
        0 <= k <= t.len(),
    ensures
        run_end(seq![c] + t, 1 + k) == 1 + run_end(t, k),
    decreases t.len() - k,
{
    let u = seq![c] + t;
    if k < t.len() {
        assert(u[1 + k] == t[k]);
        if !is_space(t[k]) {
            lemma_run_end_behind(c, t, k + 1);
        }
    }
}

/// The empty text has no stretch of any length.
pub proof fn lemma_short_empty(limit: nat)
    ensures
        runs_within(Seq::<char>::empty(), limit),
        run_end(Seq::<char>::empty(), 0) == 0,
{
}

/// A character in front of a text whose stretches are short leaves them
/// short, if it is white space or the run at the start of the text is
/// shorter than the limit.
pub proof fn lemma_short_cons(c: char, t: Seq<char>, limit: nat)
    requires
        runs_within(t, limit),
        is_space(c) || run_end(t, 0) < limit,
    ensures
        runs_within(seq![c] + t, limit),
        run_end(seq![c] + t, 0) == if is_space(c) {
            0
        } else {
            1 + run_end(t, 0)
        },
{
    let u = seq![c] + t;
    assert(u[0] == c);
    lemma_run_end_behind(c, t, 0);
    assert forall|a: int, b: int| 0 <= a <= b <= u.len() && #[trigger] solid(u, a, b) implies b
        - a <= limit by {
        if a >= 1 {
            assert forall|k: int| a - 1 <= k < b - 1 implies !is_space(#[trigger] t[k]) by {
                assert(u[k + 1] == t[k]);
            }
            assert(solid(t, a - 1, b - 1));
        } else if b > 0 {
            assert(!is_space(u[0]));
            assert forall|k: int| 0 <= k < b - 1 implies !is_space(#[trigger] t[k]) by {
                assert(u[k + 1] == t[k]);
            }
            assert(solid(t, 0, b - 1));
            lemma_solid_in_run(t, 0, b - 1);
        }
    }
}

/// A part of a text whose stretches are short has short stretches.
pub proof fn lemma_short_part(s: Seq<char>, a: int, b: int, limit: nat)
    requires
        0 <= a <= b <= s.len(),
        runs_within(s, limit),
    ensures
        runs_within(s.subrange(a, b), limit),
{
    let t = s.subrange(a, b);
    assert forall|x: int, y: int| 0 <= x <= y <= t.len() && #[trigger] solid(t, x, y) implies y
        - x <= limit by {
        assert forall|k: int| a + x <= k < a + y implies !is_space(#[trigger] s[k]) by {
            assert(t[k - a] == s[k]);
        }
        assert(solid(s, a + x, a + y));
    }
}

/// Two texts whose stretches are short, with a white space between them,
/// make a text whose stretches are short.
pub proof fn lemma_short_parted(x: Seq<char>, c: char, y: Seq<char>, limit: nat)
    requires
        runs_within(x, limit),
        runs_within(y, limit),
        is_space(c),
    ensures
        runs_within(x + seq![c] + y, limit),
{
    let u = x + seq![c] + y;
    let n = x.len() as int;
    assert(u[n] == c);
    assert forall|a: int, b: int| 0 <= a <= b <= u.len() && #[trigger] solid(u, a, b) implies b
        - a <= limit by {
        if b <= n {
            assert forall|k: int| a <= k < b implies !is_space(#[trigger] x[k]) by {
                assert(u[k] == x[k]);
            }
            assert(solid(x, a, b));
        } else if a > n {
            assert forall|k: int| a - n - 1 <= k < b - n - 1 implies !is_space(
                #[trigger] y[k],
            ) by {
                assert(u[k + n + 1] == y[k]);
            }
            assert(solid(y, a - n - 1, b - n - 1));
        } else {
            assert(!is_space(u[n]));
        }
    }
}

/// Replacing a pattern that is free of white space by one character that is
/// none leaves the stretches of a text short; and the run at the start of
/// the result is no longer than the run was in the text.
pub proof fn lemma_replace_short(
    s: Seq<char>,
    pat: Seq<char>,
    with: Seq<char>,
    from: int,
    limit: nat,
)
    requires
        0 <= from <= s.len(),
        runs_within(s, limit),
        pat.len() >= 1,
        solid(pat, 0, pat.len() as int),
        with.len() == 1,
        !is_space(with[0]),
    ensures
        runs_within(replace_from(s, pat, with, from), limit),
        run_end(replace_from(s, pat, with, from), 0) <= run_end(s, from) - from,
    decreases s.len() - from,
{
    lemma_run_solid(s, from);
    if from >= s.len() {
        lemma_short_empty(limit);
    } else if occurs_at(s, pat, from) {
        let next = from + pat.len();
        lemma_replace_short(s, pat, with, next, limit);
        let rest = replace_from(s, pat, with, next);
        assert(with =~= seq![with[0]]);
        assert forall|k: int| from <= k < next implies !is_space(#[trigger] s[k]) by {
            assert(s.subrange(from, next)[k - from] == pat[k - from]);
        }
        assert(solid(s, from, next));
        lemma_solid_in_run(s, from, next);
        lemma_run_same(s, from, next);
        lemma_short_cons(with[0], rest, limit);
    } else {
        lemma_replace_short(s, pat, with, from + 1, limit);
        let rest = replace_from(s, pat, with, from + 1);
        lemma_short_cons(s[from], rest, limit);
    }
}

/// Inside a stretch that is free of white space the run ends where it
/// ends behind the stretch.
pub proof fn lemma_run_same(s: Seq<char>, a: int, b: int)
    requires
        0 <= a <= b <= s.len(),
        solid(s, a, b),
    ensures
        run_end(s, a) == run_end(s, b),
    decreases b - a,
{
    if a < b {
        assert(!is_space(s[a]));
        assert(solid(s, a + 1, b));
        lemma_run_same(s, a + 1, b);
    }
}

// ---------------------------------------------------------------------------
// Conversions
// ---------------------------------------------------------------------------

/// The characters of `s`, in order.
pub fn chars_of(s: &str) -> (r: Vec<char>)
    ensures
        r@ == s@,
{
    broadcast use vstd::string::axiom_spec_iter;

    let mut out: Vec<char> = Vec::new();
    for c in it: s.chars()
        invariant
            it.seq() == s@,
            out@ == s@.take(it.index()),
    {
        out.push(c);
        assert(s@.take(it.index() + 1) =~= s@.take(it.index()).push(c));
    }
    assert(s@.take(s@.len() as int) =~= s@);
    out
}

/// The string made of the characters of `v`, in order.
pub fn string_of(v: &Vec<char>) -> (r: String)
    ensures
        r@ == v@,
{
    let mut out = String::new();
    let mut i: usize = 0;
    while i < v.len()
        invariant
            i <= v.len(),
            out@ == v@.take(i as int),
        decreases v.len() - i,
    {
        out.push(v[i]);
        assert(v@.take(i + 1) =~= v@.take(i as int).push(v@[i as int]));
        i += 1;
    }
    assert(v@.take(v@.len() as int) =~= v@);
    out
}

/// A copy of `v`.
pub fn copy_of(v: &Vec<char>) -> (r: Vec<char>)
    ensures
        r@ == v@,
{
    let mut out: Vec<char> = Vec::new();
    append(&mut out, v);
    assert(Seq::<char>::empty() + v@ =~= v@);
    out
}

/// The upper-case form of `v`.
pub fn upper(v: &Vec<char>) -> (r: Vec<char>)
    ensures
        r@ == uppercase(v@),
{
    let s = string_of(v);
    let u = s.as_str().to_uppercase();
    chars_of(u.as_str())
}

/// The lower-case form of `v`.
pub fn lower(v: &Vec<char>) -> (r: Vec<char>)
    ensures
        r@ == lowercase(v@),
{
    let s = string_of(v);
    let l = s.as_str().to_lowercase();
    chars_of(l.as_str())
}

/// Appends the characters of `src` to `dst`.
pub fn append(dst: &mut Vec<char>, src: &Vec<char>)
    ensures
        final(dst)@ == old(dst)@ + src@,
{
    let mut i: usize = 0;
    while i < src.len()
        invariant
            i <= src.len(),
            dst@ == old(dst)@ + src@.take(i as int),
        decreases src.len() - i,
    {
        dst.push(src[i]);
        assert(old(dst)@ + src@.take(i + 1) =~= (old(dst)@ + src@.take(i as int)).push(
            src@[i as int],
        ));
        i += 1;
    }
    assert(src@.take(src@.len() as int) =~= src@);
}

/// Appends the characters of `s` to `dst`.
pub fn push_str(dst: &mut Vec<char>, s: &str)
    ensures
        final(dst)@ == old(dst)@ + s@,
{
    let tail = chars_of(s);
    append(dst, &tail);
}

/// The characters of `v` from `a` up to `b`.
pub fn slice(v: &Vec<char>, a: usize, b: usize) -> (r: Vec<char>)
    requires
        a <= b <= v.len(),
    ensures
        r@ == v@.subrange(a as int, b as int),
{
    let mut out: Vec<char> = Vec::new();
    let mut i: usize = a;
    while i < b
        invariant
            a <= i <= b <= v.len(),
            out@ == v@.subrange(a as int, i as int),
        decreases b - i,
    {
        out.push(v[i]);
        assert(v@.subrange(a as int, i + 1) =~= v@.subrange(a as int, i as int).push(
            v@[i as int],
        ));
        i += 1;
    }
    out
}

/// `v` with the characters from `a` up to `b` replaced by `r`.
pub fn spliced(v: &Vec<char>, a: usize, b: usize, r: &Vec<char>) -> (out: Vec<char>)
    requires
        a <= b <= v.len(),
    ensures
        out@ == splice(v@, a as int, b as int, r@),
{
    let mut out = slice(v, 0, a);
    append(&mut out, r);
    let tail = slice(v, b, v.len());
    append(&mut out, &tail);
    out
}

/// The texts of `parts` joined into one with `sep` between neighbours.
pub fn joined(parts: &Vec<Vec<char>>, sep: &str) -> (r: Vec<char>)
    ensures
        r@ == join(views(parts@), sep@),
{
    let mut out: Vec<char> = Vec::new();
    let mut i: usize = 0;
    while i < parts.len()
        invariant
            i <= parts.len(),
            out@ == join(views(parts@).take(i as int), sep@),
        decreases parts.len() - i,
    {
        let ghost head = views(parts@).take(i as int);
        let ghost next = views(parts@).take(i + 1);
        assert(next.drop_last() =~= head);
        assert(next.last() == parts@[i as int]@);
        if i > 0 {
            push_str(&mut out, sep);
        }
        append(&mut out, &parts[i]);
        assert(out@ =~= join(next, sep@)) by {
            if i == 0 {
                assert(head.len() == 0);
                assert(Seq::<char>::empty() + parts@[i as int]@ =~= parts@[i as int]@);
            }
        }
        i += 1;
    }
    assert(views(parts@).take(parts@.len() as int) =~= views(parts@));
    out
}

// ---------------------------------------------------------------------------
// Searching
// ---------------------------------------------------------------------------

/// Whether `pat` stands in `hay` at position `i`.
pub fn matches_at(hay: &Vec<char>, pat: &Vec<char>, i: usize) -> (r: bool)
    ensures
        r == occurs_at(hay@, pat@, i as int),
{
    let m = pat.len();
    if m > hay.len() || i > hay.len() - m {
        return false;
    }
    let mut k: usize = 0;
    while k < m
        invariant
            m == pat.len(),
            i + m <= hay.len(),
            k <= m,
            forall|j: int| 0 <= j < k ==> hay@[i + j] == pat@[j],
        decreases m - k,
    {
        if hay[i + k] != pat[k] {
            assert(hay@.subrange(i as int, i + m)[k as int] != pat@[k as int]);
            return false;
        }
        k += 1;
    }
    assert(hay@.subrange(i as int, i + m) =~= pat@);
    true
}

/// The first position at or after `from` where `pat` stands in `hay`.
pub fn find(hay: &Vec<char>, pat: &Vec<char>, from: usize) -> (r: Option<usize>)
    ensures
        index_of(r) == find_from(hay@, pat@, from as int),
        r matches Some(i) ==> from <= i && i + pat.len() <= hay.len(),
{
    let n = hay.len();
    let m = pat.len();
    if m > n {
        return None;
    }
    if m == 0 {
        return if from <= n {
            Some(from)
        } else {
            None
        };
    }
    let mut i: usize = from;
    while i <= n - m
        invariant
            n == hay.len(),
            m == pat.len(),
            1 <= m <= n,
            from <= i,
            find_from(hay@, pat@, from as int) == find_from(hay@, pat@, i as int),
        decreases n - i,
    {
        if matches_at(hay, pat, i) {
            return Some(i);
        }
        i += 1;
    }
    None
}

/// The first position at or after `from` where the character `c` stands in
/// `hay`.
pub fn find_char(hay: &Vec<char>, c: char, from: usize) -> (r: Option<usize>)
    ensures
        index_of(r) == find_from(hay@, seq![c], from as int),
        r matches Some(i) ==> from <= i < hay.len(),
{
    let pat: Vec<char> = vec![c];
    assert(pat@ =~= seq![c]);
    find(hay, &pat, from)
}

/// Whether the string literal `pat` stands somewhere in `hay`.
pub fn contains_str(hay: &Vec<char>, pat: &str) -> (r: bool)
    ensures
        r == occurs(hay@, pat@),
{
    let p = chars_of(pat);
    contains(hay, &p)
}

/// Whether `pat` stands somewhere in `hay`.
pub fn contains(hay: &Vec<char>, pat: &Vec<char>) -> (r: bool)
    ensures
        r == occurs(hay@, pat@),
{
    find(hay, pat, 0).is_some()
}

/// Whether `a` and `b` hold the same characters.
pub fn same(a: &Vec<char>, b: &Vec<char>) -> (r: bool)
    ensures
        r == (a@ == b@),
{
    if a.len() != b.len() {
        return false;
    }
    let r = matches_at(a, b, 0);
    assert(a@.subrange(0, a@.len() as int) =~= a@);
    r
}

/// Whether `v` holds exactly the characters of `s`.
pub fn is_str(v: &Vec<char>, s: &str) -> (r: bool)
    ensures
        r == (v@ == s@),
{
    let w = chars_of(s);
    same(v, &w)
}

/// The text after the first `open` up to the first `close` that follows it.
pub fn text_between(hay: &Vec<char>, open: &Vec<char>, close: &Vec<char>) -> (r: Option<Vec<char>>)
    ensures
        text_of(r) == between(hay@, open@, close@),
{
    match find(hay, open, 0) {
        Some(i) => {
            let a = i + open.len();
            match find(hay, close, a) {
                Some(j) => Some(slice(hay, a, j)),
                None => None,
            }
        },
        None => None,
    }
}

/// `text_between` with the two marks given as string literals.
pub fn text_between_str(hay: &Vec<char>, open: &str, close: &str) -> (r: Option<Vec<char>>)
    ensures
        text_of(r) == between(hay@, open@, close@),
{
    let o = chars_of(open);
    let c = chars_of(close);
    text_between(hay, &o, &c)
}

// ---------------------------------------------------------------------------
// Rewriting
// ---------------------------------------------------------------------------

/// `hay` with every occurrence of `pat` replaced by `with`.
pub fn replaced(hay: &Vec<char>, pat: &Vec<char>, with: &Vec<char>) -> (r: Vec<char>)
    ensures
        r@ == replace_all(hay@, pat@, with@),
{
    let n = hay.len();
    let m = pat.len();
    let mut out: Vec<char> = Vec::new();
    if m == 0 {
        append(&mut out, hay);
        assert(hay@.subrange(0, n as int) =~= hay@);
        assert(Seq::<char>::empty() + hay@ =~= hay@);
        return out;
    }
    let mut i: usize = 0;
    while i < n
        invariant
            n == hay.len(),
            m == pat.len(),
            m > 0,
            i <= n,
            out@ + replace_from(hay@, pat@, with@, i as int) == replace_all(hay@, pat@, with@),
        decreases n - i,
    {
        let ghost before = out@;
        if matches_at(hay, pat, i) {
            append(&mut out, with);
            assert(before + (with@ + replace_from(hay@, pat@, with@, i + m)) =~= (before + with@)
                + replace_from(hay@, pat@, with@, i + m));
            i += m;
        } else {
            out.push(hay[i]);
            assert(before + (seq![hay@[i as int]] + replace_from(hay@, pat@, with@, i + 1))
                =~= before.push(hay@[i as int]) + replace_from(hay@, pat@, with@, i + 1));
            i += 1;
        }
    }
    assert(out@ + Seq::<char>::empty() =~= out@);
    out
}

/// `replaced` with pattern and replacement given as string literals.
pub fn replaced_str(hay: &Vec<char>, pat: &str, with: &str) -> (r: Vec<char>)
    ensures
        r@ == replace_all(hay@, pat@, with@),
{
    let p = chars_of(pat);
    let w = chars_of(with);
    replaced(hay, &p, &w)
}

/// Whether `c` is white space.
pub fn is_whitespace(c: char) -> (r: bool)
    ensures
        r == is_space(c),
{
    let u: u32 = c as u32;
    (0x09 <= u && u <= 0x0D) || u == 0x20 || u == 0x85 || u == 0xA0 || u == 0x1680 || (0x2000 <= u
        && u <= 0x200A) || u == 0x2028 || u == 0x2029 || u == 0x202F || u == 0x205F || u == 0x3000
}

/// `v` without the white space at its two ends.
pub fn trimmed(v: &Vec<char>) -> (r: Vec<char>)
    ensures
        r@ == trim(v@),
{
    let n = v.len();
    let mut a: usize = 0;
    while a < n && is_whitespace(v[a])
        invariant
            n == v.len(),
            a <= n,
            skip_spaces(v@, 0) == skip_spaces(v@, a as int),
        decreases n - a,
    {
        a += 1;
    }
    let mut b: usize = n;
    while b > a && is_whitespace(v[b - 1])
        invariant
            n == v.len(),
            a <= b <= n,
            drop_spaces(v@, a as int, n as int) == drop_spaces(v@, a as int, b as int),
        decreases b - a,
    {
        b -= 1;
    }
    slice(v, a, b)
}

/// Whether every character of `v` is white space.
pub fn blank(v: &Vec<char>) -> (r: bool)
    ensures
        r == is_blank(v@),
{
    let mut i: usize = 0;
    while i < v.len()
        invariant
            i <= v.len(),
            forall|k: int| 0 <= k < i ==> is_space(#[trigger] v@[k]),
        decreases v.len() - i,
    {
        if !is_whitespace(v[i]) {
            return false;
        }
        i += 1;
    }
    true
}

/// `v` without its tags.
pub fn strip_html_tags(v: &Vec<char>) -> (r: Vec<char>)
    ensures
        r@ == strip_tags(v@),
{
    let mut out: Vec<char> = Vec::new();
    let mut in_tag = false;
    let mut i: usize = 0;
    while i < v.len()
        invariant
            i <= v.len(),
            out@ + strip_tags_from(v@, i as int, in_tag) == strip_tags(v@),
        decreases v.len() - i,
    {
        let c = v[i];
        let ghost before = out@;
        if c == '<' {
            in_tag = true;
        } else if c == '>' {
            in_tag = false;
        } else if !in_tag {
            out.push(c);
            assert(before + (seq![c] + strip_tags_from(v@, i + 1, false)) =~= before.push(c)
                + strip_tags_from(v@, i + 1, false));
        }
        i += 1;
    }
    assert(out@ + Seq::<char>::empty() =~= out@);
    out
}

} // verus!
