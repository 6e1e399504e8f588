//! How deep the elements of an HTML text can nest.
//!
//! The generic converter walks the tree of a document by recursion, one
//! level of the tree on top of the other. This module bounds the depth of
//! that tree from the text alone, so that a text that nests too deep can be
//! kept away from the converter.
//!
//! The bound counts every start tag as an element that opens, wherever it
//! stands, and takes an element for closed only where a well-formed end tag
//! of its name, in whatever case, follows in plain data while it is the
//! last that opened. The content of a raw-text element, such as a script or
//! a style sheet, runs to the end tag of that element and is no plain data.
//!
//! The scan goes *blind*, and from there on counts what opens and nothing
//! that closes, where it cannot be sure to read as the parser reads:
//!
//! - at a tag that is not well-formed, where the parser recovers by rules
//!   of its own;
//! - at an element that changes how the parser reads on: foreign markup, a
//!   template, plain text, and a selection list or a frame set, inside
//!   which the parser may pass over the start tag of a raw-text element;
//! - at a script that holds the start of a comment, which can hide the end
//!   tag of the script, and at a raw-text element whose end tag carries
//!   more than its name.
//!
//! An HTML parser opens elements for start tags only, at most three for one
//! tag (a table cell brings its row and its row group along) and three more
//! at the root, and it closes the innermost open element when the end tag
//! of its name comes. So the tree of a text is at most three times as deep
//! as the bound says, and a little. For markup whose elements close
//! innermost first, the bound is the depth itself.

use vstd::prelude::*;
use crate::text::{chars_of, find, find_char, find_from, matches_at, occurs_at, slice, views};

verus! {

/// The deepest nesting that a text may have to go to the generic converter.
pub const MAX_NESTING: usize = 100;

/// Where the scan stands inside a tag, behind its name.
#[derive(Clone, Copy, PartialEq, Eq, Structural, Debug)]
pub enum Place {
    /// In front of an attribute name.
    BeforeName,
    /// Inside an attribute name.
    Name,
    /// Behind an attribute name.
    AfterName,
    /// Behind the `=`, in front of the value.
    BeforeValue,
    /// Inside a value in double quotes.
    DoubleQuoted,
    /// Inside a value in single quotes.
    SingleQuoted,
    /// Inside a value without quotes.
    Unquoted,
    /// Behind the quote that closes a value.
    AfterValue,
    /// Behind the `/` of a tag that closes itself.
    Slash,
}

/// `c` is white space inside a tag.
pub open spec fn is_tag_space(c: char) -> bool {
    c == ' ' || c == '\t' || c == '\n' || c == '\r' || c == '\u{c}'
}

/// `c` is a letter of the basic alphabet.
pub open spec fn is_letter(c: char) -> bool {
    ('a' <= c && c <= 'z') || ('A' <= c && c <= 'Z')
}

/// `c` ends the name of a tag.
pub open spec fn ends_name(c: char) -> bool {
    is_tag_space(c) || c == '/' || c == '>'
}

/// The end of the tag name that holds position `j`.
pub open spec fn name_end(s: Seq<char>, j: int) -> int
    decreases s.len() - j,
{
    if 0 <= j < s.len() && !ends_name(s[j]) {
        name_end(s, j + 1)
    } else {
        j
    }
}

/// Two characters are the same letter in either case, or the same
/// character.
pub open spec fn same_letter(a: char, b: char) -> bool {
    a == b || (is_letter(a) && is_letter(b) && (a as u32 + 32 == b as u32 || b as u32 + 32
        == a as u32))
}

/// Two names are the same without regard to the case of their letters.
pub open spec fn same_name(x: Seq<char>, y: Seq<char>) -> bool {
    x.len() == y.len() && forall|k: int| 0 <= k < x.len() ==> same_letter(#[trigger] x[k], y[k])
}

/// An element of this name never has content.
pub open spec fn is_void(name: Seq<char>) -> bool {
    ||| same_name(name, "area"@)
    ||| same_name(name, "base"@)
    ||| same_name(name, "basefont"@)
    ||| same_name(name, "bgsound"@)
    ||| same_name(name, "br"@)
    ||| same_name(name, "col"@)
    ||| same_name(name, "embed"@)
    ||| same_name(name, "hr"@)
    ||| same_name(name, "img"@)
    ||| same_name(name, "input"@)
    ||| same_name(name, "keygen"@)
    ||| same_name(name, "link"@)
    ||| same_name(name, "meta"@)
    ||| same_name(name, "param"@)
    ||| same_name(name, "source"@)
    ||| same_name(name, "track"@)
    ||| same_name(name, "wbr"@)
}

/// The content of an element of this name is raw text: it runs, whatever
/// it holds, up to the end tag of the same name.
pub open spec fn is_raw(name: Seq<char>) -> bool {
    ||| same_name(name, "script"@)
    ||| same_name(name, "style"@)
    ||| same_name(name, "textarea"@)
    ||| same_name(name, "title"@)
    ||| same_name(name, "xmp"@)
    ||| same_name(name, "iframe"@)
    ||| same_name(name, "noembed"@)
    ||| same_name(name, "noframes"@)
    ||| same_name(name, "noscript"@)
}

/// An element of this name changes how what follows it is read.
pub open spec fn is_special(name: Seq<char>) -> bool {
    ||| same_name(name, "plaintext"@)
    ||| same_name(name, "svg"@)
    ||| same_name(name, "math"@)
    ||| same_name(name, "template"@)
    ||| same_name(name, "select"@)
    ||| same_name(name, "frameset"@)
}

/// The position behind the `>` that closes the tag whose inside the scan
/// reads from `j` on, standing at `place`; `None` where the tag is not
/// well-formed or never closes.
pub open spec fn tag_close(s: Seq<char>, j: int, place: Place) -> Option<int>
    decreases s.len() - j,
{
    if j < 0 || j >= s.len() {
        None
    } else {
        let c = s[j];
        match place {
            Place::BeforeName | Place::Name | Place::AfterName => {
                if c == '>' {
                    Some(j + 1)
                } else if c == '/' {
                    tag_close(s, j + 1, Place::Slash)
                } else if c == '"' || c == '\'' || c == '<' {
                    None
                } else if c == '=' {
                    if place == Place::BeforeName {
                        None
                    } else {
                        tag_close(s, j + 1, Place::BeforeValue)
                    }
                } else if is_tag_space(c) {
                    if place == Place::BeforeName {
                        tag_close(s, j + 1, Place::BeforeName)
                    } else {
                        tag_close(s, j + 1, Place::AfterName)
                    }
                } else {
                    tag_close(s, j + 1, Place::Name)
                }
            },
            Place::BeforeValue => {
                if is_tag_space(c) {
                    tag_close(s, j + 1, Place::BeforeValue)
                } else if c == '"' {
                    tag_close(s, j + 1, Place::DoubleQuoted)
                } else if c == '\'' {
                    tag_close(s, j + 1, Place::SingleQuoted)
                } else if c == '>' || c == '<' || c == '=' || c == '`' {
                    None
                } else {
                    tag_close(s, j + 1, Place::Unquoted)
                }
            },
            Place::DoubleQuoted => {
                if c == '"' {
                    tag_close(s, j + 1, Place::AfterValue)
                } else {
                    tag_close(s, j + 1, Place::DoubleQuoted)
                }
            },
            Place::SingleQuoted => {
                if c == '\'' {
                    tag_close(s, j + 1, Place::AfterValue)
                } else {
                    tag_close(s, j + 1, Place::SingleQuoted)
                }
            },
            Place::Unquoted => {
                if is_tag_space(c) {
                    tag_close(s, j + 1, Place::BeforeName)
                } else if c == '>' {
                    Some(j + 1)
                } else if c == '"' || c == '\'' || c == '<' || c == '=' || c == '`' {
                    None
                } else {
                    tag_close(s, j + 1, Place::Unquoted)
                }
            },
            Place::AfterValue => {
                if is_tag_space(c) {
                    tag_close(s, j + 1, Place::BeforeName)
                } else if c == '/' {
                    tag_close(s, j + 1, Place::Slash)
                } else if c == '>' {
                    Some(j + 1)
                } else {
                    None
                }
            },
            Place::Slash => {
                if c == '>' {
                    Some(j + 1)
                } else {
                    None
                }
            },
        }
    }
}

/// The position behind the `>` of an end tag whose name ends at `j`: only
/// white space may stand between the name and the `>`.
pub open spec fn end_tag_close(s: Seq<char>, j: int) -> Option<int>
    decreases s.len() - j,
{
    if j < 0 || j >= s.len() {
        None
    } else if s[j] == '>' {
        Some(j + 1)
    } else if is_tag_space(s[j]) {
        end_tag_close(s, j + 1)
    } else {
        None
    }
}

/// The position behind the `-->` that closes the comment whose text starts
/// at `j`; the end of the text where the comment never closes; `None` where
/// a `--!>` comes first.
pub open spec fn comment_close(s: Seq<char>, j: int) -> Option<int>
    decreases s.len() - j,
{
    if j < 0 || j >= s.len() {
        Some(s.len() as int)
    } else if occurs_at(s, "-->"@, j) {
        Some(j + 3)
    } else if occurs_at(s, "--!>"@, j) {
        None
    } else {
        comment_close(s, j + 1)
    }
}

/// The position behind the first `>` from `j` on, or the end of the text
/// where none follows: where a declaration, a processing instruction or an
/// end tag without a name ends.
pub open spec fn declaration_close(s: Seq<char>, j: int) -> int {
    match find_from(s, seq!['>'], j) {
        Some(g) => g + 1,
        None => s.len() as int,
    }
}

/// What the scan knows at a position of the text.
pub struct Depth {
    /// The names of the elements that are taken for open, outermost first.
    pub open: Seq<Seq<char>>,
    /// The most elements that were open at once.
    pub deepest: nat,
    /// The scan counts no closing any more.
    pub blind: bool,
    /// The position where plain data goes on.
    pub resume: int,
}

/// The state in front of the text.
pub open spec fn start() -> Depth {
    Depth { open: Seq::empty(), deepest: 0, blind: false, resume: 0 }
}

/// The larger of two numbers.
pub open spec fn most(a: nat, b: nat) -> nat {
    if a >= b {
        a
    } else {
        b
    }
}

/// `open` without its last element, if that is called `name`.
pub open spec fn closed(open: Seq<Seq<char>>, name: Seq<char>) -> Seq<Seq<char>> {
    if open.len() > 0 && same_name(open.last(), name) {
        open.drop_last()
    } else {
        open
    }
}

/// A start tag opens at `i`.
pub open spec fn opens_tag(s: Seq<char>, i: int) -> bool {
    0 <= i && i + 1 < s.len() && s[i] == '<' && is_letter(s[i + 1])
}

/// An end tag opens at `i`.
pub open spec fn opens_end_tag(s: Seq<char>, i: int) -> bool {
    0 <= i && i + 2 < s.len() && s[i] == '<' && s[i + 1] == '/' && is_letter(s[i + 2])
}

/// A comment that is not closed at once opens at `i`.
pub open spec fn opens_comment(s: Seq<char>, i: int) -> bool {
    occurs_at(s, "<!--"@, i) && !occurs_at(s, ">"@, i + 4) && !occurs_at(s, "->"@, i + 4)
}

/// The state with the element of the start tag at `i` counted as open,
/// unless the scan still sees and the element is void.
pub open spec fn counted(s: Seq<char>, i: int, d: Depth) -> Depth {
    let name = s.subrange(i + 1, name_end(s, i + 1));
    if !d.blind && is_void(name) {
        d
    } else {
        Depth { open: d.open.push(name), deepest: most(d.deepest, d.open.len() + 1), ..d }
    }
}

/// An end tag of the raw-text element `name` opens at `j`.
pub open spec fn closes_raw(s: Seq<char>, j: int, name: Seq<char>) -> bool {
    &&& 0 <= j
    &&& j + 2 + name.len() < s.len()
    &&& s[j] == '<'
    &&& s[j + 1] == '/'
    &&& same_name(s.subrange(j + 2, j + 2 + name.len()), name)
    &&& ends_name(s[j + 2 + name.len()])
}

/// The first position at or after `j` where an end tag of the raw-text
/// element `name` opens.
pub open spec fn raw_end(s: Seq<char>, j: int, name: Seq<char>) -> Option<int>
    decreases s.len() - j,
{
    if j < 0 || j >= s.len() {
        None
    } else if closes_raw(s, j, name) {
        Some(j)
    } else {
        raw_end(s, j + 1, name)
    }
}

/// A comment opens in the text from `from` up to `to`.
pub open spec fn comment_in(s: Seq<char>, from: int, to: int) -> bool {
    match find_from(s, "<!--"@, from) {
        Some(c) => c < to,
        None => false,
    }
}

/// The state behind the start tag of the raw-text element `name`, whose
/// content starts at `from`. The content runs up to the end tag of the
/// element, which closes it, or to the end of the text. The scan goes blind
/// where that end tag is not well-formed, and where a script holds the
/// start of a comment, which can hide its end tag.
pub open spec fn raw_text(s: Seq<char>, from: int, name: Seq<char>, d: Depth) -> Depth {
    let end = raw_end(s, from, name);
    let to = match end {
        Some(p) => p,
        None => s.len() as int,
    };
    if same_name(name, "script"@) && comment_in(s, from, to) {
        Depth { blind: true, ..d }
    } else {
        match end {
            Some(p) => match end_tag_close(s, p + 2 + name.len()) {
                Some(r) => Depth { open: closed(d.open, name), resume: r, ..d },
                None => Depth { blind: true, ..d },
            },
            None => Depth { resume: s.len() as int, ..d },
        }
    }
}

/// The state behind a `<` that stands in plain data.
pub open spec fn markup(s: Seq<char>, i: int, d: Depth) -> Depth {
    if opens_tag(s, i) {
        let e = name_end(s, i + 1);
        let name = s.subrange(i + 1, e);
        if is_special(name) {
            Depth { blind: true, ..d }
        } else {
            match tag_close(s, e, Place::BeforeName) {
                Some(r) => if is_raw(name) {
                    raw_text(s, r, name, d)
                } else {
                    Depth { resume: r, ..d }
                },
                None => Depth { blind: true, ..d },
            }
        }
    } else if opens_end_tag(s, i) {
        let e = name_end(s, i + 2);
        let name = s.subrange(i + 2, e);
        match end_tag_close(s, e) {
            Some(r) => Depth { open: closed(d.open, name), resume: r, ..d },
            None => Depth { blind: true, ..d },
        }
    } else if opens_comment(s, i) {
        match comment_close(s, i + 4) {
            Some(r) => Depth { resume: r, ..d },
            None => Depth { blind: true, ..d },
        }
    } else if i + 1 < s.len() && (s[i + 1] == '/' || s[i + 1] == '!' || s[i + 1] == '?') {
        Depth { resume: declaration_close(s, i + 1), ..d }
    } else {
        d
    }
}

/// The state behind position `i`.
pub open spec fn step(s: Seq<char>, i: int, d: Depth) -> Depth {
    if i < 0 || i >= s.len() || s[i] != '<' {
        d
    } else {
        let c = if opens_tag(s, i) {
            counted(s, i, d)
        } else {
            d
        };
        if c.blind || i < c.resume {
            c
        } else {
            markup(s, i, c)
        }
    }
}

/// The state behind the text, from the state `d` in front of position `i`.
pub open spec fn scan(s: Seq<char>, i: int, d: Depth) -> Depth
    decreases s.len() - i,
{
    if i < 0 || i >= s.len() {
        d
    } else {
        scan(s, i + 1, step(s, i, d))
    }
}

/// A bound on how deep the elements of the text nest.
pub open spec fn nesting(s: Seq<char>) -> nat {
    scan(s, 0, start()).deepest
}

/// The text nests no deeper than a text may that goes to the generic
/// converter.
pub open spec fn shallow(s: Seq<char>) -> bool {
    nesting(s) <= MAX_NESTING
}

/// The number of start tags that open in `s` from position `i` on.
pub open spec fn start_tags(s: Seq<char>, i: int) -> nat
    decreases s.len() - i,
{
    if i < 0 || i >= s.len() {
        0
    } else if opens_tag(s, i) {
        1 + start_tags(s, i + 1)
    } else {
        start_tags(s, i + 1)
    }
}

/// From a position on, the scan takes no more elements for open at once
/// than were open there and start tags follow.
proof fn lemma_scan_bound(s: Seq<char>, i: int, d: Depth)
    requires
        0 <= i,
    ensures
        scan(s, i, d).deepest <= most(d.deepest, d.open.len() + start_tags(s, i)),
    decreases s.len() - i,
{
    if i < s.len() {
        let next = step(s, i, d);
        let tags: nat = if opens_tag(s, i) {
            1
        } else {
            0
        };
        assert(next.open.len() <= d.open.len() + tags);
        assert(next.deepest <= most(d.deepest, d.open.len() + tags));
        lemma_scan_bound(s, i + 1, next);
    }
}

/// A text with no more start tags than elements may nest is shallow,
/// however its tags are written.
pub proof fn lemma_few_tags_shallow(s: Seq<char>)
    requires
        start_tags(s, 0) <= MAX_NESTING,
    ensures
        shallow(s),
{
    lemma_scan_bound(s, 0, start());
}

// ---------------------------------------------------------------------------
// The scan
// ---------------------------------------------------------------------------

/// Whether `c` is white space inside a tag.
fn tag_space(c: char) -> (r: bool)
    ensures
        r == is_tag_space(c),
{
    c == ' ' || c == '\t' || c == '\n' || c == '\r' || c == '\u{c}'
}

/// Whether `c` is a letter of the basic alphabet.
fn letter(c: char) -> (r: bool)
    ensures
        r == is_letter(c),
{
    ('a' <= c && c <= 'z') || ('A' <= c && c <= 'Z')
}

/// Finds the end of the tag name that holds position `j`.
fn find_name_end(text: &Vec<char>, j: usize) -> (r: usize)
    requires
        j <= text.len(),
    ensures
        r == name_end(text@, j as int),
        j <= r <= text.len(),
{
    let mut k: usize = j;
    while k < text.len() && !(tag_space(text[k]) || text[k] == '/' || text[k] == '>')
        invariant
            j <= k <= text.len(),
            name_end(text@, j as int) == name_end(text@, k as int),
        decreases text.len() - k,
    {
        k += 1;
    }
    k
}

/// Whether two characters are the same letter in either case, or the same
/// character.
fn alike_letter(a: char, b: char) -> (r: bool)
    ensures
        r == same_letter(a, b),
{
    a == b || (letter(a) && letter(b) && (a as u32 + 32 == b as u32 || b as u32 + 32 == a as u32))
}

/// Whether the name that `text` holds from `from` on, `name.len()`
/// characters long, is `name` without regard to case.
fn alike_at(text: &Vec<char>, from: usize, name: &Vec<char>) -> (r: bool)
    requires
        from + name.len() <= text.len(),
    ensures
        r == same_name(text@.subrange(from as int, from + name.len()), name@),
{
    let mut k: usize = 0;
    while k < name.len()
        invariant
            k <= name.len(),
            from + name.len() <= text.len(),
            forall|j: int| 0 <= j < k ==> same_letter(#[trigger] text@[from + j], name@[j]),
        decreases name.len() - k,
    {
        if !alike_letter(text[from + k], name[k]) {
            assert(text@.subrange(from as int, from + name.len())[k as int] == text@[from + k]);
            return false;
        }
        k += 1;
    }
    assert forall|j: int| 0 <= j < name.len() implies same_letter(
        #[trigger] text@.subrange(from as int, from + name.len())[j],
        name@[j],
    ) by {
        assert(same_letter(text@[from + j], name@[j]));
    }
    true
}

/// Whether two names are the same without regard to case.
fn alike(a: &Vec<char>, b: &Vec<char>) -> (r: bool)
    ensures
        r == same_name(a@, b@),
{
    if a.len() != b.len() {
        return false;
    }
    assert(a@.subrange(0, 0 + b.len()) =~= a@);
    alike_at(a, 0, b)
}

/// Whether `name` is the name `other` without regard to case.
fn alike_str(name: &Vec<char>, other: &str) -> (r: bool)
    ensures
        r == same_name(name@, other@),
{
    alike(name, &chars_of(other))
}

/// Whether an element of this name never has content.
fn void_name(name: &Vec<char>) -> (r: bool)
    ensures
        r == is_void(name@),
{
    alike_str(name, "area") || alike_str(name, "base") || alike_str(name, "basefont")
        || alike_str(name, "bgsound") || alike_str(name, "br") || alike_str(name, "col")
        || alike_str(name, "embed") || alike_str(name, "hr") || alike_str(name, "img")
        || alike_str(name, "input") || alike_str(name, "keygen") || alike_str(name, "link")
        || alike_str(name, "meta") || alike_str(name, "param") || alike_str(name, "source")
        || alike_str(name, "track") || alike_str(name, "wbr")
}

/// Whether the content of an element of this name is raw text.
fn raw_name(name: &Vec<char>) -> (r: bool)
    ensures
        r == is_raw(name@),
{
    alike_str(name, "script") || alike_str(name, "style") || alike_str(name, "textarea")
        || alike_str(name, "title") || alike_str(name, "xmp") || alike_str(name, "iframe")
        || alike_str(name, "noembed") || alike_str(name, "noframes")
        || alike_str(name, "noscript")
}

/// Whether an element of this name changes how what follows it is read.
fn special_name(name: &Vec<char>) -> (r: bool)
    ensures
        r == is_special(name@),
{
    alike_str(name, "plaintext") || alike_str(name, "svg") || alike_str(name, "math")
        || alike_str(name, "template") || alike_str(name, "select")
        || alike_str(name, "frameset")
}

/// Finds the end tag of the raw-text element `name` from `j` on.
fn find_raw_end(text: &Vec<char>, j: usize, name: &Vec<char>) -> (r: Option<usize>)
    requires
        j <= text.len(),
    ensures
        crate::text::index_of(r) == raw_end(text@, j as int, name@),
        r matches Some(p) ==> j <= p && p + 2 + name.len() < text.len(),
{
    let n = text.len();
    let m = name.len();
    let mut k: usize = j;
    while k < n
        invariant
            n == text.len(),
            m == name.len(),
            j <= k <= n,
            raw_end(text@, j as int, name@) == raw_end(text@, k as int, name@),
        decreases n - k,
    {
        let fits = m < n && n - m > 2 && k < n - m - 2;
        if fits && text[k] == '<' && text[k + 1] == '/' && alike_at(text, k + 2, name) {
            let c = text[k + 2 + m];
            if tag_space(c) || c == '/' || c == '>' {
                return Some(k);
            }
        }
        k += 1;
    }
    None
}

/// Where the scan goes from `place` on the character `c`: to another place,
/// out of the tag, or nowhere.
enum Move {
    To(Place),
    Out,
    Stop,
}

/// Finds the `>` that closes a tag.
fn find_tag_close(text: &Vec<char>, j: usize, place: Place) -> (r: Option<usize>)
    requires
        j <= text.len(),
    ensures
        crate::text::index_of(r) == tag_close(text@, j as int, place),
        r matches Some(e) ==> j < e <= text.len(),
{
    let mut k: usize = j;
    let mut at = place;
    while k < text.len()
        invariant
            j <= k <= text.len(),
            tag_close(text@, j as int, place) == tag_close(text@, k as int, at),
        decreases text.len() - k,
    {
        let c = text[k];
        let next = match at {
            Place::BeforeName | Place::Name | Place::AfterName => {
                if c == '>' {
                    Move::Out
                } else if c == '/' {
                    Move::To(Place::Slash)
                } else if c == '"' || c == '\'' || c == '<' {
                    Move::Stop
                } else if c == '=' {
                    if at == Place::BeforeName {
                        Move::Stop
                    } else {
                        Move::To(Place::BeforeValue)
                    }
                } else if tag_space(c) {
                    if at == Place::BeforeName {
                        Move::To(Place::BeforeName)
                    } else {
                        Move::To(Place::AfterName)
                    }
                } else {
                    Move::To(Place::Name)
                }
            },
            Place::BeforeValue => {
                if tag_space(c) {
                    Move::To(Place::BeforeValue)
                } else if c == '"' {
                    Move::To(Place::DoubleQuoted)
                } else if c == '\'' {
                    Move::To(Place::SingleQuoted)
                } else if c == '>' || c == '<' || c == '=' || c == '`' {
                    Move::Stop
                } else {
                    Move::To(Place::Unquoted)
                }
            },
            Place::DoubleQuoted => {
                if c == '"' {
                    Move::To(Place::AfterValue)
                } else {
                    Move::To(Place::DoubleQuoted)
                }
            },
            Place::SingleQuoted => {
                if c == '\'' {
                    Move::To(Place::AfterValue)
                } else {
                    Move::To(Place::SingleQuoted)
                }
            },
            Place::Unquoted => {
                if tag_space(c) {
                    Move::To(Place::BeforeName)
                } else if c == '>' {
                    Move::Out
                } else if c == '"' || c == '\'' || c == '<' || c == '=' || c == '`' {
                    Move::Stop
                } else {
                    Move::To(Place::Unquoted)
                }
            },
            Place::AfterValue => {
                if tag_space(c) {
                    Move::To(Place::BeforeName)
                } else if c == '/' {
                    Move::To(Place::Slash)
                } else if c == '>' {
                    Move::Out
                } else {
                    Move::Stop
                }
            },
            Place::Slash => {
                if c == '>' {
                    Move::Out
                } else {
                    Move::Stop
                }
            },
        };
        match next {
            Move::To(p) => {
                at = p;
                k += 1;
            },
            Move::Out => {
                return Some(k + 1);
            },
            Move::Stop => {
                return None;
            },
        }
    }
    None
}

/// Finds the `>` of an end tag whose name ends at `j`.
fn find_end_tag_close(text: &Vec<char>, j: usize) -> (r: Option<usize>)
    requires
        j <= text.len(),
    ensures
        crate::text::index_of(r) == end_tag_close(text@, j as int),
        r matches Some(e) ==> j < e <= text.len(),
{
    let mut k: usize = j;
    while k < text.len()
        invariant
            j <= k <= text.len(),
            end_tag_close(text@, j as int) == end_tag_close(text@, k as int),
        decreases text.len() - k,
    {
        if text[k] == '>' {
            return Some(k + 1);
        }
        if !tag_space(text[k]) {
            return None;
        }
        k += 1;
    }
    None
}

/// Finds the end of the comment whose text starts at `j`.
fn find_comment_close(text: &Vec<char>, j: usize) -> (r: Option<usize>)
    requires
        j <= text.len(),
    ensures
        crate::text::index_of(r) == comment_close(text@, j as int),
        r matches Some(e) ==> j <= e <= text.len(),
{
    let close = chars_of("-->");
    let bang = chars_of("--!>");
    proof {
        reveal_strlit("-->");
    }
    let mut k: usize = j;
    while k < text.len()
        invariant
            j <= k <= text.len(),
            close@ == "-->"@,
            close@.len() == 3,
            bang@ == "--!>"@,
            comment_close(text@, j as int) == comment_close(text@, k as int),
        decreases text.len() - k,
    {
        if matches_at(text, &close, k) {
            return Some(k + 3);
        }
        if matches_at(text, &bang, k) {
            return None;
        }
        k += 1;
    }
    Some(k)
}

/// The state of the scan.
struct Scanner {
    open: Vec<Vec<char>>,
    deepest: usize,
    blind: bool,
    resume: usize,
}

impl View for Scanner {
    type V = Depth;

    closed spec fn view(&self) -> Depth {
        Depth {
            open: views(self.open@),
            deepest: self.deepest as nat,
            blind: self.blind,
            resume: self.resume as int,
        }
    }
}

impl Scanner {
    /// The state in front of a text.
    fn new() -> (r: Scanner)
        ensures
            r@ == start(),
    {
        let r = Scanner { open: Vec::new(), deepest: 0, blind: false, resume: 0 };
        assert(views(r.open@) =~= Seq::<Seq<char>>::empty());
        r
    }

    /// Takes the last element for closed if it is called `name`.
    fn close(&mut self, name: &Vec<char>)
        ensures
            final(self)@ == (Depth { open: closed(old(self)@.open, name@), ..old(self)@ }),
    {
        let n = self.open.len();
        if n > 0 && alike(&self.open[n - 1], name) {
            let ghost all = views(self.open@);
            self.open.pop();
            assert(views(self.open@) =~= all.drop_last());
        }
    }

    /// Counts the element of the start tag at `i` as open.
    fn count(&mut self, text: &Vec<char>, i: usize)
        requires
            opens_tag(text@, i as int),
        ensures
            final(self)@ == counted(text@, i as int, old(self)@),
    {
        assert(i + 1 < text.len());
        let e = find_name_end(text, i + 1);
        let name = slice(text, i + 1, e);
        if self.blind || !void_name(&name) {
            let ghost before = views(self.open@);
            self.open.push(name);
            assert(views(self.open@) =~= before.push(name@));
            if self.open.len() > self.deepest {
                self.deepest = self.open.len();
            }
        }
    }

    /// Reads the content of the raw-text element `name` from `from` on.
    fn read_raw_text(&mut self, text: &Vec<char>, from: usize, name: &Vec<char>)
        requires
            from <= text.len(),
        ensures
            final(self)@ == raw_text(text@, from as int, name@, old(self)@),
    {
        let end = find_raw_end(text, from, name);
        let to = match end {
            Some(p) => p,
            None => text.len(),
        };
        let hidden = alike_str(name, "script") && match find(text, &chars_of("<!--"), from) {
            Some(c) => c < to,
            None => false,
        };
        if hidden {
            self.blind = true;
        } else {
            match end {
                Some(p) => match find_end_tag_close(text, p + 2 + name.len()) {
                    Some(r) => {
                        self.close(name);
                        self.resume = r;
                    },
                    None => {
                        self.blind = true;
                    },
                },
                None => {
                    self.resume = text.len();
                },
            }
        }
    }

    /// Reads the markup that opens with the `<` at `i` in plain data.
    fn read_markup(&mut self, text: &Vec<char>, i: usize)
        requires
            i < text.len(),
            text@[i as int] == '<',
        ensures
            final(self)@ == markup(text@, i as int, old(self)@),
    {
        let n = text.len();
        if i + 1 < n && letter(text[i + 1]) {
            let e = find_name_end(text, i + 1);
            let name = slice(text, i + 1, e);
            if special_name(&name) {
                self.blind = true;
            } else {
                match find_tag_close(text, e, Place::BeforeName) {
                    Some(r) => {
                        if raw_name(&name) {
                            self.read_raw_text(text, r, &name);
                        } else {
                            self.resume = r;
                        }
                    },
                    None => {
                        self.blind = true;
                    },
                }
            }
        } else if i + 1 < n && text[i + 1] == '/' && i + 2 < n && letter(text[i + 2]) {
            let e = find_name_end(text, i + 2);
            let name = slice(text, i + 2, e);
            match find_end_tag_close(text, e) {
                Some(r) => {
                    self.close(&name);
                    self.resume = r;
                },
                None => {
                    self.blind = true;
                },
            }
        } else {
            let opens = matches_at(text, &chars_of("<!--"), i);
            proof {
                reveal_strlit("<!--");
                reveal_strlit(">");
                reveal_strlit("->");
            }
            let closes_at_once = opens && (matches_at(text, &chars_of(">"), i + 4) || matches_at(
                text,
                &chars_of("->"),
                i + 4,
            ));
            if opens && !closes_at_once {
                match find_comment_close(text, i + 4) {
                    Some(r) => {
                        self.resume = r;
                    },
                    None => {
                        self.blind = true;
                    },
                }
            } else if i + 1 < n && (text[i + 1] == '/' || text[i + 1] == '!' || text[i + 1]
                == '?') {
                self.resume = match find_char(text, '>', i + 1) {
                    Some(g) => g + 1,
                    None => n,
                };
            }
        }
    }

    /// Reads position `i`.
    fn read(&mut self, text: &Vec<char>, i: usize)
        requires
            i < text.len(),
        ensures
            final(self)@ == step(text@, i as int, old(self)@),
    {
        if text[i] == '<' {
            if i + 1 < text.len() && letter(text[i + 1]) {
                self.count(text, i);
            }
            if !self.blind && i >= self.resume {
                self.read_markup(text, i);
            }
        }
    }
}

/// Bounds how deep the elements of `text` nest.
pub fn nesting_of(text: &Vec<char>) -> (r: usize)
    ensures
        r == nesting(text@),
{
    let mut scanner = Scanner::new();
    let mut i: usize = 0;
    while i < text.len()
        invariant
            i <= text.len(),
            scan(text@, 0, start()) == scan(text@, i as int, scanner@),
        decreases text.len() - i,
    {
        scanner.read(text, i);
        i += 1;
    }
    scanner.deepest
}

/// Whether `text` nests no deeper than a text may that goes to the generic
/// converter.
pub fn is_shallow(text: &str) -> (r: bool)
    ensures
        r == shallow(text@),
{
    nesting_of(&chars_of(text)) <= MAX_NESTING
}

} // verus!
