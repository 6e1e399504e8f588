//! The page converter: a short pipeline for the bodies of pages and
//! comments, which keeps the alternative text of images through the generic
//! converter by way of placeholders.

use vstd::prelude::*;
use crate::brackets::{
    count, count_from, lemma_count_bound, lemma_count_joined, lemma_count_nothing, lemma_one_char,
};
pub use crate::markdown::common::normalize_whitespace;
use crate::markdown::common::{normalized_whitespace, tidy_lines};
use crate::markdown::converter::{convert_guarded, guarded_markdown, tag_names};
use crate::scan::{
    end_of, exhausted, find_end, first_element, lemma_element_span, lemma_exhausted_len,
    lemma_exhausted_stable, lemma_span_shrinks, rewrite_shrinking, shortens, shrinking, Rewrite,
    Span,
};
use crate::text::{
    append, between, chars_of, copy_of, find, find_char, find_from, is_str, lemma_between_len,
    lemma_find_from, lemma_replace_with_nothing_len, lemma_trim_len, occurs_at, push_str,
    replace_all, replaced, replaced_str, slice, splice, spliced, string_of, text_between_str,
    text_of, trim, trimmed, views,
};

verus! {

/// The text that opens a placeholder.
pub const IMAGE_PLACEHOLDER_PREFIX: &'static str = "IMGPLACEHOLDER";

/// The text that closes a placeholder.
pub const IMAGE_PLACEHOLDER_SUFFIX: &'static str = "END";

// ---------------------------------------------------------------------------
// Custom elements
// ---------------------------------------------------------------------------

/// `s` without the opening and closing tags of the custom namespaces.
pub open spec fn without_confluence_tags(s: Seq<char>) -> Seq<char> {
    let a = exhausted(Span { open: "<ac:", close: ">" }, s);
    let b = exhausted(Span { open: "<ri:", close: ">" }, a);
    let c = exhausted(Span { open: "</ac:", close: ">" }, b);
    exhausted(Span { open: "</ri:", close: ">" }, c)
}

/// Takes the opening and closing tags of the custom namespaces out of
/// `html`.
pub fn remove_confluence_tags(html: &Vec<char>) -> (r: Vec<char>)
    ensures
        r@ == without_confluence_tags(html@),
{
    let a = rewrite_shrinking(&Span { open: "<ac:", close: ">" }, html);
    let b = rewrite_shrinking(&Span { open: "<ri:", close: ">" }, &a);
    let c = rewrite_shrinking(&Span { open: "</ac:", close: ">" }, &b);
    rewrite_shrinking(&Span { open: "</ri:", close: ">" }, &c)
}

/// What an image element becomes: an `img` element whose alternative text
/// is the attachment's file name; nothing where it names no attachment.
pub open spec fn confluence_image(block: Seq<char>) -> Seq<char> {
    match between(block, "ri:filename=\""@, "\""@) {
        Some(filename) => "<img alt=\""@ + filename + "\"/>"@,
        None => Seq::empty(),
    }
}

/// Renders one image element.
pub fn extract_confluence_image(block: &Vec<char>) -> (r: Vec<char>)
    ensures
        r@ == confluence_image(block@),
{
    match text_between_str(block, "ri:filename=\"", "\"") {
        Some(filename) => {
            let mut out = chars_of("<img alt=\"");
            append(&mut out, &filename);
            push_str(&mut out, "\"/>");
            out
        },
        None => Vec::new(),
    }
}

/// `s` without the marks of a character-data section, trimmed.
pub open spec fn plain_text(s: Seq<char>) -> Seq<char> {
    trim(replace_all(replace_all(s, "<![CDATA["@, ""@), "]]>"@, ""@))
}

/// What a link element becomes: its plain-text body, or else the title of
/// what it points to, or else nothing.
pub open spec fn link_text(block: Seq<char>) -> Seq<char> {
    match between(block, "<ac:plain-text-link-body>"@, "</ac:plain-text-link-body>"@) {
        Some(body) => plain_text(body),
        None => match between(block, "ri:content-title=\""@, "\""@) {
            Some(title) => title,
            None => Seq::empty(),
        },
    }
}

/// Takes the marks of a character-data section out of `text` and trims it.
fn plain(text: &Vec<char>) -> (r: Vec<char>)
    ensures
        r@ == plain_text(text@),
{
    trimmed(&replaced_str(&replaced_str(text, "<![CDATA[", ""), "]]>", ""))
}

/// Renders one link element.
pub fn extract_link_text(block: &Vec<char>) -> (r: Vec<char>)
    ensures
        r@ == link_text(block@),
{
    match text_between_str(block, "<ac:plain-text-link-body>", "</ac:plain-text-link-body>") {
        Some(body) => plain(&body),
        None => match text_between_str(block, "ri:content-title=\"", "\"") {
            Some(title) => title,
            None => Vec::new(),
        },
    }
}

/// The plain-text body of a macro, without character-data marks, trimmed.
pub open spec fn plain_text_body(block: Seq<char>) -> Option<Seq<char>> {
    match between(block, "<ac:plain-text-body>"@, "</ac:plain-text-body>"@) {
        Some(body) => Some(plain_text(body)),
        None => None,
    }
}

/// The rich-text body of a macro, without custom tags, trimmed.
pub open spec fn rich_text_body(block: Seq<char>) -> Option<Seq<char>> {
    match between(block, "<ac:rich-text-body>"@, "</ac:rich-text-body>"@) {
        Some(body) => Some(trim(without_confluence_tags(body))),
        None => None,
    }
}

/// Reads the plain-text body of a macro.
pub fn extract_plain_text_body(block: &Vec<char>) -> (r: Option<Vec<char>>)
    ensures
        text_of(r) == plain_text_body(block@),
{
    match text_between_str(block, "<ac:plain-text-body>", "</ac:plain-text-body>") {
        Some(body) => Some(plain(&body)),
        None => None,
    }
}

/// Reads the rich-text body of a macro.
pub fn extract_rich_text_body(block: &Vec<char>) -> (r: Option<Vec<char>>)
    ensures
        text_of(r) == rich_text_body(block@),
{
    match text_between_str(block, "<ac:rich-text-body>", "</ac:rich-text-body>") {
        Some(body) => Some(trimmed(&remove_confluence_tags(&body))),
        None => None,
    }
}

/// The name of a macro: what follows the first `ac:name="` up to the next
/// quote, or up to the end of the block where no quote follows; empty where
/// the block has no such attribute.
pub open spec fn macro_name(block: Seq<char>) -> Seq<char> {
    match find_from(block, "ac:name=\""@, 0) {
        Some(i) => {
            let start = i + "ac:name=\""@.len();
            match find_from(block, seq!['"'], start) {
                Some(q) => block.subrange(start, q),
                None => block.subrange(start, block.len() as int),
            }
        },
        None => Seq::empty(),
    }
}

/// The label of a panel macro.
pub open spec fn panel_label(name: Seq<char>) -> Seq<char> {
    if name == "info"@ {
        "INFO"@
    } else if name == "note"@ {
        "NOTE"@
    } else if name == "warning"@ {
        "WARNING"@
    } else {
        "TIP"@
    }
}

/// The rich-text body of the block, or nothing.
pub open spec fn rich_text_or_nothing(block: Seq<char>) -> Seq<char> {
    match rich_text_body(block) {
        Some(body) => body,
        None => Seq::empty(),
    }
}

/// What a macro becomes. Code becomes a preformatted block of its
/// plain-text body, a panel a block quote of its rich-text body under the
/// panel's label, a table of contents nothing; every other macro, and a
/// code or panel macro without the body it needs, becomes its rich-text
/// body.
pub open spec fn macro_html(block: Seq<char>) -> Seq<char> {
    let name = macro_name(block);
    if name == "code"@ || name == "noformat"@ {
        match plain_text_body(block) {
            Some(body) => "<pre><code>"@ + body + "</code></pre>"@,
            None => rich_text_or_nothing(block),
        }
    } else if name == "info"@ || name == "note"@ || name == "warning"@ || name == "tip"@ {
        match rich_text_body(block) {
            Some(body) => "> **"@ + panel_label(name) + "**: "@ + body,
            None => Seq::empty(),
        }
    } else if name == "toc"@ {
        Seq::empty()
    } else {
        rich_text_or_nothing(block)
    }
}

/// Reads the name of a macro.
fn read_macro_name(block: &Vec<char>) -> (r: Vec<char>)
    ensures
        r@ == macro_name(block@),
{
    let open = chars_of("ac:name=\"");
    match find(block, &open, 0) {
        Some(i) => {
            let start = i + open.len();
            match find_char(block, '"', start) {
                Some(q) => slice(block, start, q),
                None => slice(block, start, block.len()),
            }
        },
        None => Vec::new(),
    }
}

/// Renders one macro.
pub fn process_macro(block: &Vec<char>) -> (r: Vec<char>)
    ensures
        r@ == macro_html(block@),
{
    let name = read_macro_name(block);
    if is_str(&name, "code") || is_str(&name, "noformat") {
        match extract_plain_text_body(block) {
            Some(body) => {
                let mut out = chars_of("<pre><code>");
                append(&mut out, &body);
                push_str(&mut out, "</code></pre>");
                return out;
            },
            None => {},
        }
    } else if is_str(&name, "info") || is_str(&name, "note") || is_str(&name, "warning")
        || is_str(&name, "tip") {
        let label = if is_str(&name, "info") {
            "INFO"
        } else if is_str(&name, "note") {
            "NOTE"
        } else if is_str(&name, "warning") {
            "WARNING"
        } else {
            "TIP"
        };
        match extract_rich_text_body(block) {
            Some(body) => {
                let mut out = chars_of("> **");
                push_str(&mut out, label);
                push_str(&mut out, "**: ");
                append(&mut out, &body);
                return out;
            },
            None => {
                return Vec::new();
            },
        }
    } else if is_str(&name, "toc") {
        return Vec::new();
    }
    match extract_rich_text_body(block) {
        Some(body) => body,
        None => Vec::new(),
    }
}

/// The pass that drops emoticons.
pub struct DropEmoticons;

impl Rewrite for DropEmoticons {
    open spec fn step(&self, s: Seq<char>) -> Option<Seq<char>> {
        match crate::scan::element_span(s, "<ac:emoticon"@, "/>"@, "</ac:emoticon>"@) {
            Some((a, b)) => Some(splice(s, a, b, Seq::empty())),
            None => None,
        }
    }

    fn apply(&self, s: &Vec<char>) -> (r: Option<Vec<char>>) {
        match first_element(s, "<ac:emoticon", "/>", "</ac:emoticon>") {
            Some((a, b)) => Some(spliced(s, a, b, &Vec::new())),
            None => None,
        }
    }
}

/// The pass that turns image elements into `img` elements: one that ends
/// with its closing tag is rewritten, one that only ends with a `/>` is
/// dropped.
pub struct ImageTags;

impl Rewrite for ImageTags {
    open spec fn step(&self, s: Seq<char>) -> Option<Seq<char>> {
        match find_from(s, "<ac:image"@, 0) {
            None => None,
            Some(a) => match end_of(s, a, "</ac:image>"@) {
                Some(b) => Some(splice(s, a, b, confluence_image(s.subrange(a, b)))),
                None => match end_of(s, a, "/>"@) {
                    Some(b) => Some(splice(s, a, b, Seq::empty())),
                    None => None,
                },
            },
        }
    }

    fn apply(&self, s: &Vec<char>) -> (r: Option<Vec<char>>) {
        let open = chars_of("<ac:image");
        match find(s, &open, 0) {
            None => None,
            Some(a) => match find_end(s, a, "</ac:image>") {
                Some(b) => Some(spliced(s, a, b, &extract_confluence_image(&slice(s, a, b)))),
                None => match find_end(s, a, "/>") {
                    Some(b) => Some(spliced(s, a, b, &Vec::new())),
                    None => None,
                },
            },
        }
    }
}

/// The pass that turns link elements into their text.
pub struct LinkTexts;

impl Rewrite for LinkTexts {
    open spec fn step(&self, s: Seq<char>) -> Option<Seq<char>> {
        match crate::scan::element_span(s, "<ac:link"@, "</ac:link>"@, "</ac:link>"@) {
            Some((a, b)) => Some(splice(s, a, b, link_text(s.subrange(a, b)))),
            None => None,
        }
    }

    fn apply(&self, s: &Vec<char>) -> (r: Option<Vec<char>>) {
        match first_element(s, "<ac:link", "</ac:link>", "</ac:link>") {
            Some((a, b)) => Some(spliced(s, a, b, &extract_link_text(&slice(s, a, b)))),
            None => None,
        }
    }
}

/// The pass that turns structured macros into HTML and Markdown.
pub struct MacroBodies;

impl Rewrite for MacroBodies {
    open spec fn step(&self, s: Seq<char>) -> Option<Seq<char>> {
        match crate::scan::element_span(
            s,
            "<ac:structured-macro"@,
            "</ac:structured-macro>"@,
            "</ac:structured-macro>"@,
        ) {
            Some((a, b)) => Some(splice(s, a, b, macro_html(s.subrange(a, b)))),
            None => None,
        }
    }

    fn apply(&self, s: &Vec<char>) -> (r: Option<Vec<char>>) {
        match first_element(
            s,
            "<ac:structured-macro",
            "</ac:structured-macro>",
            "</ac:structured-macro>",
        ) {
            Some((a, b)) => Some(spliced(s, a, b, &process_macro(&slice(s, a, b)))),
            None => None,
        }
    }
}

/// The text after the passes over emoticons, images, links and macros and
/// the removal of the custom tags that are left. Each pass goes on for as
/// long as it finds an element and its step shortens the text.
pub open spec fn cleaned(html: Seq<char>) -> Seq<char> {
    let a = exhausted(DropEmoticons, html);
    let b = exhausted(ImageTags, a);
    let c = exhausted(LinkTexts, b);
    let d = exhausted(MacroBodies, c);
    without_confluence_tags(d)
}

/// Taking the custom tags out never lengthens a text.
proof fn lemma_without_confluence_tags_len(s: Seq<char>)
    ensures
        without_confluence_tags(s).len() <= s.len(),
{
    let a = exhausted(Span { open: "<ac:", close: ">" }, s);
    let b = exhausted(Span { open: "<ri:", close: ">" }, a);
    let c = exhausted(Span { open: "</ac:", close: ">" }, b);
    lemma_exhausted_len(Span { open: "<ac:", close: ">" }, s);
    lemma_exhausted_len(Span { open: "<ri:", close: ">" }, a);
    lemma_exhausted_len(Span { open: "</ac:", close: ">" }, b);
    lemma_exhausted_len(Span { open: "</ri:", close: ">" }, c);
}

/// A plain text is no longer than what it is made from.
proof fn lemma_plain_text_len(s: Seq<char>)
    ensures
        plain_text(s).len() <= s.len(),
{
    reveal_strlit("");
    assert(""@ =~= Seq::<char>::empty());
    let a = replace_all(s, "<![CDATA["@, ""@);
    lemma_replace_with_nothing_len(s, "<![CDATA["@, 0);
    lemma_replace_with_nothing_len(a, "]]>"@, 0);
    lemma_trim_len(replace_all(a, "]]>"@, ""@));
}

/// What stands for an image is shorter than the image element.
proof fn lemma_confluence_image_len(block: Seq<char>)
    requires
        block.len() > 0,
    ensures
        confluence_image(block).len() < block.len(),
{
    reveal_strlit("ri:filename=\"");
    reveal_strlit("\"");
    reveal_strlit("<img alt=\"");
    reveal_strlit("\"/>");
    lemma_between_len(block, "ri:filename=\""@, "\""@);
}

/// What stands for a macro is shorter than the macro element.
proof fn lemma_macro_html_len(block: Seq<char>)
    requires
        block.len() > 0,
    ensures
        macro_html(block).len() < block.len(),
{
    reveal_strlit("<ac:plain-text-body>");
    reveal_strlit("</ac:plain-text-body>");
    reveal_strlit("<ac:rich-text-body>");
    reveal_strlit("</ac:rich-text-body>");
    reveal_strlit("<pre><code>");
    reveal_strlit("</code></pre>");
    reveal_strlit("> **");
    reveal_strlit("**: ");
    reveal_strlit("INFO");
    reveal_strlit("NOTE");
    reveal_strlit("WARNING");
    reveal_strlit("TIP");
    lemma_between_len(block, "<ac:plain-text-body>"@, "</ac:plain-text-body>"@);
    lemma_between_len(block, "<ac:rich-text-body>"@, "</ac:rich-text-body>"@);
    match between(block, "<ac:plain-text-body>"@, "</ac:plain-text-body>"@) {
        Some(body) => {
            lemma_plain_text_len(body);
        },
        None => {},
    }
    match between(block, "<ac:rich-text-body>"@, "</ac:rich-text-body>"@) {
        Some(body) => {
            lemma_without_confluence_tags_len(body);
            lemma_trim_len(without_confluence_tags(body));
        },
        None => {},
    }
}

/// Every step of every pass of the cleaner shortens the text. So each pass
/// goes on until it finds no element that it could rewrite.
pub proof fn lemma_passes_shrink()
    ensures
        shrinking(DropEmoticons),
        shrinking(ImageTags),
        shrinking(LinkTexts),
        shrinking(MacroBodies),
        shrinking(Span { open: "<ac:", close: ">" }),
        shrinking(Span { open: "<ri:", close: ">" }),
        shrinking(Span { open: "</ac:", close: ">" }),
        shrinking(Span { open: "</ri:", close: ">" }),
{
    reveal_strlit(">");
    reveal_strlit("/>");
    reveal_strlit("</ac:emoticon>");
    reveal_strlit("</ac:image>");
    reveal_strlit("</ac:link>");
    reveal_strlit("</ac:structured-macro>");
    lemma_span_shrinks(Span { open: "<ac:", close: ">" });
    lemma_span_shrinks(Span { open: "<ri:", close: ">" });
    lemma_span_shrinks(Span { open: "</ac:", close: ">" });
    lemma_span_shrinks(Span { open: "</ri:", close: ">" });
    assert forall|s: Seq<char>| #[trigger] shortens(DropEmoticons, s) by {
        lemma_element_span(s, "<ac:emoticon"@, "/>"@, "</ac:emoticon>"@);
    }
    assert forall|s: Seq<char>| #[trigger] shortens(ImageTags, s) by {
        lemma_find_from(s, "<ac:image"@, 0);
        match find_from(s, "<ac:image"@, 0) {
            Some(a) => {
                lemma_find_from(s, "</ac:image>"@, a);
                lemma_find_from(s, "/>"@, a);
                match end_of(s, a, "</ac:image>"@) {
                    Some(b) => {
                        lemma_confluence_image_len(s.subrange(a, b));
                    },
                    None => {},
                }
            },
            None => {},
        }
    }
    assert forall|s: Seq<char>| #[trigger] shortens(LinkTexts, s) by {
        lemma_element_span(s, "<ac:link"@, "</ac:link>"@, "</ac:link>"@);
        match crate::scan::element_span(s, "<ac:link"@, "</ac:link>"@, "</ac:link>"@) {
            Some((a, b)) => {
                let block = s.subrange(a, b);
                lemma_link_text_strictly_shorter(block);
            },
            None => {},
        }
    }
    assert forall|s: Seq<char>| #[trigger] shortens(MacroBodies, s) by {
        lemma_element_span(
            s,
            "<ac:structured-macro"@,
            "</ac:structured-macro>"@,
            "</ac:structured-macro>"@,
        );
        match crate::scan::element_span(
            s,
            "<ac:structured-macro"@,
            "</ac:structured-macro>"@,
            "</ac:structured-macro>"@,
        ) {
            Some((a, b)) => {
                lemma_macro_html_len(s.subrange(a, b));
            },
            None => {},
        }
    }
}

/// What stands for a link is shorter than a link element that is not
/// empty.
proof fn lemma_link_text_strictly_shorter(block: Seq<char>)
    requires
        block.len() > 0,
    ensures
        link_text(block).len() < block.len(),
{
    reveal_strlit("<ac:plain-text-link-body>");
    reveal_strlit("ri:content-title=\"");
    lemma_between_len(block, "<ac:plain-text-link-body>"@, "</ac:plain-text-link-body>"@);
    lemma_between_len(block, "ri:content-title=\""@, "\""@);
    match between(block, "<ac:plain-text-link-body>"@, "</ac:plain-text-link-body>"@) {
        Some(body) => {
            lemma_plain_text_len(body);
        },
        None => {},
    }
}

/// Rewrites the custom elements of `html` into plain HTML. Each pass stops
/// only when it finds no element that it could rewrite.
pub fn clean_confluence_html(html: &Vec<char>) -> (r: Vec<char>)
    ensures
        r@ == cleaned(html@),
{
    let a = rewrite_shrinking(&DropEmoticons, html);
    let b = rewrite_shrinking(&ImageTags, &a);
    let c = rewrite_shrinking(&LinkTexts, &b);
    let d = rewrite_shrinking(&MacroBodies, &c);
    remove_confluence_tags(&d)
}

// ---------------------------------------------------------------------------
// Image placeholders
// ---------------------------------------------------------------------------

/// The decimal digit for a number below ten.
pub open spec fn digit(d: nat) -> char {
    if d == 0 {
        '0'
    } else if d == 1 {
        '1'
    } else if d == 2 {
        '2'
    } else if d == 3 {
        '3'
    } else if d == 4 {
        '4'
    } else if d == 5 {
        '5'
    } else if d == 6 {
        '6'
    } else if d == 7 {
        '7'
    } else if d == 8 {
        '8'
    } else {
        '9'
    }
}

/// The decimal numeral of `n`.
pub open spec fn decimal(n: nat) -> Seq<char>
    decreases n,
{
    if n < 10 {
        seq![digit(n)]
    } else {
        decimal(n / 10).push(digit(n % 10))
    }
}

/// The placeholder that stands for the image with the given number.
pub open spec fn placeholder(n: nat) -> Seq<char> {
    IMAGE_PLACEHOLDER_PREFIX@ + decimal(n) + IMAGE_PLACEHOLDER_SUFFIX@
}

/// The alternative text of an `img` tag; empty where it has none.
pub open spec fn alt_attr(tag: Seq<char>) -> Seq<char> {
    match between(tag, "alt=\""@, "\""@) {
        Some(alt) => alt,
        None => Seq::empty(),
    }
}

/// The end of the `img` tag that opens at `a`: after the first `/>` found
/// from there, or else after the first `>`.
pub open spec fn img_end(s: Seq<char>, a: int) -> Option<int> {
    match end_of(s, a, "/>"@) {
        Some(b) => Some(b),
        None => end_of(s, a, ">"@),
    }
}

/// One step of the extraction when `n` images have been recorded: the first
/// `img` tag gives way to the placeholder with number `n` where it has an
/// alternative text, which is recorded, and is dropped where it has none.
/// `None` where no `img` tag is left or the first one never closes.
pub open spec fn image_step(s: Seq<char>, n: nat) -> Option<(Seq<char>, Option<Seq<char>>)> {
    match find_from(s, "<img"@, 0) {
        None => None,
        Some(a) => match img_end(s, a) {
            None => None,
            Some(b) => {
                let alt = alt_attr(s.subrange(a, b));
                if alt.len() > 0 {
                    Some((splice(s, a, b, placeholder(n)), Some(alt)))
                } else {
                    Some((splice(s, a, b, Seq::empty()), None))
                }
            },
        },
    }
}

/// The text and the recorded alternative texts after at most `fuel` steps
/// of the extraction.
pub open spec fn images_extracted(s: Seq<char>, alts: Seq<Seq<char>>, fuel: nat) -> (
    Seq<char>,
    Seq<Seq<char>>,
)
    decreases fuel,
{
    if fuel == 0 {
        (s, alts)
    } else {
        match image_step(s, alts.len()) {
            None => (s, alts),
            Some((t, found)) => images_extracted(
                t,
                match found {
                    Some(alt) => alts.push(alt),
                    None => alts,
                },
                (fuel - 1) as nat,
            ),
        }
    }
}

/// `markdown` with the placeholders of the images from number `i` on
/// replaced by references to the images.
pub open spec fn images_restored(markdown: Seq<char>, alts: Seq<Seq<char>>, i: int) -> Seq<char>
    decreases alts.len() - i,
{
    if i < 0 || i >= alts.len() {
        markdown
    } else {
        images_restored(
            replace_all(markdown, placeholder(i as nat), "[Image: "@ + alts[i] + "]"@),
            alts,
            i + 1,
        )
    }
}

/// The number of `<` in a text.
pub open spec fn tags_opened(s: Seq<char>) -> nat {
    count(s, seq!['<'])
}

/// A numeral holds no `<`.
proof fn lemma_decimal_opens_no_tag(n: nat)
    ensures
        tags_opened(decimal(n)) == 0,
    decreases n,
{
    if n < 10 {
        lemma_one_char(decimal(n), '<', 0);
        assert(count_from(decimal(n), seq!['<'], 1) == 0);
    } else {
        lemma_decimal_opens_no_tag(n / 10);
        let head = decimal(n / 10);
        let last = seq![digit(n % 10)];
        assert(decimal(n) =~= head + last);
        lemma_count_joined(head, last, '<', 0);
        lemma_one_char(last, '<', 0);
        assert(count_from(last, seq!['<'], 1) == 0);
    }
}

/// A placeholder holds no `<`.
proof fn lemma_placeholder_opens_no_tag(n: nat)
    ensures
        tags_opened(placeholder(n)) == 0,
{
    reveal_strlit("IMGPLACEHOLDER");
    reveal_strlit("END");
    let prefix = IMAGE_PLACEHOLDER_PREFIX@;
    let suffix = IMAGE_PLACEHOLDER_SUFFIX@;
    lemma_decimal_opens_no_tag(n);
    lemma_count_joined(prefix + decimal(n), suffix, '<', 0);
    lemma_count_joined(prefix, decimal(n), '<', 0);
    assert forall|j: int| 0 <= j implies !occurs_at(prefix, seq!['<'], j) by {
        lemma_one_char(prefix, '<', j);
    }
    lemma_count_nothing(prefix, seq!['<'], 0);
    assert forall|j: int| 0 <= j implies !occurs_at(suffix, seq!['<'], j) by {
        lemma_one_char(suffix, '<', j);
    }
    lemma_count_nothing(suffix, seq!['<'], 0);
}

/// A step of the extraction takes a `<` out of the text.
proof fn lemma_image_step_opens_fewer(s: Seq<char>, n: nat)
    ensures
        image_step(s, n) matches Some(next) ==> tags_opened(next.0) < tags_opened(s),
{
    reveal_strlit("<img");
    reveal_strlit("/>");
    reveal_strlit(">");
    lemma_find_from(s, "<img"@, 0);
    match find_from(s, "<img"@, 0) {
        Some(a) => {
            lemma_find_from(s, "/>"@, a);
            lemma_find_from(s, ">"@, a);
            match img_end(s, a) {
                Some(b) => {
                    let head = s.subrange(0, a);
                    let cut = s.subrange(a, b);
                    let tail = s.subrange(b, s.len() as int);
                    let alt = alt_attr(cut);
                    let put = if alt.len() > 0 {
                        placeholder(n)
                    } else {
                        Seq::<char>::empty()
                    };
                    lemma_placeholder_opens_no_tag(n);
                    assert(s =~= head + cut + tail);
                    lemma_count_joined(head + cut, tail, '<', 0);
                    lemma_count_joined(head, cut, '<', 0);
                    lemma_count_joined(head + put, tail, '<', 0);
                    lemma_count_joined(head, put, '<', 0);
                    crate::brackets::lemma_occurrence(s, "<img"@, a);
                    assert(s[a + 0] == '<');
                    lemma_one_char(cut, '<', 0);
                    assert(tags_opened(cut) >= 1);
                },
                None => {},
            }
        },
        None => {},
    }
}

/// With a budget of at least as many steps as the text has `<`, the
/// extraction stops only when it finds no `img` tag that closes.
proof fn lemma_images_run_out(s: Seq<char>, alts: Seq<Seq<char>>, fuel: nat)
    requires
        tags_opened(s) <= fuel,
    ensures
        image_step(
            images_extracted(s, alts, fuel).0,
            images_extracted(s, alts, fuel).1.len(),
        ) is None,
    decreases fuel,
{
    lemma_image_step_opens_fewer(s, alts.len());
    if fuel > 0 {
        match image_step(s, alts.len()) {
            Some((t, found)) => {
                lemma_images_run_out(
                    t,
                    match found {
                        Some(alt) => alts.push(alt),
                        None => alts,
                    },
                    (fuel - 1) as nat,
                );
            },
            None => {},
        }
    }
}

/// The extraction, with as many steps as the text has characters, leaves no
/// `img` tag that closes.
pub proof fn lemma_images_all_extracted(html: Seq<char>)
    ensures
        image_step(
            images_extracted(html, Seq::empty(), html.len()).0,
            images_extracted(html, Seq::empty(), html.len()).1.len(),
        ) is None,
{
    lemma_count_bound(html, seq!['<'], 0);
    lemma_images_run_out(html, Seq::empty(), html.len());
}

/// Each pass of the cleaner leaves its text only when it finds no element
/// that it could rewrite.
pub proof fn lemma_passes_run_out(s: Seq<char>)
    ensures
        DropEmoticons.step(exhausted(DropEmoticons, s)) is None,
        ImageTags.step(exhausted(ImageTags, s)) is None,
        LinkTexts.step(exhausted(LinkTexts, s)) is None,
        MacroBodies.step(exhausted(MacroBodies, s)) is None,
        (Span { open: "<ac:", close: ">" }).step(exhausted(Span { open: "<ac:", close: ">" }, s))
            is None,
        (Span { open: "<ri:", close: ">" }).step(exhausted(Span { open: "<ri:", close: ">" }, s))
            is None,
        (Span { open: "</ac:", close: ">" }).step(
            exhausted(Span { open: "</ac:", close: ">" }, s),
        ) is None,
        (Span { open: "</ri:", close: ">" }).step(
            exhausted(Span { open: "</ri:", close: ">" }, s),
        ) is None,
{
    lemma_passes_shrink();
    lemma_exhausted_stable(DropEmoticons, s);
    lemma_exhausted_stable(ImageTags, s);
    lemma_exhausted_stable(LinkTexts, s);
    lemma_exhausted_stable(MacroBodies, s);
    lemma_exhausted_stable(Span { open: "<ac:", close: ">" }, s);
    lemma_exhausted_stable(Span { open: "<ri:", close: ">" }, s);
    lemma_exhausted_stable(Span { open: "</ac:", close: ">" }, s);
    lemma_exhausted_stable(Span { open: "</ri:", close: ">" }, s);
}

/// Writes the decimal numeral of `n`.
pub fn decimal_of(n: usize) -> (r: Vec<char>)
    ensures
        r@ == decimal(n as nat),
    decreases n,
{
    let d = n % 10;
    let c = if d == 0 {
        '0'
    } else if d == 1 {
        '1'
    } else if d == 2 {
        '2'
    } else if d == 3 {
        '3'
    } else if d == 4 {
        '4'
    } else if d == 5 {
        '5'
    } else if d == 6 {
        '6'
    } else if d == 7 {
        '7'
    } else if d == 8 {
        '8'
    } else {
        '9'
    };
    if n < 10 {
        let r: Vec<char> = vec![c];
        assert(r@ =~= seq![digit(n as nat)]);
        r
    } else {
        let mut r = decimal_of(n / 10);
        r.push(c);
        r
    }
}

/// Writes the placeholder with number `n`.
pub fn placeholder_of(n: usize) -> (r: Vec<char>)
    ensures
        r@ == placeholder(n as nat),
{
    let mut out = chars_of(IMAGE_PLACEHOLDER_PREFIX);
    append(&mut out, &decimal_of(n));
    push_str(&mut out, IMAGE_PLACEHOLDER_SUFFIX);
    out
}

/// Reads the alternative text of an `img` tag.
pub fn extract_alt_attr(tag: &Vec<char>) -> (r: Vec<char>)
    ensures
        r@ == alt_attr(tag@),
{
    match text_between_str(tag, "alt=\"", "\"") {
        Some(alt) => alt,
        None => Vec::new(),
    }
}

/// Takes one step of the extraction.
fn extract_image(s: &Vec<char>, n: usize) -> (r: Option<(Vec<char>, Option<Vec<char>>)>)
    ensures
        match r {
            Some((t, Some(alt))) => image_step(s@, n as nat) == Some((t@, Some(alt@))),
            Some((t, None)) => image_step(s@, n as nat) == Some((t@, None::<Seq<char>>)),
            None => image_step(s@, n as nat) is None,
        },
{
    let open = chars_of("<img");
    match find(s, &open, 0) {
        None => None,
        Some(a) => {
            let end = match find_end(s, a, "/>") {
                Some(b) => Some(b),
                None => find_end(s, a, ">"),
            };
            match end {
                None => None,
                Some(b) => {
                    let alt = extract_alt_attr(&slice(s, a, b));
                    if alt.len() > 0 {
                        Some((spliced(s, a, b, &placeholder_of(n)), Some(alt)))
                    } else {
                        Some((spliced(s, a, b, &Vec::new()), None))
                    }
                },
            }
        },
    }
}

/// Puts a placeholder in the place of every `img` tag that has an
/// alternative text, and drops the others. Returns the text and the
/// alternative texts in the order of their numbers. A step takes one `<` out
/// of the text and brings none in, so the text's length bounds the steps,
/// and no `img` tag that closes is left in the result.
pub fn extract_images(html: &Vec<char>) -> (r: (Vec<char>, Vec<Vec<char>>))
    ensures
        (r.0@, views(r.1@)) == images_extracted(html@, Seq::empty(), html@.len()),
        image_step(r.0@, r.1@.len()) is None,
{
    proof {
        lemma_images_all_extracted(html@);
    }
    let mut result = copy_of(html);
    let mut image_map: Vec<Vec<char>> = Vec::new();
    let mut left: usize = html.len();
    assert(views(image_map@) =~= Seq::<Seq<char>>::empty());
    while left > 0
        invariant
            images_extracted(html@, Seq::empty(), html@.len()) == images_extracted(
                result@,
                views(image_map@),
                left as nat,
            ),
        decreases left,
    {
        let ghost before = views(image_map@);
        match extract_image(&result, image_map.len()) {
            Some((t, found)) => {
                result = t;
                match found {
                    Some(alt) => {
                        image_map.push(alt);
                        assert(views(image_map@) =~= before.push(alt@));
                    },
                    None => {},
                }
                left -= 1;
            },
            None => {
                left = 0;
            },
        }
    }
    (result, image_map)
}

/// Puts a reference to each image in the place of its placeholder.
pub fn restore_images(markdown: &Vec<char>, image_map: &Vec<Vec<char>>) -> (r: Vec<char>)
    ensures
        r@ == images_restored(markdown@, views(image_map@), 0),
{
    let mut result = copy_of(markdown);
    let mut i: usize = 0;
    while i < image_map.len()
        invariant
            i <= image_map.len(),
            images_restored(markdown@, views(image_map@), 0) == images_restored(
                result@,
                views(image_map@),
                i as int,
            ),
        decreases image_map.len() - i,
    {
        let mut reference = chars_of("[Image: ");
        append(&mut reference, &image_map[i]);
        push_str(&mut reference, "]");
        assert(views(image_map@)[i as int] == image_map@[i as int]@);
        result = replaced(&result, &placeholder_of(i), &reference);
        i += 1;
    }
    result
}

// ---------------------------------------------------------------------------
// The converter
// ---------------------------------------------------------------------------

/// What the converter makes of a text and of what the generic converter
/// returned for its prepared form: the converted text, or the text itself
/// where the generic converter failed or was not asked, with the images
/// restored and the blank lines tidied.
pub open spec fn assembled(
    html: Seq<char>,
    converted: Option<Seq<char>>,
    alts: Seq<Seq<char>>,
) -> Seq<char> {
    normalized_whitespace(
        images_restored(
            match converted {
                Some(markdown) => markdown,
                None => html,
            },
            alts,
            0,
        ),
    )
}

/// The text that is handed to the generic converter, and the alternative
/// texts of its images.
pub open spec fn prepared(html: Seq<char>) -> (Seq<char>, Seq<Seq<char>>) {
    images_extracted(cleaned(html), Seq::empty(), cleaned(html).len())
}

/// The tags whose elements the generic converter leaves out.
pub open spec fn skipped_tags() -> Seq<Seq<char>> {
    seq!["script"@, "style"@]
}

/// The Markdown that the converter makes of a text.
pub open spec fn converted(html: Seq<char>) -> Seq<char> {
    assembled(html, guarded_markdown(skipped_tags(), prepared(html).0), prepared(html).1)
}

/// Finishes a conversion: takes the converted text, or `html` where there
/// is none, restores the images and tidies the blank lines.
pub fn assemble(html: &str, converted: Option<String>, image_map: &Vec<Vec<char>>) -> (r: String)
    ensures
        r@ == assembled(
            html@,
            match converted {
                Some(markdown) => Some(markdown@),
                None => None,
            },
            views(image_map@),
        ),
{
    let markdown = match converted {
        Some(markdown) => chars_of(markdown.as_str()),
        None => chars_of(html),
    };
    string_of(&tidy_lines(&restore_images(&markdown, image_map)))
}

/// Converts a text in the custom markup into Markdown.
pub fn convert_to_markdown(html: &str) -> (r: String)
    ensures
        r@ == converted(html@),
{
    let cleaned = clean_confluence_html(&chars_of(html));
    let (cleaned, image_map) = extract_images(&cleaned);
    let skip: Vec<&'static str> = vec!["script", "style"];
    assert(tag_names(skip@) =~= skipped_tags());
    let converted = convert_guarded(string_of(&cleaned).as_str(), skip);
    assemble(html, converted, &image_map)
}

} // verus!
