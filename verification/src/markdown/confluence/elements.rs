//! The custom markup normalizer: rewrites the elements of the custom
//! namespaces into text that a generic HTML converter understands.
//!
//! Seven passes run in a fixed order, each over the result of the one
//! before: emoticons, images, links, structured macros, task lists,
//! extension blocks, and the removal of what custom tags are left.

use vstd::prelude::*;
use crate::brackets::{count, lemma_count_zero, lemma_tags_cut, well_bracketed};
use crate::markdown::confluence::macros::{macro_markdown, render_macro};
use crate::scan::{
    cut_span, element_span, end_of, find_end, first_element, lemma_nothing_to_rewrite, rewrite_all,
    rewritten, Container, Rewrite, Span, MAX_ITERATIONS,
};
use crate::text::{
    append, between, blank, chars_of, contains_str, find, find_char, find_from, is_blank, is_str,
    join, joined, lemma_find_from, lemma_start_absent, occurs, occurs_at, push_str, replace_all,
    replaced_str, slice, splice, spliced, string_of, strip_html_tags, strip_tags, text_between,
    text_between_str, text_of, trim, trimmed, views,
};

verus! {

// ---------------------------------------------------------------------------
// Emoticons
// ---------------------------------------------------------------------------

/// The token that stands for an emoticon of the given name; a name without
/// a token stands for itself.
pub open spec fn emoticon_token(name: Seq<char>) -> Seq<char> {
    if name == "smile"@ || name == "smiley"@ {
        ":)"@
    } else if name == "sad"@ {
        ":("@
    } else if name == "wink"@ {
        ";)"@
    } else if name == "laugh"@ {
        ":D"@
    } else if name == "thumbs-up"@ {
        "(y)"@
    } else if name == "thumbs-down"@ {
        "(n)"@
    } else if name == "tick"@ || name == "check"@ {
        "[x]"@
    } else if name == "cross"@ || name == "error"@ || name == "warning"@ {
        "[!]"@
    } else if name == "information"@ || name == "info"@ {
        "(i)"@
    } else if name == "question"@ {
        "(?)"@
    } else if name == "light-on"@ || name == "idea"@ {
        "(!)"@
    } else if name == "star"@ {
        "(*)"@
    } else if name == "heart"@ {
        "<3"@
    } else {
        name
    }
}

/// What an emoticon element becomes: the token of its name, nothing where
/// it has no name.
pub open spec fn emoticon_shortname(tag: Seq<char>) -> Seq<char> {
    match between(tag, "ac:name=\""@, "\""@) {
        Some(name) => emoticon_token(name),
        None => Seq::empty(),
    }
}

/// Gives the token of an emoticon name.
pub fn emoticon_for(name: Vec<char>) -> (r: Vec<char>)
    ensures
        r@ == emoticon_token(name@),
{
    if is_str(&name, "smile") || is_str(&name, "smiley") {
        chars_of(":)")
    } else if is_str(&name, "sad") {
        chars_of(":(")
    } else if is_str(&name, "wink") {
        chars_of(";)")
    } else if is_str(&name, "laugh") {
        chars_of(":D")
    } else if is_str(&name, "thumbs-up") {
        chars_of("(y)")
    } else if is_str(&name, "thumbs-down") {
        chars_of("(n)")
    } else if is_str(&name, "tick") || is_str(&name, "check") {
        chars_of("[x]")
    } else if is_str(&name, "cross") || is_str(&name, "error") || is_str(&name, "warning") {
        chars_of("[!]")
    } else if is_str(&name, "information") || is_str(&name, "info") {
        chars_of("(i)")
    } else if is_str(&name, "question") {
        chars_of("(?)")
    } else if is_str(&name, "light-on") || is_str(&name, "idea") {
        chars_of("(!)")
    } else if is_str(&name, "star") {
        chars_of("(*)")
    } else if is_str(&name, "heart") {
        chars_of("<3")
    } else {
        name
    }
}

/// Renders one emoticon element.
pub fn extract_emoticon_shortname(tag: &Vec<char>) -> (r: Vec<char>)
    ensures
        r@ == emoticon_shortname(tag@),
{
    match text_between_str(tag, "ac:name=\"", "\"") {
        Some(name) => emoticon_for(name),
        None => Vec::new(),
    }
}

/// The pass over emoticons: an element ends with the first `/>` after its
/// start or else with its closing tag.
pub struct Emoticons;

impl Rewrite for Emoticons {
    open spec fn step(&self, s: Seq<char>) -> Option<Seq<char>> {
        match element_span(s, "<ac:emoticon"@, "/>"@, "</ac:emoticon>"@) {
            Some((a, b)) => Some(splice(s, a, b, emoticon_shortname(s.subrange(a, b)))),
            None => None,
        }
    }

    fn apply(&self, s: &Vec<char>) -> (r: Option<Vec<char>>) {
        match first_element(s, "<ac:emoticon", "/>", "</ac:emoticon>") {
            Some((a, b)) => Some(spliced(s, a, b, &extract_emoticon_shortname(&slice(s, a, b)))),
            None => None,
        }
    }
}

/// Replaces the emoticons of `html` by their tokens.
pub fn process_emoticons(html: &Vec<char>) -> (r: Vec<char>)
    ensures
        r@ == rewritten(Emoticons, html@, MAX_ITERATIONS as nat),
{
    rewrite_all(&Emoticons, html, MAX_ITERATIONS)
}

// ---------------------------------------------------------------------------
// Images
// ---------------------------------------------------------------------------

/// What an image element becomes: a reference by the attachment's file
/// name, or else a Markdown image of the external address, or else a
/// reference by a non-empty alternative text, or else a bare label.
pub open spec fn image_info(block: Seq<char>) -> Seq<char> {
    match between(block, "ri:filename=\""@, "\""@) {
        Some(filename) => "[Image: "@ + filename + "]"@,
        None => match between(block, "ri:value=\""@, "\""@) {
            Some(url) => "![Image]("@ + url + ")"@,
            None => match between(block, "ac:alt=\""@, "\""@) {
                Some(alt) => if alt.len() > 0 {
                    "[Image: "@ + alt + "]"@
                } else {
                    "[Image]"@
                },
                None => "[Image]"@,
            },
        },
    }
}

/// Renders one image element.
pub fn extract_image_info(block: &Vec<char>) -> (r: Vec<char>)
    ensures
        r@ == image_info(block@),
{
    match text_between_str(block, "ri:filename=\"", "\"") {
        Some(filename) => {
            let mut out = chars_of("[Image: ");
            append(&mut out, &filename);
            push_str(&mut out, "]");
            return out;
        },
        None => {},
    }
    match text_between_str(block, "ri:value=\"", "\"") {
        Some(url) => {
            let mut out = chars_of("![Image](");
            append(&mut out, &url);
            push_str(&mut out, ")");
            return out;
        },
        None => {},
    }
    match text_between_str(block, "ac:alt=\"", "\"") {
        Some(alt) => {
            if alt.len() > 0 {
                let mut out = chars_of("[Image: ");
                append(&mut out, &alt);
                push_str(&mut out, "]");
                return out;
            }
        },
        None => {},
    }
    chars_of("[Image]")
}

/// The pass over images: an element ends with its closing tag or else with
/// the first `/>` after its start.
pub struct Images;

impl Rewrite for Images {
    open spec fn step(&self, s: Seq<char>) -> Option<Seq<char>> {
        match element_span(s, "<ac:image"@, "</ac:image>"@, "/>"@) {
            Some((a, b)) => Some(splice(s, a, b, image_info(s.subrange(a, b)))),
            None => None,
        }
    }

    fn apply(&self, s: &Vec<char>) -> (r: Option<Vec<char>>) {
        match first_element(s, "<ac:image", "</ac:image>", "/>") {
            Some((a, b)) => Some(spliced(s, a, b, &extract_image_info(&slice(s, a, b)))),
            None => None,
        }
    }
}

/// Replaces the images of `html` by references to them.
pub fn process_images(html: &Vec<char>) -> (r: Vec<char>)
    ensures
        r@ == rewritten(Images, html@, MAX_ITERATIONS as nat),
{
    rewrite_all(&Images, html, MAX_ITERATIONS)
}

// ---------------------------------------------------------------------------
// Links and mentions
// ---------------------------------------------------------------------------

/// The value of the attribute `name` in the block.
pub open spec fn attr(block: Seq<char>, name: Seq<char>) -> Option<Seq<char>> {
    between(block, name + "=\""@, "\""@)
}

/// The rich body of a link without its tags; none where that is blank.
pub open spec fn link_body(block: Seq<char>) -> Option<Seq<char>> {
    match between(block, "<ac:link-body>"@, "</ac:link-body>"@) {
        Some(content) => if is_blank(strip_tags(content)) {
            None
        } else {
            Some(strip_tags(content))
        },
        None => None,
    }
}

/// The plain-text body of a link without character-data marks, trimmed;
/// none where that is empty.
pub open spec fn plain_text_body(block: Seq<char>) -> Option<Seq<char>> {
    match between(block, "<ac:plain-text-link-body>"@, "</ac:plain-text-link-body>"@) {
        Some(content) => {
            let text = trim(
                replace_all(replace_all(content, "<![CDATA["@, ""@), "]]>"@, ""@),
            );
            if text.len() == 0 {
                None
            } else {
                Some(text)
            }
        },
        None => None,
    }
}

/// The title of the content that a reference points to.
pub open spec fn content_title(block: Seq<char>) -> Option<Seq<char>> {
    between(block, "ri:content-title=\""@, "\""@)
}

/// The text that a link shows: its rich body, or else its plain-text body,
/// or else the title of what it points to.
pub open spec fn link_text(block: Seq<char>) -> Option<Seq<char>> {
    match link_body(block) {
        Some(t) => Some(t),
        None => match plain_text_body(block) {
            Some(t) => Some(t),
            None => content_title(block),
        },
    }
}

/// What a link points to: a page, a user, an attachment, an external
/// address or an anchor, whichever the block names first in this order.
pub open spec fn link_target(block: Seq<char>) -> Option<Seq<char>> {
    if occurs(block, "<ri:page"@) {
        match content_title(block) {
            Some(title) => match attr(block, "ri:space-key"@) {
                Some(space) => Some("page:"@ + space + "/"@ + title),
                None => Some("page:"@ + title),
            },
            None => None,
        }
    } else if occurs(block, "<ri:user"@) {
        match attr(block, "ri:account-id"@) {
            Some(id) => Some("@"@ + id),
            None => match attr(block, "ri:userkey"@) {
                Some(id) => Some("@"@ + id),
                None => None,
            },
        }
    } else if occurs(block, "<ri:attachment"@) {
        match attr(block, "ri:filename"@) {
            Some(filename) => Some("attachment:"@ + filename),
            None => None,
        }
    } else if occurs(block, "<ri:url"@) {
        attr(block, "ri:value"@)
    } else {
        match attr(block, "ac:anchor"@) {
            Some(anchor) => Some("#"@ + anchor),
            None => None,
        }
    }
}

/// A Markdown link from a text and a target, the text alone, the target as
/// its own text, or nothing.
pub open spec fn link_markdown(text: Option<Seq<char>>, target: Option<Seq<char>>) -> Seq<char> {
    match (text, target) {
        (Some(t), Some(u)) => "["@ + trim(t) + "]("@ + u + ")"@,
        (Some(t), None) => trim(t),
        (None, Some(u)) => "["@ + u + "]("@ + u + ")"@,
        (None, None) => Seq::empty(),
    }
}

/// What a link element becomes.
pub open spec fn link_info(block: Seq<char>) -> Seq<char> {
    link_markdown(link_text(block), link_target(block))
}

/// Reads the value of the attribute `name`.
pub fn extract_attr(block: &Vec<char>, name: &str) -> (r: Option<Vec<char>>)
    ensures
        text_of(r) == attr(block@, name@),
{
    let mut pattern = chars_of(name);
    push_str(&mut pattern, "=\"");
    let quote = chars_of("\"");
    text_between(block, &pattern, &quote)
}

/// Reads the rich body of a link.
pub fn extract_link_body(block: &Vec<char>) -> (r: Option<Vec<char>>)
    ensures
        text_of(r) == link_body(block@),
{
    match text_between_str(block, "<ac:link-body>", "</ac:link-body>") {
        Some(content) => {
            let text = strip_html_tags(&content);
            if blank(&text) {
                None
            } else {
                Some(text)
            }
        },
        None => None,
    }
}

/// Reads the plain-text body of a link.
pub fn extract_plain_text_body(block: &Vec<char>) -> (r: Option<Vec<char>>)
    ensures
        text_of(r) == plain_text_body(block@),
{
    match text_between_str(block, "<ac:plain-text-link-body>", "</ac:plain-text-link-body>") {
        Some(content) => {
            let text = trimmed(&replaced_str(&replaced_str(&content, "<![CDATA[", ""), "]]>", ""));
            if text.len() == 0 {
                None
            } else {
                Some(text)
            }
        },
        None => None,
    }
}

/// Reads the title of the content that a reference points to.
pub fn extract_ri_content_title(block: &Vec<char>) -> (r: Option<Vec<char>>)
    ensures
        text_of(r) == content_title(block@),
{
    text_between_str(block, "ri:content-title=\"", "\"")
}

/// Puts `prefix` in front of `text`.
fn prefixed(prefix: &str, text: &Vec<char>) -> (r: Vec<char>)
    ensures
        r@ == prefix@ + text@,
{
    let mut out = chars_of(prefix);
    append(&mut out, text);
    out
}

/// Reads what a link points to.
pub fn extract_link_target(block: &Vec<char>) -> (r: Option<Vec<char>>)
    ensures
        text_of(r) == link_target(block@),
{
    if contains_str(block, "<ri:page") {
        match extract_ri_content_title(block) {
            Some(title) => match extract_attr(block, "ri:space-key") {
                Some(space) => {
                    let mut out = prefixed("page:", &space);
                    push_str(&mut out, "/");
                    append(&mut out, &title);
                    Some(out)
                },
                None => Some(prefixed("page:", &title)),
            },
            None => None,
        }
    } else if contains_str(block, "<ri:user") {
        match extract_attr(block, "ri:account-id") {
            Some(id) => Some(prefixed("@", &id)),
            None => match extract_attr(block, "ri:userkey") {
                Some(id) => Some(prefixed("@", &id)),
                None => None,
            },
        }
    } else if contains_str(block, "<ri:attachment") {
        match extract_attr(block, "ri:filename") {
            Some(filename) => Some(prefixed("attachment:", &filename)),
            None => None,
        }
    } else if contains_str(block, "<ri:url") {
        extract_attr(block, "ri:value")
    } else {
        match extract_attr(block, "ac:anchor") {
            Some(anchor) => Some(prefixed("#", &anchor)),
            None => None,
        }
    }
}

/// Writes a Markdown link with the given text and target.
fn markdown_link(text: &Vec<char>, target: &Vec<char>) -> (r: Vec<char>)
    ensures
        r@ == "["@ + text@ + "]("@ + target@ + ")"@,
{
    let mut out = chars_of("[");
    append(&mut out, text);
    push_str(&mut out, "](");
    append(&mut out, target);
    push_str(&mut out, ")");
    out
}

/// Renders one link element.
pub fn extract_link_info(block: &Vec<char>) -> (r: Vec<char>)
    ensures
        r@ == link_info(block@),
{
    let display_text = match extract_link_body(block) {
        Some(t) => Some(t),
        None => match extract_plain_text_body(block) {
            Some(t) => Some(t),
            None => extract_ri_content_title(block),
        },
    };
    let target = extract_link_target(block);
    match (display_text, target) {
        (Some(text), Some(url)) => markdown_link(&trimmed(&text), &url),
        (Some(text), None) => trimmed(&text),
        (None, Some(url)) => markdown_link(&url, &url),
        (None, None) => Vec::new(),
    }
}

/// The pass over links: an element that ends with its closing tag becomes
/// its Markdown; one that only ends with a `/>` is dropped.
pub struct Links;

impl Rewrite for Links {
    open spec fn step(&self, s: Seq<char>) -> Option<Seq<char>> {
        match find_from(s, "<ac:link"@, 0) {
            None => None,
            Some(a) => match end_of(s, a, "</ac:link>"@) {
                Some(b) => Some(splice(s, a, b, link_info(s.subrange(a, b)))),
                None => match end_of(s, a, "/>"@) {
                    Some(b) => Some(splice(s, a, b, Seq::empty())),
                    None => None,
                },
            },
        }
    }

    fn apply(&self, s: &Vec<char>) -> (r: Option<Vec<char>>) {
        let open = chars_of("<ac:link");
        match find(s, &open, 0) {
            None => None,
            Some(a) => match find_end(s, a, "</ac:link>") {
                Some(b) => Some(spliced(s, a, b, &extract_link_info(&slice(s, a, b)))),
                None => match find_end(s, a, "/>") {
                    Some(b) => Some(spliced(s, a, b, &Vec::new())),
                    None => None,
                },
            },
        }
    }
}

/// Replaces the links and mentions of `html` by Markdown links.
pub fn process_links(html: &Vec<char>) -> (r: Vec<char>)
    ensures
        r@ == rewritten(Links, html@, MAX_ITERATIONS as nat),
{
    rewrite_all(&Links, html, MAX_ITERATIONS)
}

// ---------------------------------------------------------------------------
// Structured macros
// ---------------------------------------------------------------------------

/// Where a self-closing macro ends: at the first `/>`, if that comes before
/// the first closing tag or if there is no closing tag. Positions count
/// from `from`.
pub open spec fn self_closing_end(s: Seq<char>, from: int) -> Option<int> {
    match find_from(s, "/>"@, from) {
        Some(sc) => match find_from(s, "</ac:structured-macro>"@, from) {
            Some(ct) => if sc < ct {
                Some(sc + "/>"@.len())
            } else {
                None
            },
            None => Some(sc + "/>"@.len()),
        },
        None => None,
    }
}

/// The end of the complete macro that opens at `a`: that of a self-closing
/// one, or else that of a paired one; `None` where the macro never closes.
pub open spec fn macro_end(s: Seq<char>, a: int) -> Option<int> {
    match self_closing_end(s, a) {
        Some(b) => Some(b),
        None => end_of(s, a, "</ac:structured-macro>"@),
    }
}

/// Finds where a self-closing macro that opens at `from` ends.
pub fn find_self_closing_end(s: &Vec<char>, from: usize) -> (r: Option<usize>)
    ensures
        crate::text::index_of(r) == self_closing_end(s@, from as int),
        r matches Some(b) ==> from <= b <= s.len(),
{
    let self_close = chars_of("/>");
    let close_tag = chars_of("</ac:structured-macro>");
    match find(s, &self_close, from) {
        Some(sc) => match find(s, &close_tag, from) {
            Some(ct) => if sc < ct {
                Some(sc + self_close.len())
            } else {
                None
            },
            None => Some(sc + self_close.len()),
        },
        None => None,
    }
}

/// The pass over structured macros: a complete macro becomes its Markdown;
/// of one that never closes, the opening tag alone is cut, through its `>`,
/// and what follows it stays. Where not even a `>` follows, the pass stops
/// and leaves the fragment as it is.
pub struct Macros;

impl Rewrite for Macros {
    open spec fn step(&self, s: Seq<char>) -> Option<Seq<char>> {
        match find_from(s, "<ac:structured-macro"@, 0) {
            None => None,
            Some(a) => match macro_end(s, a) {
                Some(b) => Some(splice(s, a, b, macro_markdown(s.subrange(a, b)))),
                None => cut_span(s, "<ac:structured-macro"@, ">"@),
            },
        }
    }

    fn apply(&self, s: &Vec<char>) -> (r: Option<Vec<char>>) {
        let open = chars_of("<ac:structured-macro");
        match find(s, &open, 0) {
            None => None,
            Some(a) => {
                let end = match find_self_closing_end(s, a) {
                    Some(b) => Some(b),
                    None => find_end(s, a, "</ac:structured-macro>"),
                };
                match end {
                    Some(b) => Some(spliced(s, a, b, &render_macro(&slice(s, a, b)))),
                    None => (Span { open: "<ac:structured-macro", close: ">" }).apply(s),
                }
            },
        }
    }
}

/// Replaces the structured macros of `html` by their Markdown.
pub fn process_macros(html: &Vec<char>) -> (r: Vec<char>)
    ensures
        r@ == rewritten(Macros, html@, MAX_ITERATIONS as nat),
{
    rewrite_all(&Macros, html, MAX_ITERATIONS)
}

// ---------------------------------------------------------------------------
// Task lists
// ---------------------------------------------------------------------------

/// The line that stands for one task: a checked box where the task is
/// complete, an empty one where it is not, and the task's body without tags.
pub open spec fn task_item(task: Seq<char>) -> Seq<char> {
    "- "@ + (if occurs(task, "<ac:task-status>complete</ac:task-status>"@) {
        "[x]"@
    } else {
        "[ ]"@
    }) + " "@ + task_body(task)
}

/// The span of the first complete task at or after `from`.
pub open spec fn next_task(block: Seq<char>, from: int) -> Option<(int, int)> {
    match find_from(block, "<ac:task>"@, from) {
        None => None,
        Some(a) => match end_of(block, a, "</ac:task>"@) {
            Some(b) => Some((a, b)),
            None => None,
        },
    }
}

/// The lines of the tasks that the block holds from `from` on, in order.
pub open spec fn tasks_from(block: Seq<char>, from: int) -> Seq<Seq<char>>
    decreases block.len() - from,
{
    match next_task(block, from) {
        None => Seq::empty(),
        Some((a, b)) => if from < b <= block.len() {
            seq![task_item(block.subrange(a, b))] + tasks_from(block, b)
        } else {
            Seq::empty()
        },
    }
}

/// What a task list becomes: one line for each task, in order.
pub open spec fn task_list(block: Seq<char>) -> Seq<char> {
    join(tasks_from(block, 0), "\n"@)
}

/// The body of a task without its tags, trimmed; empty where the task has
/// no body.
pub open spec fn task_body(task: Seq<char>) -> Seq<char> {
    match between(task, "<ac:task-body>"@, "</ac:task-body>"@) {
        Some(body) => trim(strip_tags(body)),
        None => Seq::empty(),
    }
}

/// The line of a task is `- [x] ` and its body where the task holds the
/// status `complete`, `- [ ] ` and its body where it does not.
pub proof fn lemma_task_item(task: Seq<char>)
    ensures
        task_item(task) == (if occurs(task, "<ac:task-status>complete</ac:task-status>"@) {
            "- [x] "@
        } else {
            "- [ ] "@
        }) + task_body(task),
{
    reveal_strlit("- ");
    reveal_strlit("[x]");
    reveal_strlit("[ ]");
    reveal_strlit(" ");
    reveal_strlit("- [x] ");
    reveal_strlit("- [ ] ");
    assert("- "@ + "[x]"@ + " "@ =~= "- [x] "@);
    assert("- "@ + "[ ]"@ + " "@ =~= "- [ ] "@);
}

/// The tasks of the block from `from` on stand at the given spans: each
/// span opens with the first `<ac:task>` behind the span before it and ends
/// behind the first `</ac:task>` that follows, and no task opens behind the
/// last span.
pub open spec fn tasks_at(block: Seq<char>, spans: Seq<(int, int)>, from: int) -> bool
    decreases spans.len(),
{
    if spans.len() == 0 {
        forall|j: int| from <= j ==> !occurs_at(block, "<ac:task>"@, j)
    } else {
        &&& from <= spans[0].0
        &&& occurs_at(block, "<ac:task>"@, spans[0].0)
        &&& forall|j: int| from <= j < spans[0].0 ==> !occurs_at(block, "<ac:task>"@, j)
        &&& find_from(block, "</ac:task>"@, spans[0].0) == Some(
            spans[0].1 - "</ac:task>"@.len(),
        )
        &&& tasks_at(block, spans.drop_first(), spans[0].1)
    }
}

/// The lines of the tasks that stand at the given spans, in their order.
pub open spec fn task_lines(block: Seq<char>, spans: Seq<(int, int)>) -> Seq<Seq<char>> {
    Seq::new(spans.len(), |i: int| task_item(block.subrange(spans[i].0, spans[i].1)))
}

/// The tasks from `from` on give one line each, in their order.
proof fn lemma_tasks_from(block: Seq<char>, spans: Seq<(int, int)>, from: int)
    requires
        0 <= from,
        tasks_at(block, spans, from),
    ensures
        tasks_from(block, from) == task_lines(block, spans),
    decreases spans.len(),
{
    reveal_strlit("</ac:task>");
    lemma_find_from(block, "<ac:task>"@, from);
    if spans.len() == 0 {
        assert(task_lines(block, spans) =~= Seq::<Seq<char>>::empty());
    } else {
        let a = spans[0].0;
        let b = spans[0].1;
        lemma_find_from(block, "</ac:task>"@, a);
        assert(find_from(block, "<ac:task>"@, from) == Some(a));
        assert(next_task(block, from) == Some((a, b)));
        lemma_tasks_from(block, spans.drop_first(), b);
        let rest = task_lines(block, spans.drop_first());
        let lines = seq![task_item(block.subrange(a, b))] + rest;
        assert(task_lines(block, spans) =~= lines) by {
            assert forall|i: int| 0 <= i < spans.len() implies task_lines(block, spans)[i]
                == lines[i] by {
                if i > 0 {
                    assert(spans.drop_first()[i - 1] == spans[i]);
                }
            }
        }
    }
}

/// A task list of any number of tasks becomes as many lines, one for each
/// task and in the order of the tasks, joined by line feeds; what stands
/// between the tasks is dropped.
pub proof fn lemma_task_list(block: Seq<char>, spans: Seq<(int, int)>)
    requires
        tasks_at(block, spans, 0),
    ensures
        task_list(block) == join(task_lines(block, spans), "\n"@),
        task_lines(block, spans).len() == spans.len(),
{
    lemma_tasks_from(block, spans, 0);
}

/// Renders one task.
pub fn process_task(task: &Vec<char>) -> (r: Vec<char>)
    ensures
        r@ == task_item(task@),
{
    let mut out = chars_of("- ");
    if contains_str(task, "<ac:task-status>complete</ac:task-status>") {
        push_str(&mut out, "[x]");
    } else {
        push_str(&mut out, "[ ]");
    }
    push_str(&mut out, " ");
    match text_between_str(task, "<ac:task-body>", "</ac:task-body>") {
        Some(body) => {
            append(&mut out, &trimmed(&strip_html_tags(&body)));
        },
        None => {
            assert(out@ + Seq::<char>::empty() =~= out@);
        },
    }
    out
}

/// Renders one task list.
pub fn process_task_list(block: &Vec<char>) -> (r: Vec<char>)
    ensures
        r@ == task_list(block@),
{
    let open = chars_of("<ac:task>");
    let mut tasks: Vec<Vec<char>> = Vec::new();
    let mut from: usize = 0;
    let mut done = false;
    assert(views(tasks@) =~= Seq::<Seq<char>>::empty());
    while !done
        invariant
            from <= block.len(),
            open@ == "<ac:task>"@,
            views(tasks@) + tasks_from(block@, from as int) == tasks_from(block@, 0),
            done ==> tasks_from(block@, from as int).len() == 0,
        decreases block.len() - from + (if done { 0int } else { 1int }),
    {
        let next = match find(block, &open, from) {
            None => None,
            Some(a) => match find_end(block, a, "</ac:task>") {
                Some(b) => Some((a, b)),
                None => None,
            },
        };
        match next {
            Some((a, b)) => {
                proof {
                    reveal_strlit("<ac:task>");
                    reveal_strlit("</ac:task>");
                }
                let ghost before = views(tasks@);
                let item = process_task(&slice(block, a, b));
                tasks.push(item);
                assert(views(tasks@) =~= before + seq![item@]);
                assert(before + (seq![item@] + tasks_from(block@, b as int)) =~= (before
                    + seq![item@]) + tasks_from(block@, b as int));
                from = b;
            },
            None => {
                done = true;
            },
        }
    }
    assert(views(tasks@) + Seq::<Seq<char>>::empty() =~= views(tasks@));
    joined(&tasks, "\n")
}

/// The pass over task lists.
pub struct TaskLists;

impl Rewrite for TaskLists {
    open spec fn step(&self, s: Seq<char>) -> Option<Seq<char>> {
        match element_span(s, "<ac:task-list>"@, "</ac:task-list>"@, "</ac:task-list>"@) {
            Some((a, b)) => Some(splice(s, a, b, task_list(s.subrange(a, b)))),
            None => None,
        }
    }

    fn apply(&self, s: &Vec<char>) -> (r: Option<Vec<char>>) {
        match first_element(s, "<ac:task-list>", "</ac:task-list>", "</ac:task-list>") {
            Some((a, b)) => Some(spliced(s, a, b, &process_task_list(&slice(s, a, b)))),
            None => None,
        }
    }
}

/// Replaces the task lists of `html` by check-box lines.
pub fn process_tasks(html: &Vec<char>) -> (r: Vec<char>)
    ensures
        r@ == rewritten(TaskLists, html@, MAX_ITERATIONS as nat),
{
    rewrite_all(&TaskLists, html, MAX_ITERATIONS)
}

// ---------------------------------------------------------------------------
// Extension blocks
// ---------------------------------------------------------------------------

/// The text from the first `>` at or after `from` up to the next `close`.
pub open spec fn content_after(block: Seq<char>, from: int, close: Seq<char>) -> Option<Seq<char>> {
    match find_from(block, seq!['>'], from) {
        None => None,
        Some(gt) => match find_from(block, close, gt + 1) {
            None => None,
            Some(c) => Some(block.subrange(gt + 1, c)),
        },
    }
}

/// The trimmed, non-empty value of the parameter `key`: the content of the
/// first value element that follows the key.
pub open spec fn adf_param_value(block: Seq<char>, key: Seq<char>) -> Option<Seq<char>> {
    match find_from(block, "key=\""@ + key + "\""@, 0) {
        None => None,
        Some(k) => match end_of(block, k, "key=\"value\""@) {
            None => None,
            Some(v) => match content_after(block, v, "</ac:adf-parameter>"@) {
                None => None,
                Some(content) => if trim(content).len() == 0 {
                    None
                } else {
                    Some(trim(content))
                },
            },
        },
    }
}

/// The content of the attribute element with the given key.
pub open spec fn adf_attribute(block: Seq<char>, key: Seq<char>) -> Option<Seq<char>> {
    match find_from(block, "key=\""@ + key + "\""@, 0) {
        None => None,
        Some(k) => content_after(block, k, "</ac:adf-attribute>"@),
    }
}

/// The name of the diagram that an extension embeds.
pub open spec fn diagram_name(block: Seq<char>) -> Option<Seq<char>> {
    match adf_param_value(block, "diagram-display-name"@) {
        Some(n) => Some(n),
        None => match adf_param_value(block, "diagramDisplayName"@) {
            Some(n) => Some(n),
            None => adf_param_value(block, "diagram-name"@),
        },
    }
}

/// The text of a panel under the label of its type; the text alone where
/// the type has no label.
pub open spec fn panel_text(panel_type: Option<Seq<char>>, text: Seq<char>) -> Seq<char> {
    if panel_type == Some("note"@) {
        "> **NOTE**: "@ + text
    } else if panel_type == Some("info"@) {
        "> **INFO**: "@ + text
    } else if panel_type == Some("warning"@) {
        "> **WARNING**: "@ + text
    } else if panel_type == Some("error"@) {
        "> **ERROR**: "@ + text
    } else if panel_type == Some("success"@) {
        "> **SUCCESS**: "@ + text
    } else {
        text
    }
}

/// The content of the first element `open` ... `close` without its tags,
/// trimmed; nothing where the block has no such element.
pub open spec fn plain_content(block: Seq<char>, open: Seq<char>, close: Seq<char>) -> Seq<char> {
    match between(block, open, close) {
        Some(content) => trim(strip_tags(content)),
        None => Seq::empty(),
    }
}

/// What an extension block becomes. An embedded diagram becomes a reference
/// by its name, or else by the extension's title, or else a bare label. Any
/// other block becomes its content under the label of its panel type, or,
/// where it has no content, its fallback content.
pub open spec fn adf_extension(block: Seq<char>) -> Seq<char> {
    if occurs(block, "type=\"extension\""@) || occurs(block, "extension-type"@) {
        match diagram_name(block) {
            Some(name) => "[Draw.io: "@ + name + "]"@,
            None => match adf_attribute(block, "extension-title"@) {
                Some(title) => "["@ + title + "]"@,
                None => "[Embedded Diagram]"@,
            },
        }
    } else {
        let text = plain_content(block, "<ac:adf-content>"@, "</ac:adf-content>"@);
        if text.len() > 0 {
            panel_text(adf_attribute(block, "panel-type"@), text)
        } else {
            plain_content(block, "<ac:adf-fallback>"@, "</ac:adf-fallback>"@)
        }
    }
}

/// Reads the text from the first `>` at or after `from` up to `close`.
fn read_content_after(block: &Vec<char>, from: usize, close: &str) -> (r: Option<Vec<char>>)
    ensures
        text_of(r) == content_after(block@, from as int, close@),
{
    let c = chars_of(close);
    match find_char(block, '>', from) {
        None => None,
        Some(gt) => match find(block, &c, gt + 1) {
            None => None,
            Some(end) => Some(slice(block, gt + 1, end)),
        },
    }
}

/// The pattern `key="..."` for the given key.
fn key_pattern(key: &str) -> (r: Vec<char>)
    ensures
        r@ == "key=\""@ + key@ + "\""@,
{
    let mut pattern = chars_of("key=\"");
    push_str(&mut pattern, key);
    push_str(&mut pattern, "\"");
    pattern
}

/// Reads the value of the parameter `key`.
pub fn extract_adf_param_value(block: &Vec<char>, key: &str) -> (r: Option<Vec<char>>)
    ensures
        text_of(r) == adf_param_value(block@, key@),
{
    let pattern = key_pattern(key);
    match find(block, &pattern, 0) {
        None => None,
        Some(k) => match find_end(block, k, "key=\"value\"") {
            None => None,
            Some(v) => match read_content_after(block, v, "</ac:adf-parameter>") {
                None => None,
                Some(content) => {
                    let value = trimmed(&content);
                    if value.len() == 0 {
                        None
                    } else {
                        Some(value)
                    }
                },
            },
        },
    }
}

/// Reads the content of the attribute element with the given key.
pub fn extract_adf_attribute(block: &Vec<char>, key: &str) -> (r: Option<Vec<char>>)
    ensures
        text_of(r) == adf_attribute(block@, key@),
{
    let pattern = key_pattern(key);
    match find(block, &pattern, 0) {
        None => None,
        Some(k) => read_content_after(block, k, "</ac:adf-attribute>"),
    }
}

/// Reads the content of an extension block.
pub fn extract_adf_content(block: &Vec<char>) -> (r: Option<Vec<char>>)
    ensures
        text_of(r) == between(block@, "<ac:adf-content>"@, "</ac:adf-content>"@),
{
    text_between_str(block, "<ac:adf-content>", "</ac:adf-content>")
}

/// Reads the fallback content of an extension block.
pub fn extract_adf_fallback(block: &Vec<char>) -> (r: Option<Vec<char>>)
    ensures
        text_of(r) == between(block@, "<ac:adf-fallback>"@, "</ac:adf-fallback>"@),
{
    text_between_str(block, "<ac:adf-fallback>", "</ac:adf-fallback>")
}

/// Writes the text of a panel under the label of its type.
pub fn label_panel(panel_type: &Option<Vec<char>>, text: Vec<char>) -> (r: Vec<char>)
    ensures
        r@ == panel_text(text_of(*panel_type), text@),
{
    match panel_type {
        Some(kind) => {
            if is_str(kind, "note") {
                prefixed("> **NOTE**: ", &text)
            } else if is_str(kind, "info") {
                prefixed("> **INFO**: ", &text)
            } else if is_str(kind, "warning") {
                prefixed("> **WARNING**: ", &text)
            } else if is_str(kind, "error") {
                prefixed("> **ERROR**: ", &text)
            } else if is_str(kind, "success") {
                prefixed("> **SUCCESS**: ", &text)
            } else {
                text
            }
        },
        None => text,
    }
}

/// Renders one extension block.
pub fn process_adf_extension(block: &Vec<char>) -> (r: Vec<char>)
    ensures
        r@ == adf_extension(block@),
{
    if contains_str(block, "type=\"extension\"") || contains_str(block, "extension-type") {
        let name = match extract_adf_param_value(block, "diagram-display-name") {
            Some(n) => Some(n),
            None => match extract_adf_param_value(block, "diagramDisplayName") {
                Some(n) => Some(n),
                None => extract_adf_param_value(block, "diagram-name"),
            },
        };
        return match name {
            Some(n) => {
                let mut out = prefixed("[Draw.io: ", &n);
                push_str(&mut out, "]");
                out
            },
            None => match extract_adf_attribute(block, "extension-title") {
                Some(title) => {
                    let mut out = prefixed("[", &title);
                    push_str(&mut out, "]");
                    out
                },
                None => chars_of("[Embedded Diagram]"),
            },
        };
    }
    let panel_type = extract_adf_attribute(block, "panel-type");
    let text = match extract_adf_content(block) {
        Some(content) => trimmed(&strip_html_tags(&content)),
        None => Vec::new(),
    };
    if text.len() > 0 {
        return label_panel(&panel_type, text);
    }
    match extract_adf_fallback(block) {
        Some(fallback) => trimmed(&strip_html_tags(&fallback)),
        None => Vec::new(),
    }
}

/// The pass over extension blocks.
pub struct Extensions;

impl Rewrite for Extensions {
    open spec fn step(&self, s: Seq<char>) -> Option<Seq<char>> {
        match element_span(
            s,
            "<ac:adf-extension>"@,
            "</ac:adf-extension>"@,
            "</ac:adf-extension>"@,
        ) {
            Some((a, b)) => Some(splice(s, a, b, adf_extension(s.subrange(a, b)))),
            None => None,
        }
    }

    fn apply(&self, s: &Vec<char>) -> (r: Option<Vec<char>>) {
        match first_element(
            s,
            "<ac:adf-extension>",
            "</ac:adf-extension>",
            "</ac:adf-extension>",
        ) {
            Some((a, b)) => Some(spliced(s, a, b, &process_adf_extension(&slice(s, a, b)))),
            None => None,
        }
    }
}

/// Replaces the extension blocks of `html` by their Markdown.
pub fn process_adf_extensions(html: &Vec<char>) -> (r: Vec<char>)
    ensures
        r@ == rewritten(Extensions, html@, MAX_ITERATIONS as nat),
{
    rewrite_all(&Extensions, html, MAX_ITERATIONS)
}

// ---------------------------------------------------------------------------
// What is left
// ---------------------------------------------------------------------------

/// `s` without the bookkeeping containers, content and all.
pub open spec fn without_containers(s: Seq<char>) -> Seq<char> {
    let a = rewritten(
        Container { open: "<ac:parameter", close: "</ac:parameter>" },
        s,
        MAX_ITERATIONS as nat,
    );
    let b = rewritten(
        Container { open: "<ac:adf-parameter", close: "</ac:adf-parameter>" },
        a,
        MAX_ITERATIONS as nat,
    );
    rewritten(
        Container { open: "<ac:adf-parameter-value", close: "</ac:adf-parameter-value>" },
        b,
        MAX_ITERATIONS as nat,
    )
}

/// `s` without the opening and closing tags of the custom namespaces; what
/// they enclose stays.
pub open spec fn without_custom_tags(s: Seq<char>) -> Seq<char> {
    let a = rewritten(Span { open: "<ac:", close: ">" }, s, MAX_ITERATIONS as nat);
    let b = rewritten(Span { open: "<ri:", close: ">" }, a, MAX_ITERATIONS as nat);
    let c = rewritten(Span { open: "</ac:", close: ">" }, b, MAX_ITERATIONS as nat);
    rewritten(Span { open: "</ri:", close: ">" }, c, MAX_ITERATIONS as nat)
}

/// `s` after the last pass: first without the bookkeeping containers, then
/// without the custom tags that are left.
pub open spec fn without_remaining_tags(s: Seq<char>) -> Seq<char> {
    without_custom_tags(without_containers(s))
}

/// Takes the opening and closing tags of the custom namespaces out of
/// `html`.
pub fn strip_custom_tags(html: &Vec<char>) -> (r: Vec<char>)
    ensures
        r@ == without_custom_tags(html@),
{
    let a = rewrite_all(&Span { open: "<ac:", close: ">" }, html, MAX_ITERATIONS);
    let b = rewrite_all(&Span { open: "<ri:", close: ">" }, &a, MAX_ITERATIONS);
    let c = rewrite_all(&Span { open: "</ac:", close: ">" }, &b, MAX_ITERATIONS);
    rewrite_all(&Span { open: "</ri:", close: ">" }, &c, MAX_ITERATIONS)
}

/// Takes out of `html` what custom markup the passes before have left.
pub fn remove_remaining_tags(html: &Vec<char>) -> (r: Vec<char>)
    ensures
        r@ == without_remaining_tags(html@),
{
    let a = rewrite_all(
        &Container { open: "<ac:parameter", close: "</ac:parameter>" },
        html,
        MAX_ITERATIONS,
    );
    let b = rewrite_all(
        &Container { open: "<ac:adf-parameter", close: "</ac:adf-parameter>" },
        &a,
        MAX_ITERATIONS,
    );
    let c = rewrite_all(
        &Container { open: "<ac:adf-parameter-value", close: "</ac:adf-parameter-value>" },
        &b,
        MAX_ITERATIONS,
    );
    strip_custom_tags(&c)
}

// ---------------------------------------------------------------------------
// The normalizer
// ---------------------------------------------------------------------------

/// The text after the six passes that resolve elements.
pub open spec fn resolved(html: Seq<char>) -> Seq<char> {
    let emoticons = rewritten(Emoticons, html, MAX_ITERATIONS as nat);
    let images = rewritten(Images, emoticons, MAX_ITERATIONS as nat);
    let links = rewritten(Links, images, MAX_ITERATIONS as nat);
    let macros = rewritten(Macros, links, MAX_ITERATIONS as nat);
    let tasks = rewritten(TaskLists, macros, MAX_ITERATIONS as nat);
    rewritten(Extensions, tasks, MAX_ITERATIONS as nat)
}

/// The text after all seven passes.
pub open spec fn normalized(html: Seq<char>) -> Seq<char> {
    without_remaining_tags(resolved(html))
}

/// A text holds no mark of the custom namespaces: no opening and no
/// closing tag of either.
pub open spec fn plain(s: Seq<char>) -> bool {
    !occurs(s, "<ac:"@) && !occurs(s, "<ri:"@) && !occurs(s, "</ac:"@) && !occurs(s, "</ri:"@)
}

/// A text without opening tags of the first namespace holds none of the
/// elements that the passes look for.
proof fn lemma_no_elements(s: Seq<char>)
    requires
        !occurs(s, "<ac:"@),
    ensures
        !occurs(s, "<ac:emoticon"@),
        !occurs(s, "<ac:image"@),
        !occurs(s, "<ac:link"@),
        !occurs(s, "<ac:structured-macro"@),
        !occurs(s, "<ac:task-list>"@),
        !occurs(s, "<ac:adf-extension>"@),
        !occurs(s, "<ac:parameter"@),
        !occurs(s, "<ac:adf-parameter"@),
        !occurs(s, "<ac:adf-parameter-value"@),
{
    reveal_strlit("<ac:");
    reveal_strlit("<ac:emoticon");
    reveal_strlit("<ac:image");
    reveal_strlit("<ac:link");
    reveal_strlit("<ac:structured-macro");
    reveal_strlit("<ac:task-list>");
    reveal_strlit("<ac:adf-extension>");
    reveal_strlit("<ac:parameter");
    reveal_strlit("<ac:adf-parameter");
    reveal_strlit("<ac:adf-parameter-value");
    lemma_start_absent(s, "<ac:emoticon"@, "<ac:"@);
    lemma_start_absent(s, "<ac:image"@, "<ac:"@);
    lemma_start_absent(s, "<ac:link"@, "<ac:"@);
    lemma_start_absent(s, "<ac:structured-macro"@, "<ac:"@);
    lemma_start_absent(s, "<ac:task-list>"@, "<ac:"@);
    lemma_start_absent(s, "<ac:adf-extension>"@, "<ac:"@);
    lemma_start_absent(s, "<ac:parameter"@, "<ac:"@);
    lemma_start_absent(s, "<ac:adf-parameter"@, "<ac:"@);
    lemma_start_absent(s, "<ac:adf-parameter-value"@, "<ac:"@);
}

/// The normalizer leaves a text without marks of the custom namespaces as
/// it is.
pub proof fn lemma_plain_unchanged(s: Seq<char>)
    requires
        plain(s),
    ensures
        normalized(s) == s,
{
    let n = MAX_ITERATIONS as nat;
    lemma_no_elements(s);
    lemma_nothing_to_rewrite(Emoticons, s, n);
    lemma_nothing_to_rewrite(Images, s, n);
    lemma_nothing_to_rewrite(Links, s, n);
    lemma_nothing_to_rewrite(Macros, s, n);
    lemma_nothing_to_rewrite(TaskLists, s, n);
    lemma_nothing_to_rewrite(Extensions, s, n);
    lemma_nothing_to_rewrite(Container { open: "<ac:parameter", close: "</ac:parameter>" }, s, n);
    lemma_nothing_to_rewrite(
        Container { open: "<ac:adf-parameter", close: "</ac:adf-parameter>" },
        s,
        n,
    );
    lemma_nothing_to_rewrite(
        Container { open: "<ac:adf-parameter-value", close: "</ac:adf-parameter-value>" },
        s,
        n,
    );
    lemma_nothing_to_rewrite(Span { open: "<ac:", close: ">" }, s, n);
    lemma_nothing_to_rewrite(Span { open: "<ri:", close: ">" }, s, n);
    lemma_nothing_to_rewrite(Span { open: "</ac:", close: ">" }, s, n);
    lemma_nothing_to_rewrite(Span { open: "</ri:", close: ">" }, s, n);
}

/// A text whose custom tags the last pass can take out: it is
/// well-bracketed and holds no more opening tags of either namespace than
/// the pass may take steps.
pub open spec fn strippable(s: Seq<char>) -> bool {
    &&& well_bracketed(s)
    &&& count(s, "<ac:"@) <= MAX_ITERATIONS
    &&& count(s, "<ri:"@) <= MAX_ITERATIONS
}

/// Once the custom tags are taken out of a strippable text, no opening tag
/// of the custom namespaces is left in it.
pub proof fn lemma_no_custom_tag_left(s: Seq<char>)
    requires
        strippable(s),
    ensures
        !occurs(without_custom_tags(s), "<ac:"@),
        !occurs(without_custom_tags(s), "<ri:"@),
{
    reveal_strlit("<ac:");
    reveal_strlit("<ri:");
    reveal_strlit("</ac:");
    reveal_strlit("</ri:");
    reveal_strlit(">");
    let n = MAX_ITERATIONS as nat;
    let ac = "<ac:"@;
    let ri = "<ri:"@;
    assert(">"@ =~= seq!['>']);
    let first = Span { open: "<ac:", close: ">" };
    let second = Span { open: "<ri:", close: ">" };
    let third = Span { open: "</ac:", close: ">" };
    let fourth = Span { open: "</ri:", close: ">" };
    let a = rewritten(first, s, n);
    lemma_tags_cut(first, s, n, ac);
    lemma_tags_cut(first, s, n, ri);
    lemma_count_zero(a, ac);
    let b = rewritten(second, a, n);
    lemma_tags_cut(second, a, n, ac);
    lemma_tags_cut(second, a, n, ri);
    lemma_count_zero(b, ri);
    let c = rewritten(third, b, n);
    lemma_tags_cut(third, b, n, ac);
    lemma_tags_cut(third, b, n, ri);
    let d = rewritten(fourth, c, n);
    lemma_tags_cut(fourth, c, n, ac);
    lemma_tags_cut(fourth, c, n, ri);
    lemma_count_zero(d, ac);
    lemma_count_zero(d, ri);
}

/// A text all of whose custom tags the last pass can take out: it is
/// strippable and holds no more closing tags of either namespace than the
/// pass may take steps.
pub open spec fn wholly_strippable(s: Seq<char>) -> bool {
    &&& strippable(s)
    &&& count(s, "</ac:"@) <= MAX_ITERATIONS
    &&& count(s, "</ri:"@) <= MAX_ITERATIONS
}

/// Once the custom tags are taken out of a wholly strippable text, no mark
/// of the custom namespaces is left in it.
pub proof fn lemma_no_custom_mark_left(s: Seq<char>)
    requires
        wholly_strippable(s),
    ensures
        plain(without_custom_tags(s)),
{
    reveal_strlit("<ac:");
    reveal_strlit("<ri:");
    reveal_strlit("</ac:");
    reveal_strlit("</ri:");
    reveal_strlit(">");
    let n = MAX_ITERATIONS as nat;
    let ac = "<ac:"@;
    let ri = "<ri:"@;
    let end_ac = "</ac:"@;
    let end_ri = "</ri:"@;
    assert(">"@ =~= seq!['>']);
    let first = Span { open: "<ac:", close: ">" };
    let second = Span { open: "<ri:", close: ">" };
    let third = Span { open: "</ac:", close: ">" };
    let fourth = Span { open: "</ri:", close: ">" };
    lemma_no_custom_tag_left(s);
    let a = rewritten(first, s, n);
    lemma_tags_cut(first, s, n, end_ac);
    lemma_tags_cut(first, s, n, end_ri);
    let b = rewritten(second, a, n);
    lemma_tags_cut(second, a, n, end_ac);
    lemma_tags_cut(second, a, n, end_ri);
    let c = rewritten(third, b, n);
    lemma_tags_cut(third, b, n, end_ac);
    lemma_tags_cut(third, b, n, end_ri);
    lemma_count_zero(c, end_ac);
    let d = rewritten(fourth, c, n);
    lemma_tags_cut(fourth, c, n, end_ac);
    lemma_tags_cut(fourth, c, n, end_ri);
    lemma_count_zero(d, end_ac);
    lemma_count_zero(d, end_ri);
}

/// The normalizer changes nothing when it is applied to its own result,
/// provided that the text is wholly strippable when its elements are
/// resolved and its bookkeeping containers are gone.
pub proof fn lemma_normalized_twice(html: Seq<char>)
    requires
        wholly_strippable(without_containers(resolved(html))),
    ensures
        normalized(normalized(html)) == normalized(html),
{
    lemma_no_custom_mark_left(without_containers(resolved(html)));
    lemma_plain_unchanged(normalized(html));
}

/// The normalizer leaves no opening tag of the custom namespaces in a text,
/// provided that the text is strippable when its elements are resolved and
/// its bookkeeping containers are gone. A tag that never closes, a tag
/// inside a tag and more tags than the last pass may take steps are what
/// the proviso rules out.
pub proof fn lemma_normalized_without_custom_tags(html: Seq<char>)
    requires
        strippable(without_containers(resolved(html))),
    ensures
        !occurs(normalized(html), "<ac:"@),
        !occurs(normalized(html), "<ri:"@),
{
    lemma_no_custom_tag_left(without_containers(resolved(html)));
}

/// Runs the seven passes over a text.
pub fn normalize(html: &Vec<char>) -> (r: Vec<char>)
    ensures
        r@ == normalized(html@),
        plain(html@) ==> r@ == html@,
        strippable(without_containers(resolved(html@))) ==> !occurs(r@, "<ac:"@) && !occurs(
            r@,
            "<ri:"@,
        ),
{
    proof {
        if plain(html@) {
            lemma_plain_unchanged(html@);
        }
        if strippable(without_containers(resolved(html@))) {
            lemma_normalized_without_custom_tags(html@);
        }
    }
    let result = process_emoticons(html);
    let result = process_images(&result);
    let result = process_links(&result);
    let result = process_macros(&result);
    let result = process_tasks(&result);
    let result = process_adf_extensions(&result);
    remove_remaining_tags(&result)
}

/// Rewrites the custom elements of `html` into plain HTML and Markdown. A
/// text without marks of the custom namespaces comes back as it is. No
/// opening tag of the custom namespaces is left in the result where the
/// text is strippable before the last pass takes the tags out.
pub fn clean_confluence_html(html: &str) -> (r: String)
    ensures
        r@ == normalized(html@),
        plain(html@) ==> r@ == html@,
        strippable(without_containers(resolved(html@))) ==> !occurs(r@, "<ac:"@) && !occurs(
            r@,
            "<ri:"@,
        ),
{
    string_of(&normalize(&chars_of(html)))
}

} // verus!
