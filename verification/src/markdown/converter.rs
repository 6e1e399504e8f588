//! The generic converter: the HTML-to-Markdown library that renders the
//! standard constructs of HTML.

use vstd::prelude::*;
use crate::markdown::nesting::{is_shallow, shallow};

verus! {

/// The Markdown that the generic converter makes of `html` when it leaves
/// out the elements whose tags are in `skip`; `None` where it fails.
pub uninterp spec fn html_markdown(skip: Seq<Seq<char>>, html: Seq<char>) -> Option<Seq<char>>;

/// The names that a list of tags holds.
pub open spec fn tag_names(tags: Seq<&'static str>) -> Seq<Seq<char>> {
    tags.map_values(|t: &'static str| t@)
}

/// What the generic converter makes of a text that may go to it; nothing
/// for a text that nests too deep.
pub open spec fn guarded_markdown(skip: Seq<Seq<char>>, html: Seq<char>) -> Option<Seq<char>> {
    if shallow(html) {
        html_markdown(skip, html)
    } else {
        None
    }
}

/// `htmd::HtmlToMarkdown::convert`, on a converter that
/// `htmd::HtmlToMarkdownBuilder` built with default options and
/// `skip_tags(skip)`. The converter parses the text as an HTML document and
/// walks the tree; what it returns depends on the text and on the skipped
/// tags alone, so the contract gives that result a name and says no more.
/// The walk is recursive, one call on top of the other for every level of
/// the tree, and a tree that is deep enough exhausts the stack: the call is
/// for shallow texts only. The builder panics on an empty list of tags.
#[verifier::external_body]
pub(crate) fn convert_html(html: &str, skip: Vec<&'static str>) -> (r: Option<String>)
    requires
        shallow(html@),
        skip@.len() > 0,
    ensures
        match r {
            Some(md) => html_markdown(tag_names(skip@), html@) == Some(md@),
            None => html_markdown(tag_names(skip@), html@) is None,
        },
{
    htmd::HtmlToMarkdown::builder().skip_tags(skip).build().convert(html).ok()
}

/// Hands `html` to the generic converter if it is shallow, and gives
/// nothing for a text that nests too deep. The converter leaves out the
/// elements whose tags are in `skip`, of which there must be one at least.
pub fn convert_guarded(html: &str, skip: Vec<&'static str>) -> (r: Option<String>)
    requires
        skip@.len() > 0,
    ensures
        match r {
            Some(md) => guarded_markdown(tag_names(skip@), html@) == Some(md@),
            None => guarded_markdown(tag_names(skip@), html@) is None,
        },
{
    if is_shallow(html) {
        convert_html(html, skip)
    } else {
        None
    }
}

} // verus!
