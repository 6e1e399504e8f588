//! The conversion pipeline: custom markup in, Markdown out.
//!
//! Five stages run once each, in this order: the custom markup normalizer
//! with the macro formatter that it calls, the generic converter, the
//! residue cleaner, and the unescaper with the tidying of blank lines.

pub mod cleanup;
pub mod elements;
pub mod macros;

use vstd::prelude::*;
use crate::markdown::common::{
    lemma_normalize_whitespace_idempotent, lemma_tidy_short, normalized_whitespace, tidy_lines,
};
use crate::markdown::confluence::cleanup::{
    clean_residue, lemma_long_runs_gone, lemma_residue_free_unchanged, metadata_cleaned,
    residue_cleaned, residue_free, without_diagram_models, MAX_RUN_LENGTH,
};
use crate::markdown::confluence::elements::{lemma_plain_unchanged, normalize, normalized, plain};
use crate::markdown::converter::{convert_guarded, guarded_markdown, html_markdown, tag_names};
use crate::markdown::nesting::{lemma_few_tags_shallow, shallow, start_tags, MAX_NESTING};
use crate::text::{
    chars_of, find_from, is_space, lemma_find_from, lemma_replace_nothing, lemma_replace_short,
    occurs, replace_all, replaced_str, runs_within, solid, string_of,
};

verus! {

/// The text with the escapes of Markdown's special characters undone: a
/// backslash in front of a bracket, an asterisk, an underscore, a backtick,
/// a hash, a greater-than sign or a hyphen goes, in this order of the
/// characters.
pub open spec fn unescaped(s: Seq<char>) -> Seq<char> {
    let a = replace_all(s, "\\["@, "["@);
    let b = replace_all(a, "\\]"@, "]"@);
    let c = replace_all(b, "\\*"@, "*"@);
    let d = replace_all(c, "\\_"@, "_"@);
    let e = replace_all(d, "\\`"@, "`"@);
    let f = replace_all(e, "\\#"@, "#"@);
    let g = replace_all(f, "\\>"@, ">"@);
    replace_all(g, "\\-"@, "-"@)
}

/// The last stage: escapes undone, blank lines tidied.
pub open spec fn polished(s: Seq<char>) -> Seq<char> {
    normalized_whitespace(unescaped(s))
}

/// What the pipeline makes of a normalized text and of what the generic
/// converter returned for it: the converted text, or the normalized text
/// itself where the converter failed, cleaned of residue and polished.
pub open spec fn finished(cleaned: Seq<char>, converted: Option<Seq<char>>) -> Seq<char> {
    polished(
        residue_cleaned(
            match converted {
                Some(markdown) => markdown,
                None => cleaned,
            },
        ),
    )
}

/// The tags whose elements the generic converter leaves out.
pub open spec fn skipped_tags() -> Seq<Seq<char>> {
    seq!["script"@, "style"@, "meta"@, "noscript"@]
}

/// A text holds an escape: a backslash in front of one of the special
/// characters.
pub open spec fn escaped(s: Seq<char>) -> bool {
    ||| occurs(s, "\\["@)
    ||| occurs(s, "\\]"@)
    ||| occurs(s, "\\*"@)
    ||| occurs(s, "\\_"@)
    ||| occurs(s, "\\`"@)
    ||| occurs(s, "\\#"@)
    ||| occurs(s, "\\>"@)
    ||| occurs(s, "\\-"@)
}

/// A text without escapes stays as it is when escapes are undone.
pub proof fn lemma_unescaped_plain(s: Seq<char>)
    requires
        !escaped(s),
    ensures
        unescaped(s) == s,
{
    lemma_replace_nothing(s, "\\["@, "["@);
    lemma_replace_nothing(s, "\\]"@, "]"@);
    lemma_replace_nothing(s, "\\*"@, "*"@);
    lemma_replace_nothing(s, "\\_"@, "_"@);
    lemma_replace_nothing(s, "\\`"@, "`"@);
    lemma_replace_nothing(s, "\\#"@, "#"@);
    lemma_replace_nothing(s, "\\>"@, ">"@);
    lemma_replace_nothing(s, "\\-"@, "-"@);
}

/// The last stage changes nothing when it is applied to its own result,
/// unless that result still holds an escape (as it does for a backslash in
/// front of an escape) or a carriage return in front of a line feed.
pub proof fn lemma_polished_idempotent(s: Seq<char>)
    requires
        !escaped(polished(s)),
        !occurs(polished(s), "\r\n"@),
    ensures
        polished(polished(s)) == polished(s),
{
    lemma_unescaped_plain(polished(s));
    lemma_normalize_whitespace_idempotent(unescaped(s));
}

/// What the pipeline makes of a text.
pub open spec fn markdown_of(html: Seq<char>) -> Seq<char> {
    finished(normalized(html), guarded_markdown(skipped_tags(), normalized(html)))
}

/// A text without custom markup goes through the pipeline as through the
/// generic converter and the last stage alone, where the text is shallow,
/// the converter succeeds and its result holds no residue.
pub proof fn lemma_plain_html_converted_alone(html: Seq<char>, markdown: Seq<char>)
    requires
        plain(html),
        shallow(html),
        html_markdown(skipped_tags(), html) == Some(markdown),
        residue_free(markdown),
    ensures
        markdown_of(html) == polished(markdown),
{
    lemma_plain_unchanged(html);
    lemma_residue_free_unchanged(markdown);
}

/// A text without custom markup and with no more start tags than elements
/// may nest always goes to the generic converter: the pipeline makes of it
/// what the converter and the last stage alone make of it, where the
/// converter succeeds and its result holds no residue.
pub proof fn lemma_plain_html_with_few_tags(html: Seq<char>, markdown: Seq<char>)
    requires
        plain(html),
        start_tags(html, 0) <= MAX_NESTING,
        html_markdown(skipped_tags(), html) == Some(markdown),
        residue_free(markdown),
    ensures
        markdown_of(html) == polished(markdown),
{
    lemma_few_tags_shallow(html);
    lemma_plain_html_converted_alone(html, markdown);
}

/// Undoing escapes leaves the stretches of a text short.
proof fn lemma_unescaped_short(s: Seq<char>, limit: nat)
    requires
        runs_within(s, limit),
    ensures
        runs_within(unescaped(s), limit),
{
    reveal_strlit("\\[");
    reveal_strlit("\\]");
    reveal_strlit("\\*");
    reveal_strlit("\\_");
    reveal_strlit("\\`");
    reveal_strlit("\\#");
    reveal_strlit("\\>");
    reveal_strlit("\\-");
    reveal_strlit("[");
    reveal_strlit("]");
    reveal_strlit("*");
    reveal_strlit("_");
    reveal_strlit("`");
    reveal_strlit("#");
    reveal_strlit(">");
    reveal_strlit("-");
    let a = replace_all(s, "\\["@, "["@);
    lemma_replace_short(s, "\\["@, "["@, 0, limit);
    let b = replace_all(a, "\\]"@, "]"@);
    lemma_replace_short(a, "\\]"@, "]"@, 0, limit);
    let c = replace_all(b, "\\*"@, "*"@);
    lemma_replace_short(b, "\\*"@, "*"@, 0, limit);
    let d = replace_all(c, "\\_"@, "_"@);
    lemma_replace_short(c, "\\_"@, "_"@, 0, limit);
    let e = replace_all(d, "\\`"@, "`"@);
    lemma_replace_short(d, "\\`"@, "`"@, 0, limit);
    let f = replace_all(e, "\\#"@, "#"@);
    lemma_replace_short(e, "\\#"@, "#"@, 0, limit);
    let g = replace_all(f, "\\>"@, ">"@);
    lemma_replace_short(f, "\\>"@, ">"@, 0, limit);
    lemma_replace_short(g, "\\-"@, "-"@, 0, limit);
}

/// Whatever the generic converter returned, no stretch of more than
/// `MAX_RUN_LENGTH` characters of the finished text is free of white space.
pub proof fn lemma_finished_short(cleaned: Seq<char>, converted: Option<Seq<char>>)
    ensures
        runs_within(finished(cleaned, converted), MAX_RUN_LENGTH as nat),
{
    let limit = MAX_RUN_LENGTH as nat;
    let markdown = match converted {
        Some(markdown) => markdown,
        None => cleaned,
    };
    lemma_long_runs_gone(metadata_cleaned(without_diagram_models(markdown)));
    lemma_unescaped_short(residue_cleaned(markdown), limit);
    lemma_tidy_short(unescaped(residue_cleaned(markdown)), limit);
}

/// A text whose stretches are short holds no run that is free of white
/// space and longer than the limit.
pub proof fn lemma_long_run_absent(s: Seq<char>, run: Seq<char>, limit: nat)
    requires
        runs_within(s, limit),
        run.len() > limit,
        solid(run, 0, run.len() as int),
    ensures
        !occurs(s, run),
{
    lemma_find_from(s, run, 0);
    if find_from(s, run, 0) is Some {
        let p = find_from(s, run, 0)->0;
        assert forall|k: int| p <= k < p + run.len() implies !is_space(#[trigger] s[k]) by {
            assert(s.subrange(p, p + run.len())[k - p] == run[k - p]);
        }
        assert(solid(s, p, p + run.len()));
    }
}

/// Undoes the escapes of Markdown's special characters.
pub fn unescape(text: &Vec<char>) -> (r: Vec<char>)
    ensures
        r@ == unescaped(text@),
{
    let a = replaced_str(text, "\\[", "[");
    let b = replaced_str(&a, "\\]", "]");
    let c = replaced_str(&b, "\\*", "*");
    let d = replaced_str(&c, "\\_", "_");
    let e = replaced_str(&d, "\\`", "`");
    let f = replaced_str(&e, "\\#", "#");
    let g = replaced_str(&f, "\\>", ">");
    replaced_str(&g, "\\-", "-")
}

/// Undoes the escapes of Markdown's special characters in a string.
pub fn unescape_markdown(text: &str) -> (r: String)
    ensures
        r@ == unescaped(text@),
{
    string_of(&unescape(&chars_of(text)))
}

/// The last stage: undoes the escapes and tidies the blank lines.
pub fn polish(text: &Vec<char>) -> (r: Vec<char>)
    ensures
        r@ == polished(text@),
{
    tidy_lines(&unescape(text))
}

/// Finishes a conversion: takes the converted text, or the normalized text
/// where there is none, cleans it of residue, undoes the escapes and tidies
/// the blank lines.
pub fn finish_markdown(cleaned: &str, converted: Option<String>) -> (r: String)
    ensures
        r@ == finished(
            cleaned@,
            match converted {
                Some(markdown) => Some(markdown@),
                None => None,
            },
        ),
        runs_within(r@, MAX_RUN_LENGTH as nat),
{
    let markdown = match converted {
        Some(markdown) => {
            proof {
                lemma_finished_short(cleaned@, Some(markdown@));
            }
            chars_of(markdown.as_str())
        },
        None => {
            proof {
                lemma_finished_short(cleaned@, None);
            }
            chars_of(cleaned)
        },
    };
    string_of(&polish(&clean_residue(&markdown)))
}

/// Converts a text in the custom markup into Markdown. A text without marks
/// of the custom namespaces goes to the generic converter as it is. A text
/// that nests too deep once it is normalized does not go to the generic
/// converter at all and is finished as it is.
pub fn confluence_to_markdown(html: &str) -> (r: String)
    ensures
        r@ == markdown_of(html@),
        plain(html@) ==> r@ == finished(html@, guarded_markdown(skipped_tags(), html@)),
        runs_within(r@, MAX_RUN_LENGTH as nat),
{
    proof {
        if plain(html@) {
            lemma_plain_unchanged(html@);
        }
    }
    let cleaned = string_of(&normalize(&chars_of(html)));
    let skip: Vec<&'static str> = vec!["script", "style", "meta", "noscript"];
    assert(tag_names(skip@) =~= skipped_tags());
    let converted = convert_guarded(cleaned.as_str(), skip);
    finish_markdown(cleaned.as_str(), converted)
}

} // verus!
