//! The macro formatter: renders one structured macro as Markdown.

use vstd::prelude::*;
use crate::markdown::confluence::cleanup::{binary_cleaned, clean_binary_data};
use crate::text::{
    append, between, chars_of, copy_of, find, find_char, find_from, is_str, join, joined, lower,
    lowercase, push_str, replace_all, replaced_str, same, slice, string_of, text_between_str,
    text_of, trim, trimmed, upper, uppercase, views,
};

verus! {

// ---------------------------------------------------------------------------
// The parameter map
// ---------------------------------------------------------------------------

/// The parameters of one macro instance: each name with its trimmed value.
/// Where a name is given more than once, the last value stands.
pub struct Params {
    entries: Vec<(Vec<char>, Vec<char>)>,
}

/// The map that a list of entries stands for: later entries overwrite
/// earlier ones of the same name.
spec fn entries_map(log: Seq<(Vec<char>, Vec<char>)>) -> Map<Seq<char>, Seq<char>>
    decreases log.len(),
{
    if log.len() == 0 {
        Map::empty()
    } else {
        entries_map(log.drop_last()).insert(log.last().0@, log.last().1@)
    }
}

/// The value that `m` holds for `key`, if any.
pub open spec fn lookup(m: Map<Seq<char>, Seq<char>>, key: Seq<char>) -> Option<Seq<char>> {
    if m.contains_key(key) {
        Some(m[key])
    } else {
        None
    }
}

/// The value that `m` holds for `key`, or `default` where it holds none.
pub open spec fn lookup_or(
    m: Map<Seq<char>, Seq<char>>,
    key: Seq<char>,
    default: Seq<char>,
) -> Seq<char> {
    match lookup(m, key) {
        Some(v) => v,
        None => default,
    }
}

/// The value of the first of two keys that `m` holds.
pub open spec fn lookup_either(
    m: Map<Seq<char>, Seq<char>>,
    first: Seq<char>,
    second: Seq<char>,
) -> Option<Seq<char>> {
    match lookup(m, first) {
        Some(v) => Some(v),
        None => lookup(m, second),
    }
}

impl View for Params {
    type V = Map<Seq<char>, Seq<char>>;

    closed spec fn view(&self) -> Map<Seq<char>, Seq<char>> {
        entries_map(self.entries@)
    }
}

impl Params {
    /// The empty parameter map.
    pub fn new() -> (r: Params)
        ensures
            r@ == Map::<Seq<char>, Seq<char>>::empty(),
    {
        Params { entries: Vec::new() }
    }

    /// Sets the value of `name`, in place of an earlier one if there is one.
    pub fn insert(&mut self, name: Vec<char>, value: Vec<char>)
        ensures
            final(self)@ == old(self)@.insert(name@, value@),
    {
        let ghost before = self.entries@;
        self.entries.push((name, value));
        assert(self.entries@.drop_last() =~= before);
    }

    /// The value of `key`, if the map holds one.
    pub fn lookup(&self, key: &str) -> (r: Option<Vec<char>>)
        ensures
            text_of(r) == lookup(self@, key@),
    {
        let k = chars_of(key);
        let mut i: usize = self.entries.len();
        assert(self.entries@.take(i as int) =~= self.entries@);
        while i > 0
            invariant
                i <= self.entries.len(),
                k@ == key@,
                lookup(entries_map(self.entries@), key@) == lookup(
                    entries_map(self.entries@.take(i as int)),
                    key@,
                ),
            decreases i,
        {
            let ghost head = self.entries@.take(i as int);
            assert(head.drop_last() =~= self.entries@.take(i - 1));
            i -= 1;
            if same(&self.entries[i].0, &k) {
                return Some(copy_of(&self.entries[i].1));
            }
        }
        assert(self.entries@.take(0) =~= Seq::<(Vec<char>, Vec<char>)>::empty());
        None
    }

    /// The value of `key` as a string, if the map holds one.
    pub fn get(&self, key: &str) -> (r: Option<String>)
        ensures
            match r {
                Some(v) => lookup(self@, key@) == Some(v@),
                None => lookup(self@, key@) is None,
            },
    {
        match self.lookup(key) {
            Some(v) => Some(string_of(&v)),
            None => None,
        }
    }

    /// The value of `first`, or else that of `second`.
    pub fn lookup_either(&self, first: &str, second: &str) -> (r: Option<Vec<char>>)
        ensures
            text_of(r) == lookup_either(self@, first@, second@),
    {
        match self.lookup(first) {
            Some(v) => Some(v),
            None => self.lookup(second),
        }
    }

    /// The value of `key`, or `default` where the map holds none.
    pub fn lookup_or(&self, key: &str, default: &str) -> (r: Vec<char>)
        ensures
            r@ == lookup_or(self@, key@, default@),
    {
        match self.lookup(key) {
            Some(v) => v,
            None => chars_of(default),
        }
    }
}

// ---------------------------------------------------------------------------
// What a macro holds
// ---------------------------------------------------------------------------

/// The name of the macro: the value of the first `ac:name` attribute of the
/// block.
pub open spec fn macro_name(block: Seq<char>) -> Option<Seq<char>> {
    between(block, "ac:name=\""@, "\""@)
}

/// The parameter element whose name starts at `name_start`: the position
/// after its closing tag, its name and its trimmed value. The name may be
/// empty: that is the parameter without a name. `None` where the element is
/// not complete.
pub open spec fn parameter_at(
    block: Seq<char>,
    name_start: int,
) -> Option<(int, Seq<char>, Seq<char>)> {
    match find_from(block, seq!['"'], name_start) {
        None => None,
        Some(q) => match find_from(block, seq!['>'], q + 1) {
            None => None,
            Some(gt) => match find_from(block, "</ac:parameter>"@, gt + 1) {
                None => None,
                Some(c) => Some(
                    (
                        c + "</ac:parameter>"@.len(),
                        block.subrange(name_start, q),
                        trim(block.subrange(gt + 1, c)),
                    ),
                ),
            },
        },
    }
}

/// The next parameter element at or after `from`: the position to go on
/// from, and the name and value where the element is complete. `None` where
/// no parameter element opens any more.
pub open spec fn next_parameter(
    block: Seq<char>,
    from: int,
) -> Option<(int, Option<(Seq<char>, Seq<char>)>)> {
    match find_from(block, "<ac:parameter ac:name=\""@, from) {
        None => None,
        Some(start) => {
            let name_start = start + "<ac:parameter ac:name=\""@.len();
            match parameter_at(block, name_start) {
                Some((end, name, value)) => Some((end, Some((name, value)))),
                None => Some((name_start, None)),
            }
        },
    }
}

/// `acc` with the parameters that the block holds from `from` on.
pub open spec fn parameters_from(
    block: Seq<char>,
    from: int,
    acc: Map<Seq<char>, Seq<char>>,
) -> Map<Seq<char>, Seq<char>>
    decreases block.len() - from,
{
    match next_parameter(block, from) {
        None => acc,
        Some((next, found)) => if from < next <= block.len() {
            parameters_from(
                block,
                next,
                match found {
                    Some((name, value)) => acc.insert(name, value),
                    None => acc,
                },
            )
        } else {
            acc
        },
    }
}

/// The parameters of the block.
pub open spec fn parameters(block: Seq<char>) -> Map<Seq<char>, Seq<char>> {
    parameters_from(block, 0, Map::empty())
}

/// `s` without the marks that open and close a character-data section.
pub open spec fn without_cdata(s: Seq<char>) -> Seq<char> {
    replace_all(replace_all(s, "<![CDATA["@, Seq::empty()), "]]>"@, Seq::empty())
}

/// The body of the macro: its rich-text body, or else its plain-text body
/// without character-data marks, or else nothing; residue is cleaned out of
/// either.
pub open spec fn macro_body(block: Seq<char>) -> Seq<char> {
    match between(block, "<ac:rich-text-body>"@, "</ac:rich-text-body>"@) {
        Some(body) => binary_cleaned(body),
        None => match between(block, "<ac:plain-text-body>"@, "</ac:plain-text-body>"@) {
            Some(body) => binary_cleaned(without_cdata(body)),
            None => Seq::empty(),
        },
    }
}

// ---------------------------------------------------------------------------
// Renderings
// ---------------------------------------------------------------------------

/// A fenced code block in the language of the `language` parameter, under a
/// bold title line where the macro has a `title`.
pub open spec fn code_block(params: Map<Seq<char>, Seq<char>>, body: Seq<char>) -> Seq<char> {
    let fence = "```"@ + lookup_or(params, "language"@, ""@) + "\n"@ + trim(body) + "\n```"@;
    match lookup(params, "title"@) {
        Some(t) => "**"@ + t + "**\n"@ + fence,
        None => fence,
    }
}

/// A block quote that opens with the panel's label, and its title where it
/// has one.
pub open spec fn panel(
    label: Seq<char>,
    params: Map<Seq<char>, Seq<char>>,
    body: Seq<char>,
) -> Seq<char> {
    match lookup(params, "title"@) {
        Some(t) => "> **"@ + label + " - "@ + t + "**: "@ + trim(body),
        None => "> **"@ + label + "**: "@ + trim(body),
    }
}

/// The bold title of an expandable section, followed by its body where that
/// is not empty.
pub open spec fn expand(params: Map<Seq<char>, Seq<char>>, body: Seq<char>) -> Seq<char> {
    let title = lookup_or(params, "title"@, "Details"@);
    if trim(body).len() == 0 {
        "**"@ + title + "**"@
    } else {
        "**"@ + title + "**\n\n"@ + trim(body)
    }
}

/// An anchor element named by the unnamed parameter or by `name`; nothing
/// where neither is given.
pub open spec fn anchor(params: Map<Seq<char>, Seq<char>>) -> Seq<char> {
    match lookup_either(params, ""@, "name"@) {
        Some(name) => "<a id=\""@ + name + "\"></a>"@,
        None => Seq::empty(),
    }
}

/// A link to the issue where a server is given, and a plain reference to it
/// where none is.
pub open spec fn jira(params: Map<Seq<char>, Seq<char>>) -> Seq<char> {
    let key = lookup_or(params, "key"@, "JIRA"@);
    match lookup_either(params, "server"@, "serverId"@) {
        Some(s) => "["@ + key + "]("@ + s + ")"@,
        None => "[JIRA: "@ + key + "]"@,
    }
}

/// The indicator that stands for a colour, given in lower case.
pub open spec fn status_indicator(colour_lower: Seq<char>) -> Seq<char> {
    if colour_lower == "green"@ {
        "[OK]"@
    } else if colour_lower == "yellow"@ {
        "[WARN]"@
    } else if colour_lower == "red"@ {
        "[ERR]"@
    } else if colour_lower == "blue"@ {
        "[INFO]"@
    } else {
        "[STATUS]"@
    }
}

/// The indicator of the colour and the title, given in upper case.
pub open spec fn status_line(colour_lower: Seq<char>, title_upper: Seq<char>) -> Seq<char> {
    status_indicator(colour_lower) + " "@ + title_upper
}

/// The status line of the macro: its colour is the `colour` or `color`
/// parameter, grey where neither is given; its title defaults to `STATUS`.
pub open spec fn status(params: Map<Seq<char>, Seq<char>>) -> Seq<char> {
    let colour = match lookup_either(params, "colour"@, "color"@) {
        Some(c) => c,
        None => "Grey"@,
    };
    status_line(lowercase(colour), uppercase(lookup_or(params, "title"@, "STATUS"@)))
}

/// A reference to a diagram of `tool`, named by the first of two
/// parameters.
pub open spec fn diagram(
    tool: Seq<char>,
    params: Map<Seq<char>, Seq<char>>,
    key1: Seq<char>,
    key2: Seq<char>,
) -> Seq<char> {
    let name = match lookup_either(params, key1, key2) {
        Some(n) => n,
        None => "diagram"@,
    };
    "["@ + tool + ": "@ + name + "]"@
}

/// A link to the Lucidchart document, or the bare label.
pub open spec fn lucidchart(params: Map<Seq<char>, Seq<char>>) -> Seq<char> {
    match lookup(params, "documentId"@) {
        Some(id) => "[Lucidchart](https://lucid.app/documents/view/"@ + id + ")"@,
        None => "[Lucidchart]"@,
    }
}

/// A link to the Miro board, or the bare label.
pub open spec fn miro(params: Map<Seq<char>, Seq<char>>) -> Seq<char> {
    match lookup(params, "boardId"@) {
        Some(id) => "[Miro](https://miro.com/app/board/"@ + id + ")"@,
        None => "[Miro Board]"@,
    }
}

/// A fenced `plantuml` block of the body, or a label where the body is
/// empty.
pub open spec fn plantuml(body: Seq<char>) -> Seq<char> {
    if trim(body).len() == 0 {
        "[PlantUML Diagram]"@
    } else {
        "```plantuml\n"@ + trim(body) + "\n```"@
    }
}

/// The label of a child-page listing with its depth, 1 where none is given.
pub open spec fn children(params: Map<Seq<char>, Seq<char>>) -> Seq<char> {
    "[Child Pages (depth: "@ + lookup_or(params, "depth"@, "1"@) + ")]"@
}

/// A reference to embedded content by its `url`, `src` or `name`.
pub open spec fn embed(params: Map<Seq<char>, Seq<char>>) -> Seq<char> {
    let target = match lookup(params, "url"@) {
        Some(u) => Some(u),
        None => lookup_either(params, "src"@, "name"@),
    };
    match target {
        Some(u) => "[Embed: "@ + u + "]"@,
        None => "[Embedded Content]"@,
    }
}

/// `key=value` for a parameter that the map holds, as a list of one; the
/// empty list where it holds none.
pub open spec fn shown(params: Map<Seq<char>, Seq<char>>, key: Seq<char>) -> Seq<Seq<char>> {
    match lookup(params, key) {
        Some(v) => seq![key + "="@ + v],
        None => Seq::empty(),
    }
}

/// What an unknown macro shows of its parameters: title, name, key and url,
/// in this order, each where it is given.
pub open spec fn shown_params(params: Map<Seq<char>, Seq<char>>) -> Seq<Seq<char>> {
    shown(params, "title"@) + shown(params, "name"@) + shown(params, "key"@) + shown(
        params,
        "url"@,
    )
}

/// The rendering of a macro of no known kind: its trimmed body where that
/// has more than three characters, else a label with the macro's name and
/// the parameters that tell something about it.
pub open spec fn unknown_macro(
    name: Seq<char>,
    params: Map<Seq<char>, Seq<char>>,
    body: Seq<char>,
) -> Seq<char> {
    if trim(body).len() > 3 {
        trim(body)
    } else if shown_params(params).len() == 0 {
        "[Macro: "@ + name + "]"@
    } else {
        "[Macro: "@ + name + " ("@ + join(shown_params(params), ", "@) + ")]"@
    }
}

/// The label of a panel macro.
pub open spec fn panel_label(name: Seq<char>) -> Seq<char> {
    if name == "info"@ {
        "INFO"@
    } else if name == "note"@ {
        "NOTE"@
    } else if name == "warning"@ {
        "WARNING"@
    } else if name == "tip"@ {
        "TIP"@
    } else {
        "ERROR"@
    }
}

/// Whether `name` is the name of a panel macro.
pub open spec fn is_panel(name: Seq<char>) -> bool {
    name == "info"@ || name == "note"@ || name == "warning"@ || name == "tip"@ || name
        == "error"@
}

/// The rendering of a macro by its name, parameters and body.
pub open spec fn rendering(
    name: Seq<char>,
    params: Map<Seq<char>, Seq<char>>,
    body: Seq<char>,
) -> Seq<char> {
    if name == "code"@ || name == "noformat"@ {
        code_block(params, body)
    } else if is_panel(name) {
        panel(panel_label(name), params, body)
    } else if name == "toc"@ {
        Seq::empty()
    } else if name == "expand"@ {
        expand(params, body)
    } else if name == "anchor"@ {
        anchor(params)
    } else if name == "jira"@ {
        jira(params)
    } else if name == "status"@ {
        status(params)
    } else if name == "drawio"@ {
        diagram("Draw.io"@, params, "diagramName"@, "diagramDisplayName"@)
    } else if name == "gliffy"@ {
        diagram("Gliffy"@, params, "name"@, "displayName"@)
    } else if name == "lucidchart"@ {
        lucidchart(params)
    } else if name == "miro"@ {
        miro(params)
    } else if name == "plantuml"@ {
        plantuml(body)
    } else if name == "children"@ {
        children(params)
    } else if name == "pagetree"@ {
        "[Page Tree]"@
    } else if name == "recently-updated"@ {
        "[Recently Updated]"@
    } else if name == "widget"@ || name == "iframe"@ || name == "html"@ {
        embed(params)
    } else {
        unknown_macro(name, params, body)
    }
}

/// The Markdown that stands for one macro instance.
pub open spec fn macro_markdown(block: Seq<char>) -> Seq<char> {
    let name = match macro_name(block) {
        Some(n) => n,
        None => Seq::empty(),
    };
    rendering(name, parameters(block), macro_body(block))
}

// ---------------------------------------------------------------------------
// Extraction
// ---------------------------------------------------------------------------

/// Reads the name of the macro.
pub fn read_macro_name(block: &Vec<char>) -> (r: Option<Vec<char>>)
    ensures
        text_of(r) == macro_name(block@),
{
    text_between_str(block, "ac:name=\"", "\"")
}

/// Reads the name of the macro from a string.
pub fn extract_macro_name(block: &str) -> (r: Option<String>)
    ensures
        match r {
            Some(name) => macro_name(block@) == Some(name@),
            None => macro_name(block@) is None,
        },
{
    match read_macro_name(&chars_of(block)) {
        Some(name) => Some(string_of(&name)),
        None => None,
    }
}

/// Reads the parameter element whose name starts at `name_start`.
fn read_parameter_at(
    block: &Vec<char>,
    name_start: usize,
) -> (r: Option<(usize, Vec<char>, Vec<char>)>)
    requires
        name_start <= block.len(),
    ensures
        match r {
            Some((end, name, value)) => parameter_at(block@, name_start as int) == Some(
                (end as int, name@, value@),
            ) && name_start < end <= block.len(),
            None => parameter_at(block@, name_start as int) is None,
        },
{
    let close = chars_of("</ac:parameter>");
    match find_char(block, '"', name_start) {
        None => None,
        Some(q) => match find_char(block, '>', q + 1) {
            None => None,
            Some(gt) => match find(block, &close, gt + 1) {
                None => None,
                Some(c) => {
                    let name = slice(block, name_start, q);
                    let value = trimmed(&slice(block, gt + 1, c));
                    Some((c + close.len(), name, value))
                },
            },
        },
    }
}

/// Reads the next parameter element at or after `from`.
fn read_next_parameter(
    block: &Vec<char>,
    from: usize,
) -> (r: Option<(usize, Option<(Vec<char>, Vec<char>)>)>)
    ensures
        match r {
            Some((next, Some((name, value)))) => next_parameter(block@, from as int) == Some(
                (next as int, Some((name@, value@))),
            ) && from < next <= block.len(),
            Some((next, None)) => next_parameter(block@, from as int) == Some(
                (next as int, None::<(Seq<char>, Seq<char>)>),
            ) && from < next <= block.len(),
            None => next_parameter(block@, from as int) is None,
        },
{
    let open = chars_of("<ac:parameter ac:name=\"");
    proof {
        reveal_strlit("<ac:parameter ac:name=\"");
    }
    match find(block, &open, from) {
        None => None,
        Some(start) => {
            let name_start = start + open.len();
            match read_parameter_at(block, name_start) {
                Some((end, name, value)) => Some((end, Some((name, value)))),
                None => Some((name_start, None)),
            }
        },
    }
}

/// Reads the parameters of the macro.
pub fn read_parameters(block: &Vec<char>) -> (r: Params)
    ensures
        r@ == parameters(block@),
{
    let mut params = Params::new();
    let mut from: usize = 0;
    let mut done = false;
    while !done
        invariant
            from <= block.len(),
            parameters(block@) == parameters_from(block@, from as int, params@),
            done ==> parameters_from(block@, from as int, params@) == params@,
        decreases block.len() - from + (if done { 0int } else { 1int }),
    {
        match read_next_parameter(block, from) {
            None => {
                done = true;
            },
            Some((next, found)) => {
                match found {
                    Some((name, value)) => {
                        params.insert(name, value);
                    },
                    None => {},
                }
                from = next;
            },
        }
    }
    params
}

/// Reads the parameters of the macro from a string.
pub fn extract_parameters(block: &str) -> (r: Params)
    ensures
        r@ == parameters(block@),
{
    read_parameters(&chars_of(block))
}

/// Takes the marks of a character-data section out of `text`.
pub fn strip_cdata(text: &Vec<char>) -> (r: Vec<char>)
    ensures
        r@ == without_cdata(text@),
{
    let opened = replaced_str(text, "<![CDATA[", "");
    proof {
        reveal_strlit("");
        assert(""@ =~= Seq::<char>::empty());
    }
    replaced_str(&opened, "]]>", "")
}

/// Reads the content of the first `<tag>` element of the block.
pub fn extract_body_tag(block: &Vec<char>, open: &str, close: &str) -> (r: Option<Vec<char>>)
    ensures
        text_of(r) == between(block@, open@, close@),
{
    text_between_str(block, open, close)
}

/// Reads the body of the macro.
pub fn extract_body(block: &Vec<char>) -> (r: Vec<char>)
    ensures
        r@ == macro_body(block@),
{
    match extract_body_tag(block, "<ac:rich-text-body>", "</ac:rich-text-body>") {
        Some(body) => clean_binary_data(&body),
        None => match extract_body_tag(block, "<ac:plain-text-body>", "</ac:plain-text-body>") {
            Some(body) => clean_binary_data(&strip_cdata(&body)),
            None => Vec::new(),
        },
    }
}

// ---------------------------------------------------------------------------
// Formatting
// ---------------------------------------------------------------------------

/// Renders a `code` or `noformat` macro.
pub fn format_code_block(params: &Params, body: &Vec<char>) -> (r: Vec<char>)
    ensures
        r@ == code_block(params@, body@),
{
    let mut fence = chars_of("```");
    append(&mut fence, &params.lookup_or("language", ""));
    push_str(&mut fence, "\n");
    append(&mut fence, &trimmed(body));
    push_str(&mut fence, "\n```");
    match params.lookup("title") {
        Some(t) => {
            let mut out = chars_of("**");
            append(&mut out, &t);
            push_str(&mut out, "**\n");
            append(&mut out, &fence);
            out
        },
        None => fence,
    }
}

/// Renders a panel macro under the given label.
pub fn format_panel(label: &str, params: &Params, body: &Vec<char>) -> (r: Vec<char>)
    ensures
        r@ == panel(label@, params@, body@),
{
    let mut out = chars_of("> **");
    push_str(&mut out, label);
    match params.lookup("title") {
        Some(t) => {
            push_str(&mut out, " - ");
            append(&mut out, &t);
        },
        None => {},
    }
    push_str(&mut out, "**: ");
    append(&mut out, &trimmed(body));
    out
}

/// Renders an `expand` macro.
pub fn format_expand(params: &Params, body: &Vec<char>) -> (r: Vec<char>)
    ensures
        r@ == expand(params@, body@),
{
    let content = trimmed(body);
    let mut out = chars_of("**");
    append(&mut out, &params.lookup_or("title", "Details"));
    if content.len() == 0 {
        push_str(&mut out, "**");
    } else {
        push_str(&mut out, "**\n\n");
        append(&mut out, &content);
    }
    out
}

/// Renders an `anchor` macro.
pub fn format_anchor(params: &Params) -> (r: Vec<char>)
    ensures
        r@ == anchor(params@),
{
    match params.lookup_either("", "name") {
        Some(name) => {
            let mut out = chars_of("<a id=\"");
            append(&mut out, &name);
            push_str(&mut out, "\"></a>");
            out
        },
        None => Vec::new(),
    }
}

/// Renders a `jira` macro.
pub fn format_jira(params: &Params) -> (r: Vec<char>)
    ensures
        r@ == jira(params@),
{
    let key = params.lookup_or("key", "JIRA");
    match params.lookup_either("server", "serverId") {
        Some(s) => {
            let mut out = chars_of("[");
            append(&mut out, &key);
            push_str(&mut out, "](");
            append(&mut out, &s);
            push_str(&mut out, ")");
            out
        },
        None => {
            let mut out = chars_of("[JIRA: ");
            append(&mut out, &key);
            push_str(&mut out, "]");
            out
        },
    }
}

/// The status line for a colour in lower case and a title in upper case.
pub fn status_badge(colour_lower: &Vec<char>, title_upper: &Vec<char>) -> (r: Vec<char>)
    ensures
        r@ == status_line(colour_lower@, title_upper@),
{
    let mut out = if is_str(colour_lower, "green") {
        chars_of("[OK]")
    } else if is_str(colour_lower, "yellow") {
        chars_of("[WARN]")
    } else if is_str(colour_lower, "red") {
        chars_of("[ERR]")
    } else if is_str(colour_lower, "blue") {
        chars_of("[INFO]")
    } else {
        chars_of("[STATUS]")
    };
    push_str(&mut out, " ");
    append(&mut out, title_upper);
    out
}

/// Renders a `status` macro.
pub fn format_status(params: &Params) -> (r: Vec<char>)
    ensures
        r@ == status(params@),
{
    let title = params.lookup_or("title", "STATUS");
    let colour = match params.lookup_either("colour", "color") {
        Some(c) => c,
        None => chars_of("Grey"),
    };
    status_badge(&lower(&colour), &upper(&title))
}

/// Renders a diagram macro of `tool`.
pub fn format_diagram(tool: &str, params: &Params, key1: &str, key2: &str) -> (r: Vec<char>)
    ensures
        r@ == diagram(tool@, params@, key1@, key2@),
{
    let name = match params.lookup_either(key1, key2) {
        Some(n) => n,
        None => chars_of("diagram"),
    };
    let mut out = chars_of("[");
    push_str(&mut out, tool);
    push_str(&mut out, ": ");
    append(&mut out, &name);
    push_str(&mut out, "]");
    out
}

/// Renders a `lucidchart` macro.
pub fn format_lucidchart(params: &Params) -> (r: Vec<char>)
    ensures
        r@ == lucidchart(params@),
{
    match params.lookup("documentId") {
        Some(id) => {
            let mut out = chars_of("[Lucidchart](https://lucid.app/documents/view/");
            append(&mut out, &id);
            push_str(&mut out, ")");
            out
        },
        None => chars_of("[Lucidchart]"),
    }
}

/// Renders a `miro` macro.
pub fn format_miro(params: &Params) -> (r: Vec<char>)
    ensures
        r@ == miro(params@),
{
    match params.lookup("boardId") {
        Some(id) => {
            let mut out = chars_of("[Miro](https://miro.com/app/board/");
            append(&mut out, &id);
            push_str(&mut out, ")");
            out
        },
        None => chars_of("[Miro Board]"),
    }
}

/// Renders a `plantuml` macro.
pub fn format_plantuml(body: &Vec<char>) -> (r: Vec<char>)
    ensures
        r@ == plantuml(body@),
{
    let content = trimmed(body);
    if content.len() == 0 {
        chars_of("[PlantUML Diagram]")
    } else {
        let mut out = chars_of("```plantuml\n");
        append(&mut out, &content);
        push_str(&mut out, "\n```");
        out
    }
}

/// Renders a `children` macro.
pub fn format_children(params: &Params) -> (r: Vec<char>)
    ensures
        r@ == children(params@),
{
    let mut out = chars_of("[Child Pages (depth: ");
    append(&mut out, &params.lookup_or("depth", "1"));
    push_str(&mut out, ")]");
    out
}

/// Renders a `widget`, `iframe` or `html` macro.
pub fn format_embed(params: &Params) -> (r: Vec<char>)
    ensures
        r@ == embed(params@),
{
    let target = match params.lookup("url") {
        Some(u) => Some(u),
        None => params.lookup_either("src", "name"),
    };
    match target {
        Some(u) => {
            let mut out = chars_of("[Embed: ");
            append(&mut out, &u);
            push_str(&mut out, "]");
            out
        },
        None => chars_of("[Embedded Content]"),
    }
}

/// Adds `key=value` to `listed` where the map holds `key`.
fn push_shown(listed: &mut Vec<Vec<char>>, params: &Params, key: &str)
    ensures
        views(final(listed)@) == views(old(listed)@) + shown(params@, key@),
{
    match params.lookup(key) {
        Some(v) => {
            let mut item = chars_of(key);
            push_str(&mut item, "=");
            append(&mut item, &v);
            listed.push(item);
            assert(views(listed@) =~= views(old(listed)@) + seq![item@]);
        },
        None => {
            assert(views(listed@) =~= views(old(listed)@) + Seq::<Seq<char>>::empty());
        },
    }
}

/// Renders a macro of no known kind.
pub fn format_unknown_macro(name: &Vec<char>, params: &Params, body: &Vec<char>) -> (r: Vec<char>)
    ensures
        r@ == unknown_macro(name@, params@, body@),
{
    let content = trimmed(body);
    if content.len() > 3 {
        return content;
    }
    let mut listed: Vec<Vec<char>> = Vec::new();
    assert(views(listed@) =~= Seq::<Seq<char>>::empty());
    push_shown(&mut listed, params, "title");
    push_shown(&mut listed, params, "name");
    push_shown(&mut listed, params, "key");
    push_shown(&mut listed, params, "url");
    assert(views(listed@) =~= shown_params(params@));
    let mut out = chars_of("[Macro: ");
    append(&mut out, name);
    if listed.len() == 0 {
        push_str(&mut out, "]");
    } else {
        push_str(&mut out, " (");
        append(&mut out, &joined(&listed, ", "));
        push_str(&mut out, ")]");
    }
    out
}

/// Renders a macro by its name, parameters and body.
pub fn render(name: &Vec<char>, params: &Params, body: &Vec<char>) -> (r: Vec<char>)
    ensures
        r@ == rendering(name@, params@, body@),
{
    if is_str(name, "code") || is_str(name, "noformat") {
        format_code_block(params, body)
    } else if is_str(name, "info") {
        format_panel("INFO", params, body)
    } else if is_str(name, "note") {
        format_panel("NOTE", params, body)
    } else if is_str(name, "warning") {
        format_panel("WARNING", params, body)
    } else if is_str(name, "tip") {
        format_panel("TIP", params, body)
    } else if is_str(name, "error") {
        format_panel("ERROR", params, body)
    } else if is_str(name, "toc") {
        Vec::new()
    } else if is_str(name, "expand") {
        format_expand(params, body)
    } else if is_str(name, "anchor") {
        format_anchor(params)
    } else if is_str(name, "jira") {
        format_jira(params)
    } else if is_str(name, "status") {
        format_status(params)
    } else if is_str(name, "drawio") {
        format_diagram("Draw.io", params, "diagramName", "diagramDisplayName")
    } else if is_str(name, "gliffy") {
        format_diagram("Gliffy", params, "name", "displayName")
    } else if is_str(name, "lucidchart") {
        format_lucidchart(params)
    } else if is_str(name, "miro") {
        format_miro(params)
    } else if is_str(name, "plantuml") {
        format_plantuml(body)
    } else if is_str(name, "children") {
        format_children(params)
    } else if is_str(name, "pagetree") {
        chars_of("[Page Tree]")
    } else if is_str(name, "recently-updated") {
        chars_of("[Recently Updated]")
    } else if is_str(name, "widget") || is_str(name, "iframe") || is_str(name, "html") {
        format_embed(params)
    } else {
        format_unknown_macro(name, params, body)
    }
}

/// Renders one macro instance, given as the text of its element.
pub fn render_macro(block: &Vec<char>) -> (r: Vec<char>)
    ensures
        r@ == macro_markdown(block@),
{
    let name = match read_macro_name(block) {
        Some(n) => n,
        None => Vec::new(),
    };
    let params = read_parameters(block);
    let body = extract_body(block);
    render(&name, &params, &body)
}

/// Renders one macro instance as Markdown.
pub fn process_macro(block: &str) -> (r: String)
    ensures
        r@ == macro_markdown(block@),
{
    string_of(&render_macro(&chars_of(block)))
}

} // verus!
