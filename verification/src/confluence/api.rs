//! What the client of the REST interface computes: queries, addresses,
//! limits and the walk through the pages of a search. Sending the requests
//! is left to the caller.

use vstd::prelude::*;
use vstd::string::StringExecFns;
use crate::config::Config;
use crate::confluence::fields::strings;
use crate::confluence::markdown::{convert_to_markdown, converted};
use crate::json::{
    item_views, lemma_array_view, lemma_object_view, member, member_or_null, member_views, text,
    unsigned, with_member, Json, JsonView,
};
use crate::text::{
    append, chars_of, contains_str, join, joined, lowercase, matches_at, occurs, occurs_at,
    push_str, string_of, views,
};

verus! {

/// The most results that a request may ask for.
pub const MAX_LIMIT: u32 = 250;

/// The pause between two requests of a paged search, in milliseconds.
pub const RATE_LIMIT_DELAY_MS: u64 = 200;

/// The most results that a request may ask for when it expands bodies.
pub const SEARCH_BODY_LIMIT: u32 = 50;

/// A query in lower case names a space.
pub open spec fn mentions_space(cql_lower: Seq<char>) -> bool {
    occurs(cql_lower, "space "@) || occurs(cql_lower, "space="@) || occurs(cql_lower, "space in"@)
}

/// The keys in double quotes.
pub open spec fn quoted(keys: Seq<Seq<char>>) -> Seq<Seq<char>> {
    keys.map_values(|k: Seq<char>| "\""@ + k + "\""@)
}

/// The query restricted to the given spaces: unchanged where no space is
/// given or where, going by its lower-case form, it names a space itself.
pub open spec fn space_filtered(
    cql: Seq<char>,
    cql_lower: Seq<char>,
    spaces: Seq<Seq<char>>,
) -> Seq<char> {
    if spaces.len() == 0 || mentions_space(cql_lower) {
        cql
    } else {
        "space IN ("@ + join(quoted(spaces), ","@) + ") AND ("@ + cql + ")"@
    }
}

/// The address of the next page: the path itself where it is a full
/// address, else the path after the base.
pub open spec fn next_url(links_base: Seq<char>, next_path: Seq<char>) -> Seq<char> {
    if occurs_at(next_path, "http"@, 0) {
        next_path
    } else {
        links_base + next_path
    }
}

/// The smaller of two numbers.
pub open spec fn least(a: int, b: int) -> int {
    if a <= b {
        a
    } else {
        b
    }
}

/// Restricts a query to the given spaces. `cql_lower` is the query in lower
/// case.
pub fn with_space_filter(cql: &str, cql_lower: &str, spaces: &Vec<String>) -> (r: String)
    ensures
        r@ == space_filtered(cql@, cql_lower@, strings(spaces@)),
{
    if spaces.len() == 0 {
        return String::from_str(cql);
    }
    let lower = chars_of(cql_lower);
    if contains_str(&lower, "space ") || contains_str(&lower, "space=") || contains_str(
        &lower,
        "space in",
    ) {
        return String::from_str(cql);
    }
    let mut keys: Vec<Vec<char>> = Vec::new();
    let mut i: usize = 0;
    assert(quoted(strings(spaces@)).take(0) =~= views(keys@));
    while i < spaces.len()
        invariant
            i <= spaces.len(),
            views(keys@) == quoted(strings(spaces@)).take(i as int),
        decreases spaces.len() - i,
    {
        let ghost before = views(keys@);
        let ghost all = quoted(strings(spaces@));
        let mut key = chars_of("\"");
        push_str(&mut key, spaces[i].as_str());
        push_str(&mut key, "\"");
        keys.push(key);
        assert(all[i as int] == key@);
        assert(all.take(i + 1) =~= all.take(i as int).push(key@));
        assert(views(keys@) =~= before.push(key@));
        i += 1;
    }
    assert(quoted(strings(spaces@)).take(spaces@.len() as int) =~= quoted(strings(spaces@)));
    let mut out = chars_of("space IN (");
    append(&mut out, &joined(&keys, ","));
    push_str(&mut out, ") AND (");
    push_str(&mut out, cql);
    push_str(&mut out, ")");
    string_of(&out)
}

/// Restricts a query to the spaces that `config` names.
pub fn apply_space_filter(cql: &str, config: &Config) -> (r: String)
    ensures
        r@ == space_filtered(cql@, lowercase(cql@), strings(config.confluence.spaces_filter@)),
{
    let lower = cql.to_lowercase();
    with_space_filter(cql, lower.as_str(), &config.confluence.spaces_filter)
}

/// The address of the next page of a search.
pub fn build_next_url(links_base: &str, next_path: &str) -> (r: String)
    ensures
        r@ == next_url(links_base@, next_path@),
{
    let path = chars_of(next_path);
    if matches_at(&path, &chars_of("http"), 0) {
        String::from_str(next_path)
    } else {
        let mut out = String::from_str(links_base);
        out.append(next_path);
        out
    }
}

/// The number of results that a search asks for: what the caller wants, but
/// no more than a request may ask for when it expands bodies.
pub fn effective_limit(limit: u32) -> (r: u32)
    ensures
        r == least(least(limit as int, MAX_LIMIT as int), SEARCH_BODY_LIMIT as int),
{
    let capped = if limit <= MAX_LIMIT {
        limit
    } else {
        MAX_LIMIT
    };
    if capped <= SEARCH_BODY_LIMIT {
        capped
    } else {
        SEARCH_BODY_LIMIT
    }
}

/// The address `base` followed by `path`.
pub fn endpoint(base_url: &str, path: &str) -> (r: String)
    ensures
        r@ == base_url@ + path@,
{
    let mut out = String::from_str(base_url);
    out.append(path);
    out
}

/// The address of a search.
pub fn search_url(base_url: &str) -> (r: String)
    ensures
        r@ == base_url@ + "/wiki/rest/api/search"@,
{
    endpoint(base_url, "/wiki/rest/api/search")
}

/// The address of the pages.
pub fn pages_url(base_url: &str) -> (r: String)
    ensures
        r@ == base_url@ + "/wiki/api/v2/pages"@,
{
    endpoint(base_url, "/wiki/api/v2/pages")
}

/// The address of the spaces.
pub fn spaces_url(base_url: &str) -> (r: String)
    ensures
        r@ == base_url@ + "/wiki/api/v2/spaces"@,
{
    endpoint(base_url, "/wiki/api/v2/spaces")
}

/// The address of one page.
pub fn page_url(base_url: &str, page_id: &str) -> (r: String)
    ensures
        r@ == base_url@ + "/wiki/api/v2/pages/"@ + page_id@,
{
    let mut out = endpoint(base_url, "/wiki/api/v2/pages/");
    out.append(page_id);
    out
}

/// The address of the children of one page.
pub fn page_children_url(base_url: &str, page_id: &str) -> (r: String)
    ensures
        r@ == base_url@ + "/wiki/api/v2/pages/"@ + page_id@ + "/children"@,
{
    let mut out = page_url(base_url, page_id);
    out.append("/children");
    out
}

/// The address of the comments under one page.
pub fn comments_url(base_url: &str, page_id: &str) -> (r: String)
    ensures
        r@ == base_url@ + "/wiki/api/v2/pages/"@ + page_id@ + "/footer-comments"@,
{
    let mut out = page_url(base_url, page_id);
    out.append("/footer-comments");
    out
}

/// The message of a request that the server refused.
pub fn failure_message(what: &str, status: &str, body: &str) -> (r: String)
    ensures
        r@ == what@ + " ("@ + status@ + "): "@ + body@,
{
    let mut out = String::from_str(what);
    out.append(" (");
    out.append(status);
    out.append("): ");
    out.append(body);
    out
}

/// Where a paged search goes after a page: nowhere where the page names
/// no next page or held no results, else to the next page's address, which
/// is taken against the base that the page names or, where it names none,
/// against the site's address.
pub open spec fn following_page(
    next_path: Option<Seq<char>>,
    count: nat,
    links_base: Option<Seq<char>>,
    base_url: Seq<char>,
) -> Option<Seq<char>> {
    match next_path {
        Some(path) => if count == 0 {
            None
        } else {
            Some(
                next_url(
                    match links_base {
                        Some(base) => base,
                        None => base_url,
                    },
                    path,
                ),
            )
        },
        None => None,
    }
}

/// Decides where a paged search goes after a page with `count` results.
pub fn next_page_url(
    next_path: Option<&str>,
    count: usize,
    links_base: Option<&str>,
    base_url: &str,
) -> (r: Option<String>)
    ensures
        match r {
            Some(url) => following_page(
                match next_path {
                    Some(p) => Some(p@),
                    None => None,
                },
                count as nat,
                match links_base {
                    Some(b) => Some(b@),
                    None => None,
                },
                base_url@,
            ) == Some(url@),
            None => following_page(
                match next_path {
                    Some(p) => Some(p@),
                    None => None,
                },
                count as nat,
                match links_base {
                    Some(b) => Some(b@),
                    None => None,
                },
                base_url@,
            ) is None,
        },
{
    match next_path {
        Some(path) => {
            if count == 0 {
                None
            } else {
                let base = match links_base {
                    Some(b) => b,
                    None => base_url,
                };
                Some(build_next_url(base, path))
            }
        },
        None => None,
    }
}

/// The number of the version that an update creates; `None` where the
/// current number is the largest there is.
pub fn next_version(current: u64) -> (r: Option<u64>)
    ensures
        r == if current < u64::MAX {
            Some((current + 1) as u64)
        } else {
            None
        },
{
    if current < u64::MAX {
        Some(current + 1)
    } else {
        None
    }
}

// ---------------------------------------------------------------------------
// Responses
// ---------------------------------------------------------------------------

/// The value of the member `value` of the member `storage` of the member
/// `body`, if it is a text.
pub open spec fn storage_text(v: JsonView) -> Option<Seq<char>> {
    match member(v, "body"@) {
        Some(body) => match member(body, "storage"@) {
            Some(storage) => match member(storage, "value"@) {
                Some(value) => text(value),
                None => None,
            },
            None => None,
        },
        None => None,
    }
}

/// The value with `t` as its storage text.
pub open spec fn with_storage_text(v: JsonView, t: Seq<char>) -> JsonView {
    let body = member_or_null(v, "body"@);
    let storage = member_or_null(body, "storage"@);
    with_member(
        v,
        "body"@,
        with_member(body, "storage"@, with_member(storage, "value"@, JsonView::Text(t))),
    )
}

/// The value with its storage text, if it has one, converted to Markdown.
pub open spec fn in_markdown(v: JsonView) -> JsonView {
    match storage_text(v) {
        Some(html) => with_storage_text(v, converted(html)),
        None => v,
    }
}

/// The content of every result from `i` on that has one, each in Markdown
/// where that is wanted.
pub open spec fn contents_from(results: Seq<JsonView>, as_markdown: bool, i: int) -> Seq<JsonView>
    decreases results.len() - i,
{
    if i < 0 || i >= results.len() {
        Seq::empty()
    } else {
        (match member(results[i], "content"@) {
            Some(content) => seq![
                if as_markdown {
                    in_markdown(content)
                } else {
                    content
                },
            ],
            None => Seq::empty(),
        }) + contents_from(results, as_markdown, i + 1)
    }
}

/// The contents of the results of a search; none where the response holds
/// no list of results.
pub open spec fn contents(data: JsonView, as_markdown: bool) -> Seq<JsonView> {
    match member(data, "results"@) {
        Some(JsonView::Array(results)) => contents_from(results, as_markdown, 0),
        _ => Seq::empty(),
    }
}

/// The response with the storage text of every result in Markdown; the
/// response itself where it holds no list of results.
pub open spec fn comments_in_markdown(data: JsonView) -> JsonView {
    match member(data, "results"@) {
        Some(JsonView::Array(results)) => with_member(
            data,
            "results"@,
            JsonView::Array(Seq::new(results.len(), |i: int| in_markdown(results[i]))),
        ),
        _ => data,
    }
}

/// An object of the given members.
pub open spec fn object(members: Seq<(Seq<char>, JsonView)>) -> JsonView {
    JsonView::Object(members)
}

/// What a search gives out: the items, their number, and the total that the
/// response names or, where it names none, their number again.
pub open spec fn search_output(found: Seq<JsonView>, total_size: Option<u64>) -> JsonView {
    object(
        seq![
            ("items"@, JsonView::Array(found)),
            ("count"@, JsonView::Unsigned(found.len() as u64)),
            (
                "total"@,
                JsonView::Unsigned(
                    match total_size {
                        Some(n) => n,
                        None => found.len() as u64,
                    },
                ),
            ),
        ],
    )
}

/// What a paged search gives out at its end: the items and their number,
/// or, where the items were streamed, a mark of that and their number.
pub open spec fn search_all_output(found: Seq<JsonView>, stream: bool) -> JsonView {
    if stream {
        object(
            seq![
                ("streamed"@, JsonView::Bool(true)),
                ("total"@, JsonView::Unsigned(found.len() as u64)),
            ],
        )
    } else {
        object(
            seq![
                ("items"@, JsonView::Array(found)),
                ("total"@, JsonView::Unsigned(found.len() as u64)),
            ],
        )
    }
}

/// The results of a response as items.
pub open spec fn items_output(data: JsonView) -> JsonView {
    object(seq![("items"@, member_or_null(data, "results"@))])
}

/// The body of the request that creates a page.
pub open spec fn create_body(
    space_id: Seq<char>,
    title: Seq<char>,
    content: Seq<char>,
) -> JsonView {
    object(
        seq![
            ("spaceId"@, JsonView::Text(space_id)),
            ("title"@, JsonView::Text(title)),
            (
                "body"@,
                object(
                    seq![
                        ("representation"@, JsonView::Text("storage"@)),
                        ("value"@, JsonView::Text(content)),
                    ],
                ),
            ),
        ],
    )
}

/// The body of the request that updates a page to the given version.
pub open spec fn update_body(
    page_id: Seq<char>,
    title: Seq<char>,
    content: Seq<char>,
    version: u64,
) -> JsonView {
    object(
        seq![
            ("id"@, JsonView::Text(page_id)),
            ("title"@, JsonView::Text(title)),
            (
                "body"@,
                object(
                    seq![
                        ("representation"@, JsonView::Text("storage"@)),
                        ("value"@, JsonView::Text(content)),
                    ],
                ),
            ),
            ("version"@, object(seq![("number"@, JsonView::Unsigned(version))])),
        ],
    )
}

/// The identifier of the first space of a response.
pub open spec fn first_space_id(data: JsonView) -> Option<Seq<char>> {
    match member(data, "results"@) {
        Some(JsonView::Array(spaces)) => if spaces.len() > 0 {
            text(member_or_null(spaces[0], "id"@))
        } else {
            None
        },
        _ => None,
    }
}

/// The number of the version of a page.
pub open spec fn version_number(page: JsonView) -> Option<u64> {
    unsigned(member_or_null(member_or_null(page, "version"@), "number"@))
}

/// Makes an object of one member.
fn object_of(name: &str, value: Json) -> (r: Json)
    ensures
        r@ == object(seq![(name@, value@)]),
{
    let mut members: Vec<(String, Json)> = Vec::new();
    members.push((String::from_str(name), value));
    proof {
        lemma_object_view(members);
        assert(member_views(members@) =~= seq![(name@, value@)]);
    }
    Json::Object(members)
}

/// Adds a member to a list of members.
fn push_member(members: &mut Vec<(String, Json)>, name: &str, value: Json)
    ensures
        member_views(final(members)@) == member_views(old(members)@).push((name@, value@)),
{
    members.push((String::from_str(name), value));
    assert(member_views(members@) =~= member_views(old(members)@).push((name@, value@)));
}

/// A copy of the member called `name`, or null where there is none.
pub fn member_copy(value: &Json, name: &str) -> (r: Json)
    ensures
        r@ == member_or_null(value@, name@),
{
    match value.get(name) {
        Some(m) => m.copy(),
        None => Json::Null,
    }
}

/// Converts the storage text of a value, if it has one, to Markdown.
pub fn markdown_body(value: &Json) -> (r: Json)
    ensures
        r@ == in_markdown(value@),
{
    match value.get("body") {
        Some(body) => match body.get("storage") {
            Some(storage) => match storage.get("value") {
                Some(html) => match html.as_str() {
                    Some(text) => {
                        let markdown = Json::Text(convert_to_markdown(text));
                        value.with_member(
                            "body",
                            body.with_member("storage", storage.with_member("value", markdown)),
                        )
                    },
                    None => value.copy(),
                },
                None => value.copy(),
            },
            None => value.copy(),
        },
        None => value.copy(),
    }
}

/// Takes the content out of every result of a search, in Markdown where
/// that is wanted.
pub fn extract_content_from_results(data: &Json, as_markdown: bool) -> (r: Vec<Json>)
    ensures
        item_views(r@) == contents(data@, as_markdown),
{
    let mut out: Vec<Json> = Vec::new();
    assert(item_views(out@) =~= Seq::<JsonView>::empty());
    let results = match data.get("results") {
        Some(list) => match list.as_array() {
            Some(results) => results,
            None => {
                return out;
            },
        },
        None => {
            return out;
        },
    };
    let ghost all = item_views(results@);
    let mut i: usize = 0;
    while i < results.len()
        invariant
            i <= results.len(),
            all == item_views(results@),
            item_views(out@) + contents_from(all, as_markdown, i as int) == contents_from(
                all,
                as_markdown,
                0,
            ),
        decreases results.len() - i,
    {
        let ghost before = item_views(out@);
        let ghost tail = contents_from(all, as_markdown, i + 1);
        assert(all[i as int] == results@[i as int]@);
        match results[i].get("content") {
            Some(content) => {
                let item = if as_markdown {
                    markdown_body(content)
                } else {
                    content.copy()
                };
                out.push(item);
                assert(item_views(out@) =~= before + seq![item@]);
                assert(before + (seq![item@] + tail) =~= (before + seq![item@]) + tail);
            },
            None => {
                assert(Seq::<JsonView>::empty() + tail =~= tail);
            },
        }
        i += 1;
    }
    assert(item_views(out@) + Seq::<JsonView>::empty() =~= item_views(out@));
    out
}

/// Converts the storage text of a page to Markdown.
pub fn convert_page_to_markdown(data: &mut Json)
    ensures
        final(data)@ == in_markdown(old(data)@),
{
    let result = markdown_body(data);
    *data = result;
}

/// Converts the storage text of every comment of a response to Markdown.
pub fn convert_comments_to_markdown(data: &mut Json)
    ensures
        final(data)@ == comments_in_markdown(old(data)@),
{
    let result = match data.get("results") {
        Some(list) => match list.as_array() {
            Some(results) => {
                let mut out: Vec<Json> = Vec::new();
                let mut i: usize = 0;
                while i < results.len()
                    invariant
                        i <= results.len(),
                        out@.len() == i,
                        forall|k: int|
                            0 <= k < i ==> (#[trigger] out@[k])@ == in_markdown(results@[k]@),
                    decreases results.len() - i,
                {
                    out.push(markdown_body(&results[i]));
                    i += 1;
                }
                proof {
                    lemma_array_view(out);
                    assert(item_views(out@) =~= Seq::new(
                        item_views(results@).len(),
                        |i: int| in_markdown(item_views(results@)[i]),
                    ));
                }
                Some(data.with_member("results", Json::Array(out)))
            },
            None => None,
        },
        None => None,
    };
    match result {
        Some(value) => {
            *data = value;
        },
        None => {},
    }
}

/// Gives out what a search found.
pub fn search_result(found: Vec<Json>, total_size: Option<u64>) -> (r: Json)
    ensures
        r@ == search_output(item_views(found@), total_size),
{
    let count = found.len() as u64;
    let total = match total_size {
        Some(n) => n,
        None => count,
    };
    proof {
        lemma_array_view(found);
    }
    let mut members: Vec<(String, Json)> = Vec::new();
    assert(member_views(members@) =~= Seq::<(Seq<char>, JsonView)>::empty());
    push_member(&mut members, "items", Json::Array(found));
    push_member(&mut members, "count", Json::Unsigned(count));
    push_member(&mut members, "total", Json::Unsigned(total));
    proof {
        lemma_object_view(members);
        assert(member_views(members@) =~= search_output(item_views(found@), total_size)->Object_0);
    }
    Json::Object(members)
}

/// Gives out what a paged search found.
pub fn search_all_result(found: Vec<Json>, stream: bool) -> (r: Json)
    ensures
        r@ == search_all_output(item_views(found@), stream),
{
    let total = found.len() as u64;
    proof {
        lemma_array_view(found);
    }
    let mut members: Vec<(String, Json)> = Vec::new();
    assert(member_views(members@) =~= Seq::<(Seq<char>, JsonView)>::empty());
    if stream {
        push_member(&mut members, "streamed", Json::Bool(true));
    } else {
        push_member(&mut members, "items", Json::Array(found));
    }
    push_member(&mut members, "total", Json::Unsigned(total));
    proof {
        lemma_object_view(members);
        assert(member_views(members@) =~= search_all_output(item_views(found@), stream)->Object_0);
    }
    Json::Object(members)
}

/// Gives out the results of a response as items.
pub fn items_result(data: &Json) -> (r: Json)
    ensures
        r@ == items_output(data@),
{
    object_of("items", member_copy(data, "results"))
}

/// The storage-format body of a page.
fn storage_body(content: &str) -> (r: Json)
    ensures
        r@ == object(
            seq![
                ("representation"@, JsonView::Text("storage"@)),
                ("value"@, JsonView::Text(content@)),
            ],
        ),
{
    let mut members: Vec<(String, Json)> = Vec::new();
    assert(member_views(members@) =~= Seq::<(Seq<char>, JsonView)>::empty());
    push_member(&mut members, "representation", Json::Text(String::from_str("storage")));
    push_member(&mut members, "value", Json::Text(String::from_str(content)));
    proof {
        lemma_object_view(members);
        assert(member_views(members@) =~= seq![
            ("representation"@, JsonView::Text("storage"@)),
            ("value"@, JsonView::Text(content@)),
        ]);
    }
    Json::Object(members)
}

/// Writes the body of the request that creates a page.
pub fn create_page_body(space_id: &str, title: &str, content: &str) -> (r: Json)
    ensures
        r@ == create_body(space_id@, title@, content@),
{
    let mut members: Vec<(String, Json)> = Vec::new();
    assert(member_views(members@) =~= Seq::<(Seq<char>, JsonView)>::empty());
    push_member(&mut members, "spaceId", Json::Text(String::from_str(space_id)));
    push_member(&mut members, "title", Json::Text(String::from_str(title)));
    push_member(&mut members, "body", storage_body(content));
    proof {
        lemma_object_view(members);
        assert(member_views(members@) =~= create_body(space_id@, title@, content@)->Object_0);
    }
    Json::Object(members)
}

/// Writes the body of the request that updates a page to `version`.
pub fn update_page_body(page_id: &str, title: &str, content: &str, version: u64) -> (r: Json)
    ensures
        r@ == update_body(page_id@, title@, content@, version),
{
    let mut members: Vec<(String, Json)> = Vec::new();
    assert(member_views(members@) =~= Seq::<(Seq<char>, JsonView)>::empty());
    push_member(&mut members, "id", Json::Text(String::from_str(page_id)));
    push_member(&mut members, "title", Json::Text(String::from_str(title)));
    push_member(&mut members, "body", storage_body(content));
    push_member(&mut members, "version", object_of("number", Json::Unsigned(version)));
    proof {
        lemma_object_view(members);
        assert(member_views(members@) =~= update_body(
            page_id@,
            title@,
            content@,
            version,
        )->Object_0);
    }
    Json::Object(members)
}

/// Reads the identifier of the first space of a response.
pub fn space_id(data: &Json) -> (r: Option<String>)
    ensures
        match r {
            Some(id) => first_space_id(data@) == Some(id@),
            None => first_space_id(data@) is None,
        },
{
    match data.get("results") {
        Some(list) => match list.as_array() {
            Some(spaces) => {
                if spaces.len() > 0 {
                    assert(item_views(spaces@)[0] == spaces@[0]@);
                    match spaces[0].get("id") {
                        Some(id) => match id.as_str() {
                            Some(t) => Some(String::from_str(t)),
                            None => None,
                        },
                        None => None,
                    }
                } else {
                    None
                }
            },
            None => None,
        },
        None => None,
    }
}

/// A link of a response: the text of the member `name` of its member
/// `_links`.
pub open spec fn link(data: JsonView, name: Seq<char>) -> Option<Seq<char>> {
    text(member_or_null(member_or_null(data, "_links"@), name))
}

/// The number of results that a search response says there are in all.
pub open spec fn total_size_of(data: JsonView) -> Option<u64> {
    unsigned(member_or_null(data, "totalSize"@))
}

/// Reads the number of results that a search response says there are in
/// all.
pub fn total_size(data: &Json) -> (r: Option<u64>)
    ensures
        r == total_size_of(data@),
{
    match data.get("totalSize") {
        Some(n) => n.as_u64(),
        None => None,
    }
}

/// Reads a link of a response.
fn read_link(data: &Json, name: &str) -> (r: Option<String>)
    ensures
        match r {
            Some(t) => link(data@, name@) == Some(t@),
            None => link(data@, name@) is None,
        },
{
    match data.get("_links") {
        Some(links) => match links.get(name) {
            Some(l) => match l.as_str() {
                Some(t) => Some(String::from_str(t)),
                None => None,
            },
            None => None,
        },
        None => None,
    }
}

/// Decides where a paged search goes after the page `data`, which held
/// `count` results: to the page's `next` link, taken against its `base`
/// link or, where it has none, against the site's address; nowhere where
/// the page has no `next` link or held no results.
pub fn following_url(data: &Json, count: usize, base_url: &str) -> (r: Option<String>)
    ensures
        match r {
            Some(url) => following_page(
                link(data@, "next"@),
                count as nat,
                link(data@, "base"@),
                base_url@,
            ) == Some(url@),
            None => following_page(
                link(data@, "next"@),
                count as nat,
                link(data@, "base"@),
                base_url@,
            ) is None,
        },
{
    let next = read_link(data, "next");
    let base = read_link(data, "base");
    next_page_url(
        match &next {
            Some(n) => Some(n.as_str()),
            None => None,
        },
        count,
        match &base {
            Some(b) => Some(b.as_str()),
            None => None,
        },
        base_url,
    )
}

/// Reads the number of the version of a page.
pub fn current_version(page: &Json) -> (r: Option<u64>)
    ensures
        r == version_number(page@),
{
    match page.get("version") {
        Some(version) => match version.get("number") {
            Some(number) => number.as_u64(),
            None => None,
        },
        None => None,
    }
}

/// What the creation of a page gives out: the page's identifier and title.
pub fn created_result(data: &Json) -> (r: Json)
    ensures
        r@ == object(
            seq![
                ("id"@, member_or_null(data@, "id"@)),
                ("title"@, member_or_null(data@, "title"@)),
            ],
        ),
{
    let mut members: Vec<(String, Json)> = Vec::new();
    assert(member_views(members@) =~= Seq::<(Seq<char>, JsonView)>::empty());
    push_member(&mut members, "id", member_copy(data, "id"));
    push_member(&mut members, "title", member_copy(data, "title"));
    proof {
        lemma_object_view(members);
        assert(member_views(members@) =~= seq![
            ("id"@, member_or_null(data@, "id"@)),
            ("title"@, member_or_null(data@, "title"@)),
        ]);
    }
    Json::Object(members)
}

/// What the update of a page gives out: the page's identifier and the
/// number of its version.
pub fn updated_result(data: &Json) -> (r: Json)
    ensures
        r@ == object(
            seq![
                ("id"@, member_or_null(data@, "id"@)),
                ("version"@, member_or_null(member_or_null(data@, "version"@), "number"@)),
            ],
        ),
{
    let version = member_copy(data, "version");
    let mut members: Vec<(String, Json)> = Vec::new();
    assert(member_views(members@) =~= Seq::<(Seq<char>, JsonView)>::empty());
    push_member(&mut members, "id", member_copy(data, "id"));
    push_member(&mut members, "version", member_copy(&version, "number"));
    proof {
        lemma_object_view(members);
        assert(member_views(members@) =~= seq![
            ("id"@, member_or_null(data@, "id"@)),
            ("version"@, member_or_null(member_or_null(data@, "version"@), "number"@)),
        ]);
    }
    Json::Object(members)
}

} // verus!
