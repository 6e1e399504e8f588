//! The response filter: which fields of a response are left out.

use vstd::prelude::*;
use vstd::string::StringExecFns;
use crate::config::Config;
use crate::confluence::fields::{holds, strings};
use crate::json::{item_views, lemma_array_view, lemma_object_view, member_views, Json, JsonView};

verus! {

/// The fields that are left out of every response unless the settings name
/// others.
pub const DEFAULT_EXCLUDE_FIELDS: [&'static str; 38] = [
    "avatarUrls",
    "iconUrl",
    "profilePicture",
    "icon",
    "self",
    "expand",
    "avatarId",
    "accountType",
    "projectTypeKey",
    "simplified",
    "_expandable",
    "_links",
    "childTypes",
    "macroRenderedOutput",
    "restrictions",
    "breadcrumbs",
    "entityType",
    "iconCssClass",
    "colorName",
    "hasScreen",
    "isAvailable",
    "isConditional",
    "isGlobal",
    "isInitial",
    "isLooped",
    "friendlyLastModified",
    "editui",
    "edituiv2",
    "ari",
    "base64EncodedAri",
    "confRev",
    "syncRev",
    "syncRevSource",
    "ncsStepVersion",
    "ncsStepVersionSource",
    "embeddedContent",
    "representation",
    "extensions",
];

/// The names of the fields that are left out by default.
pub open spec fn default_exclusions() -> Seq<Seq<char>> {
    Seq::new(DEFAULT_EXCLUDE_FIELDS@.len(), |i: int| DEFAULT_EXCLUDE_FIELDS@[i]@)
}

/// The names of the fields that the settings leave out.
pub open spec fn exclusions(config: &Config) -> Seq<Seq<char>> {
    match config.optimization.response_exclude_fields {
        Some(names) => strings(names@),
        None => default_exclusions(),
    }
}

/// A value is the empty text.
pub open spec fn is_empty_text(v: JsonView) -> bool {
    match v {
        JsonView::Text(t) => t.len() == 0,
        _ => false,
    }
}

/// The value without the members that are excluded by name or hold the
/// empty text, at every depth.
pub open spec fn filtered(v: JsonView, exclude: Seq<Seq<char>>) -> JsonView
    decreases v, 0nat,
{
    match v {
        JsonView::Object(fields) => JsonView::Object(filtered_members(fields, exclude, 0)),
        JsonView::Array(items) => JsonView::Array(
            Seq::new(
                items.len(),
                |i: int|
                    if 0 <= i < items.len() {
                        filtered(items[i], exclude)
                    } else {
                        JsonView::Null
                    },
            ),
        ),
        _ => v,
    }
}

/// The members from `i` on that stay, each with its value filtered.
pub open spec fn filtered_members(
    fields: Seq<(Seq<char>, JsonView)>,
    exclude: Seq<Seq<char>>,
    i: int,
) -> Seq<(Seq<char>, JsonView)>
    decreases fields, fields.len() - i,
{
    if i < 0 || i >= fields.len() {
        Seq::empty()
    } else if exclude.contains(fields[i].0) || is_empty_text(fields[i].1) {
        filtered_members(fields, exclude, i + 1)
    } else {
        seq![(fields[i].0, filtered(fields[i].1, exclude))] + filtered_members(
            fields,
            exclude,
            i + 1,
        )
    }
}

/// Filters the members of an object.
fn filter_members(fields: &Vec<(String, Json)>, exclude: &Vec<String>) -> (r: Vec<(String, Json)>)
    ensures
        member_views(r@) == filtered_members(member_views(fields@), strings(exclude@), 0),
    decreases fields,
{
    let ghost all = member_views(fields@);
    let ghost names = strings(exclude@);
    let mut out: Vec<(String, Json)> = Vec::new();
    let mut i: usize = 0;
    assert(member_views(out@) =~= Seq::<(Seq<char>, JsonView)>::empty());
    while i < fields.len()
        invariant
            i <= fields.len(),
            all == member_views(fields@),
            names == strings(exclude@),
            member_views(out@) + filtered_members(all, names, i as int) == filtered_members(
                all,
                names,
                0,
            ),
        decreases fields.len() - i,
    {
        let ghost before = member_views(out@);
        let empty_text = match &fields[i].1 {
            Json::Text(t) => t.as_str().is_empty(),
            _ => false,
        };
        if !holds(exclude, &fields[i].0) && !empty_text {
            let value = apply_recursive(&fields[i].1, exclude);
            let ghost kept = (all[i as int].0, value@);
            out.push((fields[i].0.clone(), value));
            assert(member_views(out@) =~= before + seq![kept]);
            assert(before + (seq![kept] + filtered_members(all, names, i + 1)) =~= (before
                + seq![kept]) + filtered_members(all, names, i + 1));
        }
        i += 1;
    }
    assert(member_views(out@) + Seq::<(Seq<char>, JsonView)>::empty() =~= member_views(out@));
    out
}

/// Filters the items of an array.
fn filter_items(items: &Vec<Json>, exclude: &Vec<String>) -> (r: Vec<Json>)
    ensures
        r@.len() == items@.len(),
        forall|k: int|
            0 <= k < items@.len() ==> (#[trigger] r@[k])@ == filtered(
                items@[k]@,
                strings(exclude@),
            ),
    decreases items,
{
    let mut out: Vec<Json> = Vec::new();
    let mut i: usize = 0;
    while i < items.len()
        invariant
            i <= items.len(),
            out@.len() == i,
            forall|k: int|
                0 <= k < i ==> (#[trigger] out@[k])@ == filtered(items@[k]@, strings(exclude@)),
        decreases items.len() - i,
    {
        out.push(apply_recursive(&items[i], exclude));
        i += 1;
    }
    out
}

/// Takes out of a value, at every depth, the members whose names are in
/// `exclude` and those that hold the empty text.
pub fn apply_recursive(value: &Json, exclude: &Vec<String>) -> (r: Json)
    ensures
        r@ == filtered(value@, strings(exclude@)),
    decreases value,
{
    match value {
        Json::Object(fields) => {
            let out = filter_members(fields, exclude);
            proof {
                lemma_object_view(*fields);
                lemma_object_view(out);
            }
            Json::Object(out)
        },
        Json::Array(items) => {
            let out = filter_items(items, exclude);
            proof {
                lemma_array_view(*items);
                lemma_array_view(out);
                assert(item_views(out@) =~= filtered(value@, strings(exclude@))->Array_0);
            }
            Json::Array(out)
        },
        _ => value.copy(),
    }
}

/// The names of the fields that are left out by default, as a list.
pub fn default_exclude_fields() -> (r: Vec<String>)
    ensures
        strings(r@) == default_exclusions(),
{
    let mut out: Vec<String> = Vec::new();
    let mut i: usize = 0;
    while i < DEFAULT_EXCLUDE_FIELDS.len()
        invariant
            i <= DEFAULT_EXCLUDE_FIELDS@.len(),
            out@.len() == i,
            forall|k: int| 0 <= k < i ==> (#[trigger] out@[k])@ == DEFAULT_EXCLUDE_FIELDS@[k]@,
        decreases DEFAULT_EXCLUDE_FIELDS@.len() - i,
    {
        out.push(String::from_str(DEFAULT_EXCLUDE_FIELDS[i]));
        i += 1;
    }
    assert(strings(out@) =~= default_exclusions());
    out
}

/// Takes out of a response the fields that the settings leave out, and
/// every member that holds the empty text.
pub fn apply(value: &mut Json, config: &Config)
    ensures
        final(value)@ == filtered(old(value)@, exclusions(config)),
{
    let result = match &config.optimization.response_exclude_fields {
        Some(names) => apply_recursive(value, names),
        None => apply_recursive(value, &default_exclude_fields()),
    };
    *value = result;
}

} // verus!
