//! A JSON value as the client's rules read it.

use vstd::prelude::*;
use vstd::string::StringExecFns;

verus! {

/// A JSON value. A number that is a whole number from zero up to the
/// largest `u64` is held as such, any other number as the text that writes
/// it. The members of an object keep their order.
#[derive(Debug)]
pub enum Json {
    Null,
    Bool(bool),
    Unsigned(u64),
    Number(String),
    Text(String),
    Array(Vec<Json>),
    Object(Vec<(String, Json)>),
}

/// A JSON value as plain values.
pub enum JsonView {
    Null,
    Bool(bool),
    Unsigned(u64),
    Number(Seq<char>),
    Text(Seq<char>),
    Array(Seq<JsonView>),
    Object(Seq<(Seq<char>, JsonView)>),
}

/// The plain value of a JSON value.
pub open spec fn json_view(v: Json) -> JsonView
    decreases v,
{
    match v {
        Json::Null => JsonView::Null,
        Json::Bool(b) => JsonView::Bool(b),
        Json::Unsigned(n) => JsonView::Unsigned(n),
        Json::Number(n) => JsonView::Number(n@),
        Json::Text(t) => JsonView::Text(t@),
        Json::Array(items) => JsonView::Array(
            Seq::new(
                items@.len(),
                |i: int|
                    if 0 <= i < items@.len() {
                        json_view(items@[i])
                    } else {
                        JsonView::Null
                    },
            ),
        ),
        Json::Object(fields) => JsonView::Object(
            Seq::new(
                fields@.len(),
                |i: int|
                    if 0 <= i < fields@.len() {
                        (fields@[i].0@, json_view(fields@[i].1))
                    } else {
                        (Seq::empty(), JsonView::Null)
                    },
            ),
        ),
    }
}

impl View for Json {
    type V = JsonView;

    open spec fn view(&self) -> JsonView {
        json_view(*self)
    }
}

/// The plain values of a list of JSON values.
pub open spec fn item_views(items: Seq<Json>) -> Seq<JsonView> {
    Seq::new(items.len(), |i: int| items[i]@)
}

/// The plain values of a list of members.
pub open spec fn member_views(fields: Seq<(String, Json)>) -> Seq<(Seq<char>, JsonView)> {
    Seq::new(fields.len(), |i: int| (fields[i].0@, fields[i].1@))
}

/// The view of an array is the array of the views.
pub proof fn lemma_array_view(items: Vec<Json>)
    ensures
        Json::Array(items)@ == JsonView::Array(item_views(items@)),
{
    assert(json_view(Json::Array(items))->Array_0 =~= item_views(items@));
}

/// The view of an object is the object of the views.
pub proof fn lemma_object_view(fields: Vec<(String, Json)>)
    ensures
        Json::Object(fields)@ == JsonView::Object(member_views(fields@)),
{
    assert(json_view(Json::Object(fields))->Object_0 =~= member_views(fields@));
}

/// The value of the first member called `name` from position `i` on.
pub open spec fn member_from(fields: Seq<(Seq<char>, JsonView)>, name: Seq<char>, i: int) -> Option<
    JsonView,
>
    decreases fields.len() - i,
{
    if i < 0 || i >= fields.len() {
        None
    } else if fields[i].0 == name {
        Some(fields[i].1)
    } else {
        member_from(fields, name, i + 1)
    }
}

/// The value of the member called `name`; none where the value is no object
/// or has no such member.
pub open spec fn member(v: JsonView, name: Seq<char>) -> Option<JsonView> {
    match v {
        JsonView::Object(fields) => member_from(fields, name, 0),
        _ => None,
    }
}

/// The value of the member called `name`, or null where there is none.
pub open spec fn member_or_null(v: JsonView, name: Seq<char>) -> JsonView {
    match member(v, name) {
        Some(m) => m,
        None => JsonView::Null,
    }
}

/// The text of a value that is a text.
pub open spec fn text(v: JsonView) -> Option<Seq<char>> {
    match v {
        JsonView::Text(t) => Some(t),
        _ => None,
    }
}

/// The number of a value that is an unsigned number.
pub open spec fn unsigned(v: JsonView) -> Option<u64> {
    match v {
        JsonView::Unsigned(n) => Some(n),
        _ => None,
    }
}

/// The items of a value that is an array.
pub open spec fn items(v: JsonView) -> Option<Seq<JsonView>> {
    match v {
        JsonView::Array(a) => Some(a),
        _ => None,
    }
}

/// The members from `i` on, with `new` as the value of the first that is
/// called `name`.
pub open spec fn with_member_from(
    fields: Seq<(Seq<char>, JsonView)>,
    name: Seq<char>,
    new: JsonView,
    i: int,
) -> Seq<(Seq<char>, JsonView)>
    decreases fields.len() - i,
{
    if i < 0 || i >= fields.len() {
        Seq::empty()
    } else if fields[i].0 == name {
        seq![(name, new)] + fields.subrange(i + 1, fields.len() as int)
    } else {
        seq![fields[i]] + with_member_from(fields, name, new, i + 1)
    }
}

/// The value with `new` as the value of its member called `name`; the value
/// itself where it is no object or has no such member.
pub open spec fn with_member(v: JsonView, name: Seq<char>, new: JsonView) -> JsonView {
    match v {
        JsonView::Object(fields) => JsonView::Object(with_member_from(fields, name, new, 0)),
        _ => v,
    }
}

/// Where the first member called `name` from `i` on is the one at `k`, it
/// is the one whose value changes.
proof fn lemma_with_member_at(
    fields: Seq<(Seq<char>, JsonView)>,
    name: Seq<char>,
    new: JsonView,
    i: int,
    k: int,
)
    requires
        0 <= i <= k < fields.len(),
        fields[k].0 == name,
        forall|j: int| i <= j < k ==> fields[j].0 != name,
    ensures
        with_member_from(fields, name, new, i) == fields.subrange(i, k) + seq![(name, new)]
            + fields.subrange(k + 1, fields.len() as int),
        member_from(fields, name, i) == Some(fields[k].1),
    decreases k - i,
{
    if i < k {
        lemma_with_member_at(fields, name, new, i + 1, k);
        assert(seq![fields[i]] + (fields.subrange(i + 1, k) + seq![(name, new)] + fields.subrange(
            k + 1,
            fields.len() as int,
        )) =~= fields.subrange(i, k) + seq![(name, new)] + fields.subrange(
            k + 1,
            fields.len() as int,
        ));
    } else {
        assert(fields.subrange(i, k) + seq![(name, new)] + fields.subrange(
            k + 1,
            fields.len() as int,
        ) =~= seq![(name, new)] + fields.subrange(k + 1, fields.len() as int));
    }
}

/// Where no member from `i` on is called `name`, nothing changes.
proof fn lemma_with_member_absent(
    fields: Seq<(Seq<char>, JsonView)>,
    name: Seq<char>,
    new: JsonView,
    i: int,
)
    requires
        0 <= i <= fields.len(),
        forall|j: int| i <= j < fields.len() ==> fields[j].0 != name,
    ensures
        with_member_from(fields, name, new, i) == fields.subrange(i, fields.len() as int),
        member_from(fields, name, i) is None,
    decreases fields.len() - i,
{
    if i < fields.len() {
        lemma_with_member_absent(fields, name, new, i + 1);
        assert(seq![fields[i]] + fields.subrange(i + 1, fields.len() as int) =~= fields.subrange(
            i,
            fields.len() as int,
        ));
    } else {
        assert(fields.subrange(i, fields.len() as int) =~= Seq::<(Seq<char>, JsonView)>::empty());
    }
}

/// The position of the first member called `name`.
pub fn position(fields: &Vec<(String, Json)>, name: &str) -> (r: Option<usize>)
    ensures
        match r {
            Some(k) => k < fields.len() && fields@[k as int].0@ == name@ && (forall|j: int|
                0 <= j < k ==> fields@[j].0@ != name@) && member_from(
                member_views(fields@),
                name@,
                0,
            ) == Some(fields@[k as int].1@),
            None => (forall|j: int| 0 <= j < fields.len() ==> fields@[j].0@ != name@)
                && member_from(member_views(fields@), name@, 0) is None,
        },
{
    let wanted = String::from_str(name);
    let mut i: usize = 0;
    while i < fields.len()
        invariant
            i <= fields.len(),
            wanted@ == name@,
            forall|j: int| 0 <= j < i ==> fields@[j].0@ != name@,
        decreases fields.len() - i,
    {
        if fields[i].0 == wanted {
            proof {
                lemma_with_member_at(member_views(fields@), name@, JsonView::Null, 0, i as int);
            }
            return Some(i);
        }
        i += 1;
    }
    proof {
        lemma_with_member_absent(member_views(fields@), name@, JsonView::Null, 0);
    }
    None
}

/// Copies a list of values.
pub fn copy_items(items: &Vec<Json>) -> (r: Vec<Json>)
    ensures
        item_views(r@) == item_views(items@),
    decreases items,
{
    let mut out: Vec<Json> = Vec::new();
    let mut i: usize = 0;
    while i < items.len()
        invariant
            i <= items.len(),
            out@.len() == i,
            forall|k: int| 0 <= k < i ==> (#[trigger] out@[k])@ == items@[k]@,
        decreases items.len() - i,
    {
        out.push(items[i].copy());
        i += 1;
    }
    assert(item_views(out@) =~= item_views(items@));
    out
}

/// Copies a list of members.
pub fn copy_members(fields: &Vec<(String, Json)>) -> (r: Vec<(String, Json)>)
    ensures
        member_views(r@) == member_views(fields@),
    decreases fields,
{
    let mut out: Vec<(String, Json)> = Vec::new();
    let mut i: usize = 0;
    while i < fields.len()
        invariant
            i <= fields.len(),
            out@.len() == i,
            forall|k: int|
                0 <= k < i ==> (#[trigger] out@[k]).0@ == fields@[k].0@ && out@[k].1@
                    == fields@[k].1@,
        decreases fields.len() - i,
    {
        out.push((fields[i].0.clone(), fields[i].1.copy()));
        i += 1;
    }
    assert(member_views(out@) =~= member_views(fields@));
    out
}

impl Json {
    /// A copy of the value.
    pub fn copy(&self) -> (r: Json)
        ensures
            r@ == self@,
        decreases self,
    {
        match self {
            Json::Null => Json::Null,
            Json::Bool(b) => Json::Bool(*b),
            Json::Unsigned(n) => Json::Unsigned(*n),
            Json::Number(n) => Json::Number(n.clone()),
            Json::Text(t) => Json::Text(t.clone()),
            Json::Array(items) => {
                let out = copy_items(items);
                proof {
                    lemma_array_view(out);
                    lemma_array_view(*items);
                }
                Json::Array(out)
            },
            Json::Object(fields) => {
                let out = copy_members(fields);
                proof {
                    lemma_object_view(out);
                    lemma_object_view(*fields);
                }
                Json::Object(out)
            },
        }
    }

    /// The value of the member called `name`.
    pub fn get(&self, name: &str) -> (r: Option<&Json>)
        ensures
            match r {
                Some(v) => member(self@, name@) == Some(v@),
                None => member(self@, name@) is None,
            },
    {
        match self {
            Json::Object(fields) => {
                proof {
                    lemma_object_view(*fields);
                }
                match position(fields, name) {
                    Some(k) => Some(&fields[k].1),
                    None => None,
                }
            },
            _ => None,
        }
    }

    /// The text of the value, if it is a text.
    pub fn as_str(&self) -> (r: Option<&str>)
        ensures
            match r {
                Some(t) => text(self@) == Some(t@),
                None => text(self@) is None,
            },
    {
        match self {
            Json::Text(t) => Some(t.as_str()),
            _ => None,
        }
    }

    /// The number of the value, if it is an unsigned number.
    pub fn as_u64(&self) -> (r: Option<u64>)
        ensures
            r == unsigned(self@),
    {
        match self {
            Json::Unsigned(n) => Some(*n),
            _ => None,
        }
    }

    /// The items of the value, if it is an array.
    pub fn as_array(&self) -> (r: Option<&Vec<Json>>)
        ensures
            match r {
                Some(a) => items(self@) == Some(item_views(a@)),
                None => items(self@) is None,
            },
    {
        match self {
            Json::Array(a) => {
                proof {
                    lemma_array_view(*a);
                }
                Some(a)
            },
            _ => None,
        }
    }

    /// A copy of the value with `new` as the value of its member called
    /// `name`.
    pub fn with_member(&self, name: &str, new: Json) -> (r: Json)
        ensures
            r@ == with_member(self@, name@, new@),
    {
        match self {
            Json::Object(fields) => {
                proof {
                    lemma_object_view(*fields);
                }
                let ghost all = member_views(fields@);
                match position(fields, name) {
                    Some(k) => {
                        let mut out: Vec<(String, Json)> = Vec::new();
                        let mut i: usize = 0;
                        while i < k
                            invariant
                                i <= k < fields.len(),
                                all == member_views(fields@),
                                member_views(out@) =~= all.subrange(0, i as int),
                            decreases k - i,
                        {
                            let ghost before = member_views(out@);
                            out.push((fields[i].0.clone(), fields[i].1.copy()));
                            assert(member_views(out@) =~= before.push(all[i as int]));
                            assert(all.subrange(0, i + 1) =~= all.subrange(0, i as int).push(
                                all[i as int],
                            ));
                            i += 1;
                        }
                        let ghost head = member_views(out@);
                        out.push((String::from_str(name), new));
                        assert(member_views(out@) =~= head.push((name@, new@)));
                        assert(all.subrange(k + 1, k + 1) =~= Seq::<
                            (Seq<char>, JsonView),
                        >::empty());
                        i = k + 1;
                        while i < fields.len()
                            invariant
                                k < i <= fields.len(),
                                all == member_views(fields@),
                                member_views(out@) =~= all.subrange(0, k as int) + seq![
                                    (name@, new@),
                                ] + all.subrange(k + 1, i as int),
                            decreases fields.len() - i,
                        {
                            let ghost before = member_views(out@);
                            out.push((fields[i].0.clone(), fields[i].1.copy()));
                            assert(member_views(out@) =~= before.push(all[i as int]));
                            assert(all.subrange(k + 1, i + 1) =~= all.subrange(
                                k + 1,
                                i as int,
                            ).push(all[i as int]));
                            i += 1;
                        }
                        proof {
                            lemma_with_member_at(all, name@, new@, 0, k as int);
                            lemma_object_view(out);
                        }
                        Json::Object(out)
                    },
                    None => {
                        proof {
                            lemma_with_member_absent(all, name@, new@, 0);
                            assert(all.subrange(0, all.len() as int) =~= all);
                        }
                        self.copy()
                    },
                }
            },
            _ => self.copy(),
        }
    }
}

} // verus!
