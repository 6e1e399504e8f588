//! Which parts of a page a request asks for.

use vstd::prelude::*;
use vstd::string::StringExecFns;
use crate::text::{
    append, chars_of, join, joined, matches_at, occurs_at, same, slice, string_of, trim, trimmed,
    views,
};

verus! {

/// The parts of a page that a request asks for.
#[derive(Debug, Clone)]
pub struct FieldConfiguration {
    pub body_format: Option<String>,
    pub include_version: bool,
    pub include_labels: bool,
    pub include_properties: bool,
    pub include_operations: bool,
    pub custom_includes: Vec<String>,
    pub include_all: bool,
}

/// A field configuration as plain values.
pub struct Fields {
    pub body_format: Option<Seq<char>>,
    pub include_version: bool,
    pub include_labels: bool,
    pub include_properties: bool,
    pub include_operations: bool,
    pub custom_includes: Seq<Seq<char>>,
    pub include_all: bool,
}

/// The texts that a list of strings holds.
pub open spec fn strings(list: Seq<String>) -> Seq<Seq<char>> {
    list.map_values(|s: String| s@)
}

/// The pairs of texts that a list of pairs of strings holds.
pub open spec fn pairs(list: Seq<(String, String)>) -> Seq<(Seq<char>, Seq<char>)> {
    list.map_values(|p: (String, String)| (p.0@, p.1@))
}

impl View for FieldConfiguration {
    type V = Fields;

    open spec fn view(&self) -> Fields {
        Fields {
            body_format: match self.body_format {
                Some(f) => Some(f@),
                None => None,
            },
            include_version: self.include_version,
            include_labels: self.include_labels,
            include_properties: self.include_properties,
            include_operations: self.include_operations,
            custom_includes: strings(self.custom_includes@),
            include_all: self.include_all,
        }
    }
}

/// The configuration that asks for the body in storage format and for the
/// version, with the given further parts.
pub open spec fn basic_fields(custom_includes: Seq<Seq<char>>) -> Fields {
    Fields {
        body_format: Some("storage"@),
        include_version: true,
        include_labels: false,
        include_properties: false,
        include_operations: false,
        custom_includes,
        include_all: false,
    }
}

/// The configuration that asks for everything.
pub open spec fn every_field() -> Fields {
    Fields {
        body_format: Some("storage"@),
        include_version: true,
        include_labels: true,
        include_properties: true,
        include_operations: true,
        custom_includes: Seq::empty(),
        include_all: true,
    }
}

/// `base` with those of `more` that it does not hold yet, in their order.
pub open spec fn merged(base: Seq<Seq<char>>, more: Seq<Seq<char>>) -> Seq<Seq<char>>
    decreases more.len(),
{
    if more.len() == 0 {
        base
    } else {
        let rest = merged(base, more.drop_last());
        if rest.contains(more.last()) {
            rest
        } else {
            rest.push(more.last())
        }
    }
}

/// The first position at or after `i` that holds a comma, or the end.
pub open spec fn part_end(s: Seq<char>, i: int) -> int
    decreases s.len() - i,
{
    if 0 <= i < s.len() && s[i] != ',' {
        part_end(s, i + 1)
    } else {
        i
    }
}

/// The parts of a comma-separated list from position `i` on: every part
/// that is not empty, trimmed.
pub open spec fn include_parts(s: Seq<char>, i: int) -> Seq<Seq<char>>
    decreases s.len() - i,
{
    if i < 0 || i >= s.len() {
        Seq::empty()
    } else {
        let e = part_end(s, i);
        let head = if e > i {
            seq![trim(s.subrange(i, e))]
        } else {
            Seq::empty()
        };
        if i <= e < s.len() {
            head + include_parts(s, e + 1)
        } else {
            head
        }
    }
}

/// The further parts that a setting names; none where nothing is set.
pub open spec fn configured_includes(value: Option<Seq<char>>) -> Seq<Seq<char>> {
    match value {
        Some(s) => include_parts(s, 0),
        None => Seq::empty(),
    }
}

/// `include-<part>=true` for each part.
pub open spec fn include_params(parts: Seq<Seq<char>>) -> Seq<(Seq<char>, Seq<char>)> {
    parts.map_values(|p: Seq<char>| ("include-"@ + p, "true"@))
}

/// One parameter as a list where the flag is set, the empty list where it
/// is not.
pub open spec fn flag_param(set: bool, name: Seq<char>) -> Seq<(Seq<char>, Seq<char>)> {
    if set {
        seq![(name, "true"@)]
    } else {
        Seq::empty()
    }
}

/// The query parameters that stand for a configuration: the body format,
/// the version, labels, properties and operations as far as they are asked
/// for, and the further parts.
pub open spec fn query_params(f: Fields) -> Seq<(Seq<char>, Seq<char>)> {
    (match f.body_format {
        Some(format) => seq![("body-format"@, format)],
        None => Seq::empty(),
    }) + flag_param(f.include_version, "include-version"@) + flag_param(
        f.include_labels || f.include_all,
        "include-labels"@,
    ) + flag_param(f.include_properties || f.include_all, "include-properties"@) + flag_param(
        f.include_operations || f.include_all,
        "include-operations"@,
    ) + include_params(f.custom_includes)
}

/// The query parameters of a request: those of the configuration that asks
/// for everything where all fields are wanted, else those of the basic
/// configuration with the configured and the additional parts.
pub open spec fn v2_params(
    include_all_fields: Option<bool>,
    additional: Option<Seq<Seq<char>>>,
    configured: Option<Seq<char>>,
) -> Seq<(Seq<char>, Seq<char>)> {
    if include_all_fields == Some(true) {
        query_params(every_field())
    } else {
        query_params(
            basic_fields(
                match additional {
                    Some(more) => merged(configured_includes(configured), more),
                    None => configured_includes(configured),
                },
            ),
        )
    }
}

/// A part of a search result with `content.` in front, unless it has it.
pub open spec fn content_path(part: Seq<char>) -> Seq<char> {
    if occurs_at(part, "content."@, 0) {
        part
    } else {
        "content."@ + part
    }
}

/// The parts that every search expands.
pub open spec fn expand_base(all: bool) -> Seq<Seq<char>> {
    if all {
        seq![
            "content.body.storage"@,
            "content.version"@,
            "content.space"@,
            "content.history"@,
            "content.metadata"@,
        ]
    } else {
        seq!["content.body.storage"@, "content.version"@]
    }
}

/// The value of a search's `expand` parameter: the base parts and the
/// additional ones as content paths, each once, joined by commas.
pub open spec fn search_expand(
    include_all_fields: Option<bool>,
    additional: Option<Seq<Seq<char>>>,
) -> Seq<char> {
    join(
        merged(
            expand_base(include_all_fields == Some(true)),
            match additional {
                Some(more) => more.map_values(|p: Seq<char>| content_path(p)),
                None => Seq::empty(),
            },
        ),
        ","@,
    )
}

/// Whether `list` holds `item`.
pub fn holds(list: &Vec<String>, item: &String) -> (r: bool)
    ensures
        r == strings(list@).contains(item@),
{
    let mut i: usize = 0;
    while i < list.len()
        invariant
            i <= list.len(),
            forall|k: int| 0 <= k < i ==> strings(list@)[k] != item@,
        decreases list.len() - i,
    {
        if list[i] == *item {
            assert(strings(list@)[i as int] == item@);
            return true;
        }
        i += 1;
    }
    false
}

/// Whether `list` holds the text `item`.
fn holds_text(list: &Vec<Vec<char>>, item: &Vec<char>) -> (r: bool)
    ensures
        r == views(list@).contains(item@),
{
    let mut i: usize = 0;
    while i < list.len()
        invariant
            i <= list.len(),
            forall|k: int| 0 <= k < i ==> views(list@)[k] != item@,
        decreases list.len() - i,
    {
        if same(&list[i], item) {
            assert(views(list@)[i as int] == item@);
            return true;
        }
        i += 1;
    }
    false
}

impl Default for FieldConfiguration {
    fn default() -> (r: Self)
        ensures
            r@ == basic_fields(Seq::empty()),
    {
        let r = FieldConfiguration {
            body_format: Some("storage".to_owned()),
            include_version: true,
            include_labels: false,
            include_properties: false,
            include_operations: false,
            custom_includes: Vec::new(),
            include_all: false,
        };
        assert(strings(r.custom_includes@) =~= Seq::<Seq<char>>::empty());
        r
    }
}

impl FieldConfiguration {
    /// The basic configuration with the further parts that a setting names:
    /// a comma-separated list, of which every part that is not empty counts,
    /// trimmed.
    pub fn from_setting(value: Option<&str>) -> (r: Self)
        ensures
            r@ == basic_fields(
                configured_includes(
                    match value {
                        Some(s) => Some(s@),
                        None => None,
                    },
                ),
            ),
    {
        let mut custom_includes: Vec<String> = Vec::new();
        assert(strings(custom_includes@) =~= Seq::<Seq<char>>::empty());
        match value {
            Some(s) => {
                let text = chars_of(s);
                let n = text.len();
                let mut i: usize = 0;
                while i < n
                    invariant
                        n == text.len(),
                        i <= n,
                        strings(custom_includes@) + include_parts(text@, i as int)
                            == include_parts(text@, 0),
                    decreases n - i,
                {
                    let mut e: usize = i;
                    while e < n && text[e] != ','
                        invariant
                            n == text.len(),
                            i <= e <= n,
                            part_end(text@, i as int) == part_end(text@, e as int),
                        decreases n - e,
                    {
                        e += 1;
                    }
                    let ghost before = strings(custom_includes@);
                    let ghost tail = if e < n {
                        include_parts(text@, e + 1)
                    } else {
                        Seq::<Seq<char>>::empty()
                    };
                    if e > i {
                        let part = string_of(&trimmed(&slice(&text, i, e)));
                        custom_includes.push(part);
                        assert(strings(custom_includes@) =~= before + seq![part@]);
                        assert(before + (seq![part@] + tail) =~= (before + seq![part@]) + tail);
                    } else {
                        assert(Seq::<Seq<char>>::empty() + tail =~= tail);
                    }
                    if e < n {
                        i = e + 1;
                    } else {
                        assert(strings(custom_includes@) + Seq::<Seq<char>>::empty()
                            =~= strings(custom_includes@));
                        i = n;
                    }
                }
                assert(strings(custom_includes@) + Seq::<Seq<char>>::empty() =~= strings(
                    custom_includes@,
                ));
            },
            None => {},
        }
        FieldConfiguration {
            body_format: Some("storage".to_owned()),
            include_version: true,
            include_labels: false,
            include_properties: false,
            include_operations: false,
            custom_includes,
            include_all: false,
        }
    }

    /// The configuration that asks for everything.
    pub fn all_fields() -> (r: Self)
        ensures
            r@ == every_field(),
    {
        let r = FieldConfiguration {
            body_format: Some("storage".to_owned()),
            include_version: true,
            include_labels: true,
            include_properties: true,
            include_operations: true,
            custom_includes: Vec::new(),
            include_all: true,
        };
        assert(strings(r.custom_includes@) =~= Seq::<Seq<char>>::empty());
        r
    }

    /// Adds those of `additional` that the configuration does not ask for
    /// yet, in their order.
    pub fn with_additional_includes(self, additional: Vec<String>) -> (r: Self)
        ensures
            r@ == (Fields {
                custom_includes: merged(self@.custom_includes, strings(additional@)),
                ..self@
            }),
    {
        let mut custom_includes = self.custom_includes;
        let mut i: usize = 0;
        assert(strings(additional@).take(0) =~= Seq::<Seq<char>>::empty());
        while i < additional.len()
            invariant
                i <= additional.len(),
                strings(custom_includes@) == merged(
                    strings(self.custom_includes@),
                    strings(additional@).take(i as int),
                ),
            decreases additional.len() - i,
        {
            let ghost before = strings(custom_includes@);
            let ghost next = strings(additional@).take(i + 1);
            assert(next.drop_last() =~= strings(additional@).take(i as int));
            assert(next.last() == additional@[i as int]@);
            if !holds(&custom_includes, &additional[i]) {
                custom_includes.push(additional[i].clone());
                assert(strings(custom_includes@) =~= before.push(additional@[i as int]@));
            }
            i += 1;
        }
        assert(strings(additional@).take(additional@.len() as int) =~= strings(additional@));
        FieldConfiguration {
            body_format: self.body_format,
            include_version: self.include_version,
            include_labels: self.include_labels,
            include_properties: self.include_properties,
            include_operations: self.include_operations,
            custom_includes,
            include_all: self.include_all,
        }
    }

    /// The query parameters that stand for the configuration.
    pub fn to_query_params(&self) -> (r: Vec<(String, String)>)
        ensures
            pairs(r@) == query_params(self@),
    {
        let mut params: Vec<(String, String)> = Vec::new();
        assert(pairs(params@) =~= Seq::<(Seq<char>, Seq<char>)>::empty());
        match &self.body_format {
            Some(format) => {
                params.push(("body-format".to_owned(), format.clone()));
                assert(pairs(params@) =~= seq![("body-format"@, format@)]);
            },
            None => {},
        }
        let ghost p0 = pairs(params@);
        if self.include_version {
            params.push(("include-version".to_owned(), "true".to_owned()));
        }
        assert(pairs(params@) =~= p0 + flag_param(self.include_version, "include-version"@));
        let ghost p1 = pairs(params@);
        if self.include_labels || self.include_all {
            params.push(("include-labels".to_owned(), "true".to_owned()));
        }
        assert(pairs(params@) =~= p1 + flag_param(
            self.include_labels || self.include_all,
            "include-labels"@,
        ));
        let ghost p2 = pairs(params@);
        if self.include_properties || self.include_all {
            params.push(("include-properties".to_owned(), "true".to_owned()));
        }
        assert(pairs(params@) =~= p2 + flag_param(
            self.include_properties || self.include_all,
            "include-properties"@,
        ));
        let ghost p3 = pairs(params@);
        if self.include_operations || self.include_all {
            params.push(("include-operations".to_owned(), "true".to_owned()));
        }
        assert(pairs(params@) =~= p3 + flag_param(
            self.include_operations || self.include_all,
            "include-operations"@,
        ));
        let ghost fixed = pairs(params@);
        let mut i: usize = 0;
        assert(include_params(strings(self.custom_includes@)).take(0) =~= Seq::<
            (Seq<char>, Seq<char>),
        >::empty());
        while i < self.custom_includes.len()
            invariant
                i <= self.custom_includes.len(),
                pairs(params@) =~= fixed + include_params(strings(self.custom_includes@)).take(
                    i as int,
                ),
            decreases self.custom_includes.len() - i,
        {
            let ghost before = pairs(params@);
            let ghost all = include_params(strings(self.custom_includes@));
            let mut name = String::from_str("include-");
            name.append(self.custom_includes[i].as_str());
            let ghost added = (name@, "true"@);
            params.push((name, "true".to_owned()));
            assert(all[i as int] == added);
            assert(all.take(i + 1) =~= all.take(i as int).push(added));
            assert(pairs(params@) =~= before.push(added));
            i += 1;
        }
        assert(include_params(strings(self.custom_includes@)).take(
            self.custom_includes@.len() as int,
        ) =~= include_params(strings(self.custom_includes@)));
        params
    }
}

/// The query parameters of a request for a page. `configured` is the value
/// of the setting that names further parts, if it is set.
pub fn apply_v2_filtering(
    include_all_fields: Option<bool>,
    additional_includes: Option<Vec<String>>,
    configured: Option<&str>,
) -> (r: Vec<(String, String)>)
    ensures
        pairs(r@) == v2_params(
            include_all_fields,
            match additional_includes {
                Some(more) => Some(strings(more@)),
                None => None,
            },
            match configured {
                Some(s) => Some(s@),
                None => None,
            },
        ),
{
    if include_all_fields == Some(true) {
        return FieldConfiguration::all_fields().to_query_params();
    }
    let mut config = FieldConfiguration::from_setting(configured);
    match additional_includes {
        Some(additional) => {
            config = config.with_additional_includes(additional);
        },
        None => {},
    }
    config.to_query_params()
}

/// The value of a search's `expand` parameter.
pub fn build_search_expand(
    include_all_fields: Option<bool>,
    additional_expand: Option<Vec<String>>,
) -> (r: String)
    ensures
        r@ == search_expand(
            include_all_fields,
            match additional_expand {
                Some(more) => Some(strings(more@)),
                None => None,
            },
        ),
{
    let mut expand: Vec<Vec<char>> = Vec::new();
    expand.push(chars_of("content.body.storage"));
    expand.push(chars_of("content.version"));
    if include_all_fields == Some(true) {
        expand.push(chars_of("content.space"));
        expand.push(chars_of("content.history"));
        expand.push(chars_of("content.metadata"));
    }
    assert(views(expand@) =~= expand_base(include_all_fields == Some(true)));
    match additional_expand {
        Some(additional) => {
            let ghost base = views(expand@);
            let ghost paths = strings(additional@).map_values(|p: Seq<char>| content_path(p));
            let prefix = chars_of("content.");
            let mut i: usize = 0;
            assert(paths.take(0) =~= Seq::<Seq<char>>::empty());
            while i < additional.len()
                invariant
                    i <= additional.len(),
                    prefix@ == "content."@,
                    paths == strings(additional@).map_values(|p: Seq<char>| content_path(p)),
                    views(expand@) == merged(base, paths.take(i as int)),
                decreases additional.len() - i,
            {
                let ghost before = views(expand@);
                let ghost next = paths.take(i + 1);
                assert(next.drop_last() =~= paths.take(i as int));
                assert(next.last() == content_path(additional@[i as int]@));
                let param = chars_of(additional[i].as_str());
                let path = if matches_at(&param, &prefix, 0) {
                    param
                } else {
                    let mut p = chars_of("content.");
                    append(&mut p, &param);
                    p
                };
                if !holds_text(&expand, &path) {
                    expand.push(path);
                    assert(views(expand@) =~= before.push(path@));
                }
                i += 1;
            }
            assert(paths.take(additional@.len() as int) =~= paths);
        },
        None => {},
    }
    string_of(&joined(&expand, ","))
}

} // verus!
