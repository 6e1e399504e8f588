use confluence_markdown::config::{Config, PerformanceConfig};
use confluence_markdown::confluence::api::{
    convert_comments_to_markdown, convert_page_to_markdown, create_page_body, created_result,
    current_version, extract_content_from_results, following_url, items_result, markdown_body,
    member_copy, search_all_result, search_result, space_id, total_size, update_page_body,
    updated_result,
};
use confluence_markdown::filter::{apply, apply_recursive, default_exclude_fields, DEFAULT_EXCLUDE_FIELDS};
use confluence_markdown::json::{copy_items, copy_members, position, Json};

fn create_test_config() -> Config {
    Config {
        domain: Some("test.atlassian.net".to_string()),
        email: Some("test@example.com".to_string()),
        token: Some("token123".to_string()),
        base_url: "https://test.atlassian.net".to_string(),
        performance: PerformanceConfig { request_timeout_ms: 30000 },
        ..Default::default()
    }
}

fn text(value: &str) -> Json {
    Json::Text(value.to_string())
}

fn object(members: Vec<(&str, Json)>) -> Json {
    Json::Object(members.into_iter().map(|(name, value)| (name.to_string(), value)).collect())
}

fn shown(value: &Json) -> String {
    format!("{:?}", value)
}

fn contains_key(value: &Json, name: &str) -> bool {
    value.get(name).is_some()
}

fn page_with_storage(value: Json) -> Json {
    object(vec![
        ("id", text("1")),
        ("body", object(vec![("storage", object(vec![("value", value), ("representation", text("storage"))]))])),
        ("title", text("T")),
    ])
}

#[test]
fn test_remove_excluded_fields() {
    let config = create_test_config();
    let mut data = object(vec![
        ("name", text("John")),
        ("avatarUrls", object(vec![("16x16", text("url"))])),
        ("self", text("https://api")),
    ]);

    apply(&mut data, &config);
    assert!(contains_key(&data, "name"));
    assert!(!contains_key(&data, "avatarUrls"));
    assert!(!contains_key(&data, "self"));
}

#[test]
fn test_remove_empty_strings() {
    let config = create_test_config();
    let mut data = object(vec![("name", text("")), ("status", Json::Null), ("valid", text("data"))]);

    apply(&mut data, &config);
    assert!(!contains_key(&data, "name"));
    assert!(contains_key(&data, "status"));
    assert!(contains_key(&data, "valid"));
}

#[test]
fn test_recursive() {
    let config = create_test_config();
    let mut data = object(vec![(
        "issues",
        Json::Array(vec![
            object(vec![("key", text("P-1")), ("self", text("url1"))]),
            object(vec![("key", text("P-2")), ("self", text("url2"))]),
        ]),
    )]);

    apply(&mut data, &config);
    let issues = data.get("issues").unwrap().as_array().unwrap();
    assert!(!contains_key(&issues[0], "self"));
    assert!(!contains_key(&issues[1], "self"));
}

#[test]
fn test_create_page_body_format() {
    let title = "Test Page";
    let content = "<p>Test content</p>";
    let space_id = "space123";

    let body = create_page_body(space_id, title, content);

    assert_eq!(body.get("spaceId").unwrap().as_str(), Some("space123"));
    assert_eq!(body.get("title").unwrap().as_str(), Some("Test Page"));
    let inner = body.get("body").unwrap();
    assert_eq!(inner.get("representation").unwrap().as_str(), Some("storage"));
    assert_eq!(inner.get("value").unwrap().as_str(), Some("<p>Test content</p>"));
}

#[test]
fn test_update_page_body_format() {
    let page_id = "12345";
    let title = "Updated Title";
    let content = "<p>Updated content</p>";
    let current_version = 5u64;

    let body = update_page_body(page_id, title, content, current_version + 1);

    assert_eq!(body.get("id").unwrap().as_str(), Some("12345"));
    assert_eq!(body.get("title").unwrap().as_str(), Some("Updated Title"));
    let inner = body.get("body").unwrap();
    assert_eq!(inner.get("representation").unwrap().as_str(), Some("storage"));
    assert_eq!(inner.get("value").unwrap().as_str(), Some("<p>Updated content</p>"));
    assert_eq!(body.get("version").unwrap().get("number").unwrap().as_u64(), Some(6));
}

#[test]
fn filtering_keeps_order_and_everything_else() {
    let exclude = vec!["drop".to_string()];
    let data = object(vec![
        ("b", Json::Unsigned(1)),
        ("drop", text("x")),
        ("a", Json::Array(vec![text(""), object(vec![("drop", Json::Null), ("e", text("")), ("k", Json::Bool(true))])])),
        ("empty", text("")),
        ("n", Json::Number("-1.5".to_string())),
        ("o", object(vec![("drop", text("y"))])),
    ]);
    let expected = object(vec![
        ("b", Json::Unsigned(1)),
        ("a", Json::Array(vec![text(""), object(vec![("k", Json::Bool(true))])])),
        ("n", Json::Number("-1.5".to_string())),
        ("o", object(vec![])),
    ]);
    assert_eq!(shown(&apply_recursive(&data, &exclude)), shown(&expected));
    assert_eq!(shown(&apply_recursive(&text(""), &exclude)), shown(&text("")));
    assert_eq!(shown(&apply_recursive(&Json::Null, &exclude)), shown(&Json::Null));
}

#[test]
fn settings_name_the_fields_to_leave_out() {
    let mut config = create_test_config();
    config.optimization.response_exclude_fields = Some(vec!["name".to_string()]);
    let mut data = object(vec![("name", text("John")), ("self", text("https://api"))]);
    apply(&mut data, &config);
    assert_eq!(shown(&data), shown(&object(vec![("self", text("https://api"))])));

    config.optimization.response_exclude_fields = Some(vec![]);
    let mut data = object(vec![("self", text("s")), ("e", text(""))]);
    apply(&mut data, &config);
    assert_eq!(shown(&data), shown(&object(vec![("self", text("s"))])));
}

#[test]
fn default_fields_as_a_list() {
    let fields = default_exclude_fields();
    assert_eq!(fields.len(), 38);
    for (i, field) in fields.iter().enumerate() {
        assert_eq!(field, DEFAULT_EXCLUDE_FIELDS[i]);
    }
    assert_eq!(fields[0], "avatarUrls");
    assert_eq!(fields[37], "extensions");
}

#[test]
fn members_are_found_by_name() {
    let data = object(vec![("a", Json::Unsigned(1)), ("b", text("two")), ("a", Json::Unsigned(3))]);
    assert_eq!(data.get("a").unwrap().as_u64(), Some(1));
    assert_eq!(data.get("b").unwrap().as_str(), Some("two"));
    assert!(data.get("c").is_none());
    assert!(text("x").get("a").is_none());
    assert!(Json::Array(vec![]).get("a").is_none());
    assert_eq!(text("x").as_u64(), None);
    assert_eq!(Json::Unsigned(1).as_str(), None);
    assert!(Json::Null.as_array().is_none());
    assert_eq!(Json::Array(vec![Json::Null]).as_array().unwrap().len(), 1);
    if let Json::Object(members) = &data {
        assert_eq!(position(members, "a"), Some(0));
        assert_eq!(position(members, "b"), Some(1));
        assert_eq!(position(members, "z"), None);
        assert_eq!(shown(&Json::Object(copy_members(members))), shown(&data));
    }
    assert_eq!(shown(&member_copy(&data, "b")), shown(&text("two")));
    assert_eq!(shown(&member_copy(&data, "z")), shown(&Json::Null));
}

#[test]
fn copies_are_equal() {
    let data = object(vec![
        ("a", Json::Array(vec![Json::Null, Json::Bool(false), Json::Number("1e9".to_string())])),
        ("b", object(vec![("c", text("d"))])),
    ]);
    assert_eq!(shown(&data.copy()), shown(&data));
    let items = vec![Json::Unsigned(7), text("x")];
    assert_eq!(shown(&Json::Array(copy_items(&items))), shown(&Json::Array(items)));
}

#[test]
fn the_first_member_of_a_name_is_replaced() {
    let data = object(vec![("a", Json::Unsigned(1)), ("b", Json::Unsigned(2)), ("a", Json::Unsigned(3))]);
    assert_eq!(
        shown(&data.with_member("a", text("new"))),
        shown(&object(vec![("a", text("new")), ("b", Json::Unsigned(2)), ("a", Json::Unsigned(3))]))
    );
    assert_eq!(
        shown(&data.with_member("b", Json::Null)),
        shown(&object(vec![("a", Json::Unsigned(1)), ("b", Json::Null), ("a", Json::Unsigned(3))]))
    );
    assert_eq!(shown(&data.with_member("z", Json::Null)), shown(&data));
    assert_eq!(shown(&text("t").with_member("a", Json::Null)), shown(&text("t")));
}

#[test]
fn a_page_body_is_converted() {
    let mut page = page_with_storage(text("<p>Hello <strong>world</strong></p>"));
    convert_page_to_markdown(&mut page);
    assert_eq!(shown(&page), shown(&page_with_storage(text("Hello **world**"))));

    let mut page = page_with_storage(Json::Unsigned(1));
    convert_page_to_markdown(&mut page);
    assert_eq!(shown(&page), shown(&page_with_storage(Json::Unsigned(1))));

    let mut page = object(vec![("body", object(vec![("view", text("<p>x</p>"))]))]);
    convert_page_to_markdown(&mut page);
    assert_eq!(shown(&page), shown(&object(vec![("body", object(vec![("view", text("<p>x</p>"))]))])));

    assert_eq!(shown(&markdown_body(&Json::Null)), shown(&Json::Null));
}

#[test]
fn comments_are_converted_one_by_one() {
    let mut data = object(vec![
        ("results", Json::Array(vec![
            page_with_storage(text("<h1>One</h1>")),
            object(vec![("id", text("2"))]),
            page_with_storage(text("<em>three</em>")),
        ])),
        ("_links", object(vec![])),
    ]);
    convert_comments_to_markdown(&mut data);
    let expected = object(vec![
        ("results", Json::Array(vec![
            page_with_storage(text("# One")),
            object(vec![("id", text("2"))]),
            page_with_storage(text("*three*")),
        ])),
        ("_links", object(vec![])),
    ]);
    assert_eq!(shown(&data), shown(&expected));

    let mut data = object(vec![("results", text("none"))]);
    convert_comments_to_markdown(&mut data);
    assert_eq!(shown(&data), shown(&object(vec![("results", text("none"))])));
}

#[test]
fn contents_are_taken_out_of_results() {
    let data = object(vec![(
        "results",
        Json::Array(vec![
            object(vec![("content", page_with_storage(text("<p>a</p>")))]),
            object(vec![("title", text("no content"))]),
            text("not an object"),
            object(vec![("content", Json::Null)]),
        ]),
    )]);
    let plain = extract_content_from_results(&data, false);
    assert_eq!(
        shown(&Json::Array(plain)),
        shown(&Json::Array(vec![page_with_storage(text("<p>a</p>")), Json::Null]))
    );
    let markdown = extract_content_from_results(&data, true);
    assert_eq!(
        shown(&Json::Array(markdown)),
        shown(&Json::Array(vec![page_with_storage(text("a")), Json::Null]))
    );
    assert!(extract_content_from_results(&object(vec![]), true).is_empty());
    assert!(extract_content_from_results(&object(vec![("results", Json::Null)]), true).is_empty());
    assert!(extract_content_from_results(&Json::Null, false).is_empty());
}

#[test]
fn search_gives_out_items_count_and_total() {
    let found = || vec![text("a"), text("b")];
    assert_eq!(
        shown(&search_result(found(), Some(40))),
        shown(&object(vec![
            ("items", Json::Array(found())),
            ("count", Json::Unsigned(2)),
            ("total", Json::Unsigned(40)),
        ]))
    );
    assert_eq!(
        shown(&search_result(found(), None)),
        shown(&object(vec![
            ("items", Json::Array(found())),
            ("count", Json::Unsigned(2)),
            ("total", Json::Unsigned(2)),
        ]))
    );
    assert_eq!(
        shown(&search_all_result(found(), false)),
        shown(&object(vec![("items", Json::Array(found())), ("total", Json::Unsigned(2))]))
    );
    assert_eq!(
        shown(&search_all_result(found(), true)),
        shown(&object(vec![("streamed", Json::Bool(true)), ("total", Json::Unsigned(2))]))
    );
}

#[test]
fn responses_are_read() {
    let data = object(vec![
        ("totalSize", Json::Unsigned(12)),
        ("results", Json::Array(vec![object(vec![("id", text("s1"))]), object(vec![("id", text("s2"))])])),
        ("_links", object(vec![("next", text("/n")), ("base", text("https://b"))])),
        ("version", object(vec![("number", Json::Unsigned(4))])),
        ("id", text("p1")),
        ("title", text("Page")),
    ]);
    assert_eq!(total_size(&data), Some(12));
    assert_eq!(total_size(&object(vec![("totalSize", text("12"))])), None);
    assert_eq!(total_size(&Json::Null), None);
    assert_eq!(space_id(&data), Some("s1".to_string()));
    assert_eq!(space_id(&object(vec![("results", Json::Array(vec![]))])), None);
    assert_eq!(space_id(&object(vec![("results", Json::Array(vec![object(vec![("id", Json::Unsigned(1))])]))])), None);
    assert_eq!(space_id(&Json::Null), None);
    assert_eq!(current_version(&data), Some(4));
    assert_eq!(current_version(&object(vec![("version", Json::Unsigned(4))])), None);
    assert_eq!(following_url(&data, 2, "https://s"), Some("https://b/n".to_string()));
    assert_eq!(following_url(&data, 0, "https://s"), None);
    assert_eq!(following_url(&object(vec![("_links", object(vec![("next", text("/n"))]))]), 1, "https://s"), Some("https://s/n".to_string()));
    assert_eq!(following_url(&object(vec![("_links", object(vec![("base", text("b"))]))]), 1, "https://s"), None);
    assert_eq!(
        shown(&items_result(&data)),
        shown(&object(vec![("items", Json::Array(vec![object(vec![("id", text("s1"))]), object(vec![("id", text("s2"))])]))]))
    );
    assert_eq!(shown(&items_result(&Json::Null)), shown(&object(vec![("items", Json::Null)])));
    assert_eq!(shown(&created_result(&data)), shown(&object(vec![("id", text("p1")), ("title", text("Page"))])));
    assert_eq!(shown(&updated_result(&data)), shown(&object(vec![("id", text("p1")), ("version", Json::Unsigned(4))])));
    assert_eq!(shown(&updated_result(&Json::Null)), shown(&object(vec![("id", Json::Null), ("version", Json::Null)])));
}
