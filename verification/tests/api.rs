use confluence_markdown::config::{Config, PerformanceConfig};
use confluence_markdown::confluence::api::{
    apply_space_filter, build_next_url, comments_url, effective_limit, failure_message,
    next_page_url, next_version, page_children_url, page_url, pages_url, search_url, spaces_url,
    with_space_filter, MAX_LIMIT, RATE_LIMIT_DELAY_MS, SEARCH_BODY_LIMIT,
};

fn create_test_config(confluence_spaces_filter: Vec<String>) -> Config {
    let mut config = Config {
        domain: Some("test.atlassian.net".to_string()),
        email: Some("test@example.com".to_string()),
        token: Some("token123".to_string()),
        base_url: "https://test.atlassian.net".to_string(),
        performance: PerformanceConfig { request_timeout_ms: 30000 },
        ..Default::default()
    };
    config.confluence.spaces_filter = confluence_spaces_filter;
    config
}

#[test]
fn test_max_limit_constant() {
    assert_eq!(MAX_LIMIT, 250);
}

#[test]
fn test_rate_limit_delay() {
    assert_eq!(RATE_LIMIT_DELAY_MS, 200);
}

#[test]
fn test_apply_space_filter_injection() {
    let config = create_test_config(vec!["SPACE1".to_string(), "SPACE2".to_string()]);
    let result = apply_space_filter("type = page", &config);
    assert_eq!(result, "space IN (\"SPACE1\",\"SPACE2\") AND (type = page)");
}

#[test]
fn test_apply_space_filter_not_injected_when_present() {
    let config = create_test_config(vec!["SPACE1".to_string()]);
    let result = apply_space_filter("space = MYSPACE AND type = page", &config);
    assert_eq!(result, "space = MYSPACE AND type = page");
}

#[test]
fn test_apply_space_filter_empty_filter() {
    let config = create_test_config(vec![]);
    let result = apply_space_filter("type = page", &config);
    assert_eq!(result, "type = page");
}

#[test]
fn test_build_next_url_relative_path() {
    let links_base = "https://test.atlassian.net/wiki";
    let next_path = "/rest/api/search?cql=type%3Dpage&cursor=abc123";
    let result = build_next_url(links_base, next_path);
    assert_eq!(
        result,
        "https://test.atlassian.net/wiki/rest/api/search?cql=type%3Dpage&cursor=abc123"
    );
}

#[test]
fn test_build_next_url_absolute() {
    let base_url = "https://test.atlassian.net/wiki";
    let next_path = "https://other.atlassian.net/wiki/rest/api/search?cursor=xyz";
    let result = build_next_url(base_url, next_path);
    assert_eq!(
        result,
        "https://other.atlassian.net/wiki/rest/api/search?cursor=xyz"
    );
}

#[test]
fn test_get_page_url_construction() {
    let config = create_test_config(vec![]);
    let page_id = "12345";

    let url = page_url(config.base_url(), page_id);

    assert_eq!(url, "https://test.atlassian.net/wiki/api/v2/pages/12345");
}

#[test]
fn test_get_page_children_url_construction() {
    let config = create_test_config(vec![]);
    let page_id = "12345";

    let url = page_children_url(config.base_url(), page_id);

    assert_eq!(
        url,
        "https://test.atlassian.net/wiki/api/v2/pages/12345/children"
    );
}

#[test]
fn test_get_comments_url_construction() {
    let config = create_test_config(vec![]);
    let page_id = "12345";

    let url = comments_url(config.base_url(), page_id);

    assert_eq!(
        url,
        "https://test.atlassian.net/wiki/api/v2/pages/12345/footer-comments"
    );
}

#[test]
fn space_filter_sees_upper_case_keyword() {
    let config = create_test_config(vec!["DOCS".to_string()]);
    assert_eq!(apply_space_filter("SPACE IN (A) and x", &config), "SPACE IN (A) and x");
    assert_eq!(apply_space_filter("Space=A", &config), "Space=A");
    assert_eq!(
        apply_space_filter("title ~ spaceship", &config),
        "space IN (\"DOCS\") AND (title ~ spaceship)"
    );
}

#[test]
fn space_filter_goes_by_the_lower_case_form_it_is_given() {
    let spaces = vec!["A".to_string()];
    assert_eq!(with_space_filter("X", "space = y", &spaces), "X");
    assert_eq!(with_space_filter("space = y", "x", &spaces), "space IN (\"A\") AND (space = y)");
}

#[test]
fn search_limit_is_capped_twice() {
    assert_eq!(SEARCH_BODY_LIMIT, 50);
    assert_eq!(effective_limit(0), 0);
    assert_eq!(effective_limit(10), 10);
    assert_eq!(effective_limit(50), 50);
    assert_eq!(effective_limit(51), 50);
    assert_eq!(effective_limit(1000), 50);
}

#[test]
fn fixed_addresses() {
    assert_eq!(search_url("https://x"), "https://x/wiki/rest/api/search");
    assert_eq!(pages_url("https://x"), "https://x/wiki/api/v2/pages");
    assert_eq!(spaces_url("https://x"), "https://x/wiki/api/v2/spaces");
}

#[test]
fn failure_message_names_status_and_body() {
    assert_eq!(
        failure_message("Search failed", "404 Not Found", "gone"),
        "Search failed (404 Not Found): gone"
    );
}

#[test]
fn paged_search_stops_without_next_or_results() {
    assert_eq!(next_page_url(None, 5, Some("b"), "s"), None);
    assert_eq!(next_page_url(Some("/p"), 0, Some("b"), "s"), None);
    assert_eq!(next_page_url(Some("/p"), 1, Some("b"), "s"), Some("b/p".to_string()));
    assert_eq!(next_page_url(Some("/p"), 1, None, "s"), Some("s/p".to_string()));
    assert_eq!(
        next_page_url(Some("https://h/p"), 1, Some("b"), "s"),
        Some("https://h/p".to_string())
    );
}

#[test]
fn version_numbers_count_up() {
    assert_eq!(next_version(5), Some(6));
    assert_eq!(next_version(u64::MAX), None);
}
