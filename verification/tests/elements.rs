use confluence_markdown::markdown::confluence::elements::clean_confluence_html;

#[test]
fn elements_test_emoticon() {
    let html = r#"<ac:emoticon ac:name="smile" />"#;
    assert_eq!(clean_confluence_html(html), ":)");
}

#[test]
fn test_image_with_filename() {
    let html = r#"<ac:image><ri:attachment ri:filename="diagram.png"/></ac:image>"#;
    assert_eq!(clean_confluence_html(html), "[Image: diagram.png]");
}

#[test]
fn test_image_with_url() {
    let html = r#"<ac:image><ri:url ri:value="https://example.com/img.png"/></ac:image>"#;
    assert_eq!(
        clean_confluence_html(html),
        "![Image](https://example.com/img.png)"
    );
}

#[test]
fn test_link_with_body() {
    let html = r#"<ac:link><ri:page ri:content-title="My Page"/><ac:link-body>Click here</ac:link-body></ac:link>"#;
    assert_eq!(clean_confluence_html(html), "[Click here](page:My Page)");
}

#[test]
fn test_link_with_plain_text() {
    let html = r#"<ac:link><ri:page ri:content-title="My Page"/><ac:plain-text-link-body><![CDATA[Link text]]></ac:plain-text-link-body></ac:link>"#;
    assert_eq!(clean_confluence_html(html), "[Link text](page:My Page)");
}

#[test]
fn test_link_to_user() {
    let html = r#"<ac:link><ri:user ri:account-id="user123"/></ac:link>"#;
    assert_eq!(clean_confluence_html(html), "[@user123](@user123)");
}

#[test]
fn test_self_closing_macro() {
    let html = r#"<ac:structured-macro ac:name="toc" /><p>After</p>"#;
    let result = clean_confluence_html(html);
    assert!(result.contains("<p>After</p>"));
}

#[test]
fn elements_test_task_list() {
    let html = r#"<ac:task-list>
            <ac:task><ac:task-status>incomplete</ac:task-status><ac:task-body>Todo item</ac:task-body></ac:task>
            <ac:task><ac:task-status>complete</ac:task-status><ac:task-body>Done item</ac:task-body></ac:task>
        </ac:task-list>"#;
    let result = clean_confluence_html(html);
    assert!(result.contains("- [ ] Todo item"));
    assert!(result.contains("- [x] Done item"));
}

#[test]
fn test_adf_extension_panel() {
    let html = r#"<ac:adf-extension><ac:adf-node type="panel"><ac:adf-attribute key="panel-type">note</ac:adf-attribute><ac:adf-content><p>Content</p></ac:adf-content></ac:adf-node></ac:adf-extension>"#;
    let result = clean_confluence_html(html);
    assert!(result.contains("> **NOTE**"));
    assert!(result.contains("Content"));
    assert!(!result.contains("panel-type"));
}

#[test]
fn test_remove_remaining_tags() {
    let html = r#"<ac:unknown>text</ac:unknown><ri:unknown />"#;
    let result = clean_confluence_html(html);
    assert_eq!(result, "text");
}
