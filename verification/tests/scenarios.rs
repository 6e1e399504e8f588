use confluence_markdown::markdown::common::normalize_whitespace;
use confluence_markdown::markdown::confluence::confluence_to_markdown;
use confluence_markdown::markdown::confluence::elements::clean_confluence_html;
use confluence_markdown::markdown::confluence::macros::{extract_parameters, process_macro};
use confluence_markdown::markdown::confluence::elements::{Emoticons, Macros};
use confluence_markdown::scan::{rewrite_all, rewrite_counted, Container, Span, MAX_ITERATIONS};
use confluence_markdown::text::{chars_of, string_of};

#[test]
fn a_smile_becomes_its_token() {
    assert_eq!(confluence_to_markdown("<ac:emoticon ac:name=\"smile\" />"), ":)");
}

#[test]
fn an_attached_image_is_named() {
    let html = "<ac:image><ri:attachment ri:filename=\"diagram.png\"/></ac:image>";
    assert!(confluence_to_markdown(html).contains("[Image: diagram.png]"));
    assert_eq!(confluence_to_markdown(html), "[Image: diagram.png]");
}

#[test]
fn a_green_status_is_ok() {
    let block = "<ac:structured-macro ac:name=\"status\"><ac:parameter ac:name=\"title\">Done</ac:parameter><ac:parameter ac:name=\"colour\">Green</ac:parameter></ac:structured-macro>";
    assert_eq!(process_macro(block), "[OK] DONE");
    assert_eq!(confluence_to_markdown(block), "[OK] DONE");
}

#[test]
fn an_open_task_and_a_done_one() {
    let html = "<ac:task-list><ac:task><ac:task-status>incomplete</ac:task-status><ac:task-body>first</ac:task-body></ac:task><ac:task><ac:task-status>complete</ac:task-status><ac:task-body>second</ac:task-body></ac:task></ac:task-list>";
    assert_eq!(clean_confluence_html(html), "- [ ] first\n- [x] second");
}

#[test]
fn four_blank_lines_become_one() {
    assert_eq!(normalize_whitespace("Line 1\n\n\n\nLine 2\n\n"), "Line 1\n\nLine 2");
}

#[test]
fn a_long_run_in_a_paragraph_is_removed() {
    let run = "A".repeat(600);
    let result = confluence_to_markdown(&format!("<p>Some text {} and more text</p>", run));
    assert!(!result.contains(&run));
    assert!(!result.contains("AAAA"));
    assert!(result.starts_with("Some text"));
    assert!(result.ends_with("and more text"));
}

#[test]
fn plain_html_goes_through_the_generic_converter_alone() {
    assert_eq!(confluence_to_markdown("<h1>Title</h1><p>Some <em>text</em>.</p>"), "# Title\n\nSome *text*.");
    assert_eq!(confluence_to_markdown("<ul><li>a_b</li><li>[c]</li></ul>"), "*   a_b\n*   [c]");
    assert_eq!(confluence_to_markdown("plain"), "plain");
    assert_eq!(confluence_to_markdown(""), "");
}

#[test]
fn scripts_styles_and_meta_are_left_out() {
    let html = "<meta name=\"x\" content=\"y\"><p>Text</p><script>alert('x')</script><style>p {}</style><noscript>fallback</noscript>";
    assert_eq!(confluence_to_markdown(html), "Text");
}

#[test]
fn no_custom_tag_is_left_in_well_formed_pages() {
    let pages = [
        "<ac:layout><ac:layout-section ac:type=\"single\"><ac:layout-cell><p>cell <ac:emoticon ac:name=\"tick\" /></p></ac:layout-cell></ac:layout-section></ac:layout>",
        "<p><ac:link><ri:user ri:account-id=\"u1\"/></ac:link> wrote <ac:link><ri:page ri:content-title=\"Spec\"/><ac:plain-text-link-body><![CDATA[the spec]]></ac:plain-text-link-body></ac:link></p>",
        "<ac:structured-macro ac:name=\"panel\"><ac:parameter ac:name=\"bgColor\">#fff</ac:parameter><ac:rich-text-body><p>in a panel</p></ac:rich-text-body></ac:structured-macro>",
        "<ac:structured-macro ac:name=\"unknown\"><ac:parameter ac:name=\"a\">b</ac:parameter></ac:structured-macro><ri:page ri:content-title=\"x\"/>",
        "<ac:inline-comment-marker ac:ref=\"1\">marked</ac:inline-comment-marker>",
    ];
    for page in pages {
        let normalized = clean_confluence_html(page);
        assert!(!normalized.contains("<ac:"), "{}", normalized);
        assert!(!normalized.contains("<ri:"), "{}", normalized);
        let markdown = confluence_to_markdown(page);
        assert!(!markdown.contains("<ac:"), "{}", markdown);
        assert!(!markdown.contains("<ri:"), "{}", markdown);
    }
}

#[test]
fn a_pass_takes_no_more_steps_than_it_may() {
    assert_eq!(MAX_ITERATIONS, 1000);
    let emoticon = "<ac:emoticon ac:name=\"star\" />";
    let within = emoticon.repeat(1000);
    assert_eq!(clean_confluence_html(&within), "(*)".repeat(1000));
    let beyond = emoticon.repeat(1001);
    assert_eq!(clean_confluence_html(&beyond), "(*)".repeat(1000));

    let image = "<ac:image ac:alt=\"i\"></ac:image>";
    assert_eq!(clean_confluence_html(&image.repeat(1002)), "[Image: i]".repeat(1000));

    let tags = "<ac:x>t".repeat(1003);
    assert_eq!(clean_confluence_html(&tags), format!("{}{}", "t".repeat(1000), "<ac:x>t".repeat(3)));
}

#[test]
fn the_steps_of_a_pass_are_counted() {
    let emoticon = "<ac:emoticon ac:name=\"star\" />";
    let run = |text: &str, limit: usize| {
        let (result, steps) = rewrite_counted(&Emoticons, &chars_of(text), limit);
        (string_of(&result), steps)
    };
    assert_eq!(run("", 1000), (String::new(), 0));
    assert_eq!(run("none", 1000), ("none".to_string(), 0));
    assert_eq!(run(emoticon, 1000), ("(*)".to_string(), 1));
    assert_eq!(run(emoticon, 0), (emoticon.to_string(), 0));
    assert_eq!(run(&emoticon.repeat(3), 2), (format!("(*)(*){}", emoticon), 2));
    assert_eq!(run(&emoticon.repeat(999), 1000).1, 999);
    assert_eq!(run(&emoticon.repeat(1000), 1000).1, 1000);
    assert_eq!(run(&emoticon.repeat(1500), 1000).1, 1000);

    let opening = "<ac:structured-macro ac:name=\"a\">";
    let unclosed = chars_of(&opening.repeat(1200));
    let (result, steps) = rewrite_counted(&Macros, &unclosed, MAX_ITERATIONS);
    assert_eq!(steps, 1000);
    assert_eq!(string_of(&result), opening.repeat(200));

    let open_ended = chars_of(&"<ac:structured-macro".repeat(1200));
    let (result, steps) = rewrite_counted(&Macros, &open_ended, MAX_ITERATIONS);
    assert_eq!(steps, 0);
    assert_eq!(string_of(&result), "<ac:structured-macro".repeat(1200));
}

#[test]
fn spans_and_containers_are_cut() {
    let cut = |text: &str| string_of(&rewrite_all(&Span { open: "[", close: "]" }, &chars_of(text), 10));
    assert_eq!(cut("a[b]c[d]e"), "ace");
    assert_eq!(cut("a[b"), "a[b");
    assert_eq!(cut("]a[b]"), "]a");
    assert_eq!(cut("[[x]]"), "]");
    assert_eq!(cut(&"[]".repeat(12)), "[][]");
    let cut = |text: &str| {
        string_of(&rewrite_all(&Container { open: "<x", close: "</x>" }, &chars_of(text), 10))
    };
    assert_eq!(cut("a<x>b</x>c"), "ac");
    assert_eq!(cut("a<x b>c"), "ac");
    assert_eq!(cut("a<x b"), "a<x b");
    assert_eq!(cut("a<x/>b<x>c</x>d"), "ad");
    assert_eq!(cut("<x><x>in</x>out</x>"), "out</x>");
}

#[test]
fn malformed_markup_comes_to_an_end() {
    let inputs = [
        "<ac:emoticon".repeat(5000),
        "<ac:structured-macro".repeat(3000),
        "<ac:structured-macro ac:name=\"a\">".repeat(1500),
        "<ac:link><ac:image><ac:task-list><ac:adf-extension>".repeat(800),
        "</ac:structured-macro>".repeat(2000),
        "<ac:parameter ac:name=\"".repeat(2000),
        format!("<ac:structured-macro ac:name=\"x\">{}", "<ac:parameter ac:name=\"a\">".repeat(2000)),
        "<".repeat(20000),
        "<ac:".repeat(5000) + &">".repeat(5000),
        "\\[".repeat(10000),
        "\n \r\n".repeat(10000),
    ];
    for input in inputs {
        let normalized = clean_confluence_html(&input);
        assert!(normalized.len() <= input.len());
        let _ = confluence_to_markdown(&input);
    }
}

#[test]
fn parameters_scan_comes_to_an_end() {
    let block = "<ac:parameter ac:name=\"k\">v".repeat(3000);
    let params = extract_parameters(&block);
    assert_eq!(params.get("k"), None);
    let block = "<ac:parameter ac:name=\"k\">v</ac:parameter>".repeat(3000);
    assert_eq!(extract_parameters(&block).get("k"), Some("v".to_string()));
}

#[test]
fn an_escaped_diagram_model_goes_with_its_backslash() {
    let html = "<p>Before &lt;mxGraphModel dx=\"1\"&gt;&lt;root&gt;&lt;/root&gt;&lt;/mxGraphModel&gt; after</p>";
    assert_eq!(confluence_to_markdown(html), "Before  after");
}

#[test]
fn markup_that_is_written_out_as_text_stays_text() {
    assert_eq!(confluence_to_markdown("<p>&lt;ac:link&gt;</p>"), "\\<ac:link>");
}

#[test]
fn an_unterminated_macro_loses_its_opening_tag_alone() {
    assert_eq!(clean_confluence_html("<ac:structured-macro ac:name=\"x\">body"), "body");
    assert_eq!(confluence_to_markdown("<ac:structured-macro ac:name=\"x\">body"), "body");
    assert_eq!(clean_confluence_html("<ac:structured-macro ac:name=\"x\""), "<ac:structured-macro ac:name=\"x\"");
}

fn task(status: &str, body: &str) -> String {
    format!(
        "<ac:task><ac:task-status>{}</ac:task-status><ac:task-body>{}</ac:task-body></ac:task>",
        status, body
    )
}

#[test]
fn every_task_gives_one_line_in_its_place() {
    let block = format!(
        "<ac:task-list>\n{} between {}\n{}{}</ac:task-list>",
        task("complete", "first"),
        task("incomplete", " <b>second</b> "),
        task("unknown", "third"),
        task("complete", ""),
    );
    assert_eq!(
        clean_confluence_html(&block),
        "- [x] first\n- [ ] second\n- [ ] third\n- [x] "
    );
    let many: String = (0..40)
        .map(|k| task(if k % 3 == 0 { "complete" } else { "incomplete" }, &format!("t{}", k)))
        .collect();
    let lines: Vec<String> = (0..40)
        .map(|k| format!("- [{}] t{}", if k % 3 == 0 { "x" } else { " " }, k))
        .collect();
    assert_eq!(
        clean_confluence_html(&format!("<ac:task-list>{}</ac:task-list>", many)),
        lines.join("\n")
    );
}

fn longest_run(text: &str) -> usize {
    text.split(char::is_whitespace).map(|part| part.chars().count()).max().unwrap_or(0)
}

#[test]
fn no_result_holds_a_long_run() {
    let a = "A".repeat(300);
    let b = "B".repeat(300);
    let long = "Z".repeat(501);
    let most = "Y".repeat(500);
    let inputs = vec![
        format!("<p>{}</p>", long),
        format!("<p>{}</p>", most),
        format!("<p>{}<b>{}</b></p>", a, b),
        format!("<p>{}ac:macro-id=\"x y\"{}</p>", a, b),
        format!("{}\\[{}", a, b),
        format!("<p>{}<ac:emoticon ac:name=\"smile\"/>{}</p>", a, b),
        format!("<ac:structured-macro ac:name=\"code\"><ac:plain-text-body><![CDATA[{}]]></ac:plain-text-body></ac:structured-macro>", long),
        format!("<table><tr><td>{}</td><td>kept</td></tr></table>", long),
        format!("{}<mxGraphModel> </mxGraphModel>{}", a, b),
        format!("<a href=\"https://example.org/{}\">link</a>", long),
        format!("{}\u{3000}{}\u{a0}{}", a, b, a),
        format!("日本語 {} テキスト", "語".repeat(501)),
    ];
    for html in inputs {
        let result = confluence_to_markdown(&html);
        assert!(longest_run(&result) <= 500, "{}", &html[..40.min(html.len())]);
    }
    assert_eq!(confluence_to_markdown(&format!("<p>{}</p>", most)), most);
    assert_eq!(confluence_to_markdown(&format!("<p>kept {} kept</p>", long)), "kept  kept");
}
