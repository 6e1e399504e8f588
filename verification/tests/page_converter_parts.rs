use confluence_markdown::confluence::markdown::{
    assemble, clean_confluence_html, convert_to_markdown, decimal_of, extract_images,
    placeholder_of, process_macro, remove_confluence_tags, restore_images,
    IMAGE_PLACEHOLDER_PREFIX, IMAGE_PLACEHOLDER_SUFFIX,
};
use confluence_markdown::text::{chars_of, string_of};

fn cleaned(html: &str) -> String {
    string_of(&clean_confluence_html(&chars_of(html)))
}

fn macro_html(block: &str) -> String {
    string_of(&process_macro(&chars_of(block)))
}

fn without_tags(html: &str) -> String {
    string_of(&remove_confluence_tags(&chars_of(html)))
}

fn extracted(html: &str) -> (String, Vec<String>) {
    let (text, alts) = extract_images(&chars_of(html));
    (string_of(&text), alts.iter().map(string_of).collect())
}

fn restored(markdown: &str, alts: &[&str]) -> String {
    let alts: Vec<Vec<char>> = alts.iter().map(|a| chars_of(a)).collect();
    string_of(&restore_images(&chars_of(markdown), &alts))
}

#[test]
fn emoticons_are_dropped() {
    assert_eq!(cleaned("a<ac:emoticon ac:name=\"smile\" />b"), "ab");
    assert_eq!(cleaned("a<ac:emoticon ac:name=\"smile\"></ac:emoticon>b"), "ab");
    assert_eq!(cleaned("a<ac:emoticon ac:name=\"smile\""), "a<ac:emoticon ac:name=\"smile\"");
}

#[test]
fn images_become_img_elements() {
    assert_eq!(
        cleaned("<ac:image><ri:attachment ri:filename=\"d.png\"/></ac:image>"),
        "<img alt=\"d.png\"/>"
    );
    assert_eq!(cleaned("<ac:image><ri:url ri:value=\"u\"/></ac:image>"), "");
    assert_eq!(cleaned("a<ac:image ac:alt=\"x\" />b"), "ab");
    assert_eq!(cleaned("a<ac:image ac:alt=\"x\">b"), "ab");
}

#[test]
fn links_become_their_text() {
    assert_eq!(
        cleaned("<ac:link><ri:page ri:content-title=\"Home\"/><ac:plain-text-link-body><![CDATA[ go home ]]></ac:plain-text-link-body></ac:link>"),
        "go home"
    );
    assert_eq!(cleaned("<ac:link><ri:page ri:content-title=\"Home\"/></ac:link>"), "Home");
    assert_eq!(cleaned("<ac:link><ri:user ri:account-id=\"u\"/></ac:link>"), "");
    assert_eq!(
        cleaned("<ac:link><ri:page ri:content-title=\"T\"/><ac:plain-text-link-body></ac:plain-text-link-body></ac:link>"),
        ""
    );
    assert_eq!(cleaned("a<ac:link>b"), "ab");
}

#[test]
fn macros_become_html() {
    assert_eq!(
        macro_html("<ac:structured-macro ac:name=\"code\"><ac:plain-text-body><![CDATA[ let x = 1; ]]></ac:plain-text-body></ac:structured-macro>"),
        "<pre><code>let x = 1;</code></pre>"
    );
    assert_eq!(
        macro_html("<ac:structured-macro ac:name=\"noformat\"><ac:plain-text-body>raw</ac:plain-text-body></ac:structured-macro>"),
        "<pre><code>raw</code></pre>"
    );
    assert_eq!(
        macro_html("<ac:structured-macro ac:name=\"code\"><ac:rich-text-body>rich only</ac:rich-text-body></ac:structured-macro>"),
        "rich only"
    );
    assert_eq!(macro_html("<ac:structured-macro ac:name=\"code\"></ac:structured-macro>"), "");
    assert_eq!(
        macro_html("<ac:structured-macro ac:name=\"info\"><ac:rich-text-body><p>I</p></ac:rich-text-body></ac:structured-macro>"),
        "> **INFO**: <p>I</p>"
    );
    assert_eq!(
        macro_html("<ac:structured-macro ac:name=\"note\"><ac:rich-text-body> N </ac:rich-text-body></ac:structured-macro>"),
        "> **NOTE**: N"
    );
    assert_eq!(
        macro_html("<ac:structured-macro ac:name=\"warning\"><ac:rich-text-body>W</ac:rich-text-body></ac:structured-macro>"),
        "> **WARNING**: W"
    );
    assert_eq!(
        macro_html("<ac:structured-macro ac:name=\"tip\"><ac:rich-text-body>T</ac:rich-text-body></ac:structured-macro>"),
        "> **TIP**: T"
    );
    assert_eq!(
        macro_html("<ac:structured-macro ac:name=\"info\"><ac:plain-text-body>no rich body</ac:plain-text-body></ac:structured-macro>"),
        ""
    );
    assert_eq!(
        macro_html("<ac:structured-macro ac:name=\"toc\"><ac:rich-text-body>ignored</ac:rich-text-body></ac:structured-macro>"),
        ""
    );
    assert_eq!(
        macro_html("<ac:structured-macro ac:name=\"expand\"><ac:rich-text-body><ac:x>inner</ac:x></ac:rich-text-body></ac:structured-macro>"),
        "inner"
    );
    assert_eq!(
        macro_html("<ac:structured-macro ac:name=\"error\"><ac:rich-text-body>E</ac:rich-text-body></ac:structured-macro>"),
        "E"
    );
    assert_eq!(macro_html("<ac:structured-macro ac:name=\"other\"></ac:structured-macro>"), "");
    assert_eq!(macro_html("<ac:structured-macro ac:name=\"toc"), "");
    assert_eq!(
        macro_html("<ac:structured-macro><ac:rich-text-body>nameless</ac:rich-text-body>"),
        "nameless"
    );
}

#[test]
fn macros_in_a_text() {
    assert_eq!(
        cleaned("a<ac:structured-macro ac:name=\"info\"><ac:rich-text-body>x</ac:rich-text-body></ac:structured-macro>b<ac:structured-macro ac:name=\"toc\"></ac:structured-macro>c"),
        "a> **INFO**: xbc"
    );
    assert_eq!(cleaned("a<ac:structured-macro ac:name=\"info\">never closed"), "anever closed");
}

#[test]
fn custom_tags_go() {
    assert_eq!(without_tags("<ac:a>x</ac:a><ri:b/>y</ri:b>"), "xy");
    assert_eq!(without_tags("<ac:a"), "<ac:a");
    assert_eq!(without_tags("<a<ri:x>c:y>"), "<ac:y>");
    assert_eq!(without_tags("plain"), "plain");
}

#[test]
fn img_tags_give_way_to_placeholders() {
    assert_eq!(extracted("<img src=\"a\" alt=\"first\"/> and <img alt=\"second\">"), ("IMGPLACEHOLDER0END and IMGPLACEHOLDER1END".to_string(), vec!["first".to_string(), "second".to_string()]));
    assert_eq!(extracted("<img alt=\"\"/><img src=\"x\"><img>"), ("".to_string(), Vec::<String>::new()));
    assert_eq!(extracted("a<img alt=\"x\""), ("a<img alt=\"x\"".to_string(), Vec::<String>::new()));
    assert_eq!(extracted("<img alt=\"a>b\"/>"), ("IMGPLACEHOLDER0END".to_string(), vec!["a>b".to_string()]));
    assert_eq!(extracted("<img alt=\"one\"><p>/></p>"), ("IMGPLACEHOLDER0END</p>".to_string(), vec!["one".to_string()]));
    assert_eq!(extracted("<i<img>mg alt=\"joined\">"), ("IMGPLACEHOLDER0END".to_string(), vec!["joined".to_string()]));
    assert_eq!(extracted("no images"), ("no images".to_string(), Vec::<String>::new()));
    assert_eq!(extracted("<img alt=\"0\"/><img alt=\"1\"/><img alt=\"2\"/><img alt=\"3\"/><img alt=\"4\"/><img alt=\"5\"/><img alt=\"6\"/><img alt=\"7\"/><img alt=\"8\"/><img alt=\"9\"/><img alt=\"10\"/><img alt=\"11\"/>"), ("IMGPLACEHOLDER0ENDIMGPLACEHOLDER1ENDIMGPLACEHOLDER2ENDIMGPLACEHOLDER3ENDIMGPLACEHOLDER4ENDIMGPLACEHOLDER5ENDIMGPLACEHOLDER6ENDIMGPLACEHOLDER7ENDIMGPLACEHOLDER8ENDIMGPLACEHOLDER9ENDIMGPLACEHOLDER10ENDIMGPLACEHOLDER11END".to_string(), vec!["0".to_string(), "1".to_string(), "2".to_string(), "3".to_string(), "4".to_string(), "5".to_string(), "6".to_string(), "7".to_string(), "8".to_string(), "9".to_string(), "10".to_string(), "11".to_string()]));
}

#[test]
fn placeholders_are_numbered_in_decimal() {
    assert_eq!(IMAGE_PLACEHOLDER_PREFIX, "IMGPLACEHOLDER");
    assert_eq!(IMAGE_PLACEHOLDER_SUFFIX, "END");
    assert_eq!(string_of(&placeholder_of(0)), "IMGPLACEHOLDER0END");
    assert_eq!(string_of(&placeholder_of(7)), "IMGPLACEHOLDER7END");
    assert_eq!(string_of(&placeholder_of(10)), "IMGPLACEHOLDER10END");
    assert_eq!(string_of(&placeholder_of(4096)), "IMGPLACEHOLDER4096END");
    for n in [0usize, 9, 10, 99, 100, 12345, usize::MAX] {
        assert_eq!(string_of(&decimal_of(n)), n.to_string());
    }
}

#[test]
fn placeholders_give_way_to_references() {
    assert_eq!(restored("x IMGPLACEHOLDER0END y IMGPLACEHOLDER1END", &["a", "b"]), "x [Image: a] y [Image: b]");
    assert_eq!(restored("IMGPLACEHOLDER0ENDIMGPLACEHOLDER0END", &["twice"]), "[Image: twice][Image: twice]");
    assert_eq!(restored("IMGPLACEHOLDER1END", &["only zero"]), "IMGPLACEHOLDER1END");
    assert_eq!(restored("IMGPLACEHOLDER0END", &["IMGPLACEHOLDER1END", "second"]), "[Image: [Image: second]]");
    assert_eq!(restored("IMGPLACEHOLDER10END IMGPLACEHOLDER1END", &["0", "1"]), "IMGPLACEHOLDER10END [Image: 1]");
    assert_eq!(restored("nothing", &[]), "nothing");
}

#[test]
fn assembling_takes_the_converted_text_or_falls_back() {
    let alts = vec![chars_of("shot")];
    assert_eq!(assemble("<p>raw</p>", Some("IMGPLACEHOLDER0END\n\n\n".to_string()), &alts), "[Image: shot]");
    assert_eq!(assemble("<p>raw</p>\n\n", None, &alts), "<p>raw</p>");
}

#[test]
fn escapes_of_the_generic_converter_are_kept() {
    assert_eq!(convert_to_markdown("<p>a_b*c</p>"), "a\\_b\\*c");
}

#[test]
fn an_image_between_paragraphs() {
    assert_eq!(
        convert_to_markdown("<p>Before</p><ac:image><ri:attachment ri:filename=\"d.png\"/></ac:image><p>After</p>"),
        "Before\n\n[Image: d.png]\n\nAfter"
    );
}
