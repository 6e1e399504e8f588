use confluence_markdown::markdown::confluence::confluence_to_markdown;
use confluence_markdown::confluence::markdown::convert_to_markdown;
use confluence_markdown::markdown::converter::convert_guarded;
use confluence_markdown::markdown::nesting::{is_shallow, nesting_of, MAX_NESTING};
use confluence_markdown::text::chars_of;
use htmd::{HtmlToMarkdown, Node};
use std::rc::Rc;

fn nesting(text: &str) -> usize {
    nesting_of(&chars_of(text))
}

/// The depth of the deepest node of a document tree, the root being at
/// depth nought.
fn depth(root: &Rc<Node>) -> usize {
    let mut deepest = 0;
    let mut nodes: Vec<(Rc<Node>, usize)> = vec![(root.clone(), 0)];
    while let Some((node, level)) = nodes.pop() {
        if level > deepest {
            deepest = level;
        }
        for child in node.children.borrow().iter() {
            nodes.push((child.clone(), level + 1));
        }
    }
    deepest
}

/// The depth of the tree that the parser of the generic converter builds.
fn parsed_depth(text: &str) -> usize {
    depth(&HtmlToMarkdown::new().html_to_tree(text).unwrap())
}

struct Random(u64);

impl Random {
    fn below(&mut self, bound: usize) -> usize {
        self.0 = self.0.wrapping_mul(6364136223846793005).wrapping_add(1442695040888963407);
        ((self.0 >> 33) as usize) % bound
    }
}

const NAMES: [&str; 60] = [
    "div", "span", "p", "b", "i", "a", "table", "tr", "td", "th", "tbody", "thead", "caption",
    "object", "marquee", "applet", "button", "li", "ul", "ol", "select", "option", "form", "h1",
    "h2", "pre", "br", "img", "input", "hr", "body", "html", "head", "font", "nobr", "em",
    "strong", "dd", "dt", "dl", "ruby", "colgroup", "col", "frameset", "script", "style", "title",
    "textarea", "xmp", "iframe", "noembed", "noframes", "noscript", "DIV", "P", "Script", "TABLE",
    "Td", "B", "STYLE",
];

fn tag_soup(random: &mut Random, tokens: usize) -> String {
    let mut text = String::new();
    for _ in 0..tokens {
        let name = NAMES[random.below(NAMES.len())];
        match random.below(23) {
            0..=4 => text.push_str(&format!("<{}>", name)),
            5..=8 => text.push_str(&format!("</{}>", name)),
            9 => text.push_str("x"),
            10 => text.push_str(&format!("<{} a=\"b\" c='d' e=f>", name)),
            11 => text.push_str(&format!("<{} title=\"</{}>\">", name, name)),
            12 => text.push_str(&format!("<!-- </{}> -->", name)),
            13 => text.push_str(&format!("<{}/>", name)),
            14 => text.push_str(&format!("<!doctype \"</{}>\">", name)),
            15 => text.push_str(&format!("<![CDATA[</{}>]]>", name)),
            16 => text.push_str(&format!("<?x </{}> ?>", name)),
            17 => text.push_str(&format!("</ {}></{}>", name, name)),
            18 => text.push_str(&format!("<!--></{}>-->", name)),
            19 => text.push_str(&format!("<script>if (a<{}) x;</script>", name)),
            20 => text.push_str(&format!("<style><{}></{}></STYLE>", name, name)),
            21 => text.push_str(&format!("<script><!-- <script> </script> </{}> -->", name)),
            _ => text.push_str(&format!("<title></{}><{}></title >", name, name)),
        }
    }
    text
}

#[test]
fn plain_markup_nests_as_it_is_written() {
    assert_eq!(nesting(""), 0);
    assert_eq!(nesting("text"), 0);
    assert_eq!(nesting("<p>a</p>"), 1);
    assert_eq!(nesting("<p><b>a</b></p>"), 2);
    assert_eq!(nesting("<p>a</p><p>b</p>"), 1);
    assert_eq!(nesting("<br><br><br>"), 0);
    assert_eq!(nesting("<img src=x><hr/>"), 0);
    assert_eq!(nesting("<div><br></div>"), 1);
    assert_eq!(nesting("<ul><li>1</li><li>2<ul><li>3</li></ul></li></ul>"), 4);
    assert_eq!(nesting("<table><tr><td>1</td><td>2</td></tr><tr><td>3</td></tr></table>"), 3);
    assert_eq!(nesting("<p\n class=\"x\"\n>a</p\n><p>b</p>"), 1);
    assert_eq!(nesting("<x-y.z:w></x-y.z:w><q></q>"), 1);
    assert_eq!(nesting("<a></a ><b></b\t>"), 1);
}

#[test]
fn elements_that_are_not_closed_stay_open() {
    assert_eq!(nesting("<p>a<p>b<p>c"), 3);
    assert_eq!(nesting("<a></b><a></b>"), 2);
    assert_eq!(nesting("<b><i></b></i><u></u>"), 2);
    assert_eq!(nesting("<p"), 1);
    assert_eq!(nesting("<div/><div/>"), 2);
}

#[test]
fn attributes_are_read_like_a_parser_reads_them() {
    assert_eq!(nesting("<a title=\">\"><b></b></a><c></c>"), 2);
    assert_eq!(nesting("<a title=\"<x>\"></a><y></y>"), 3);
    assert_eq!(nesting("<a href=x>t</a><a href=y>u</a>"), 1);
    assert_eq!(nesting("<a b='c' d=\"e\" f=g h></a><i></i>"), 1);
    assert_eq!(nesting("<a b= \"c\"></a><i></i>"), 1);
}

#[test]
fn comments_hide_what_closes_and_show_what_opens() {
    assert_eq!(nesting("<!-- <div> --><p></p>"), 2);
    assert_eq!(nesting("<div><!-- </div> --><div></div></div>"), 2);
    assert_eq!(nesting("<!----><p></p><p></p>"), 1);
    assert_eq!(nesting("<!-- never closed <p></p><p></p>"), 2);
}

#[test]
fn tags_that_are_not_well_formed_make_the_scan_blind() {
    assert_eq!(nesting("<p></p class=x><p></p>"), 2);
    assert_eq!(nesting("<a b=\"c\"d=\"e\"></a><i></i>"), 2);
    assert_eq!(nesting("<a =b></a><i></i>"), 2);
    assert_eq!(nesting("<a b=c\"></a><i></i>"), 2);
    assert_eq!(nesting("<!--x--!><p></p><p></p>"), 2);
    assert_eq!(nesting("<svg><g></g><g></g></svg>"), 3);
    assert_eq!(nesting("<a></a/><b></b>"), 2);
    assert_eq!(nesting("<a<b>></a<b>>"), 3);
}

#[test]
fn void_elements_and_text_do_not_nest() {
    assert_eq!(nesting("<p><br/></p><input><p></p>"), 1);
    assert_eq!(nesting("a < b > c <3"), 0);
    assert_eq!(nesting("< p></ p>"), 0);
}

#[test]
fn raw_text_runs_to_its_end_tag() {
    assert_eq!(nesting(&format!("<script>var a = 1;</script>{}", "<p>x</p>".repeat(100))), 1);
    assert_eq!(nesting("<script></script><p></p><p></p>"), 1);
    assert_eq!(nesting("<style>p { }</style><p></p><p></p>"), 1);
    assert_eq!(nesting("<script>if (a<b) { }</script><p></p><p></p>"), 2);
    assert_eq!(nesting("<title>a <b> c</title><p></p>"), 2);
    assert_eq!(nesting("<textarea></textarea ><p></p>"), 1);
    assert_eq!(nesting("<xmp></xmpp></xmp><i></i>"), 1);
    assert_eq!(nesting("<style></styl><p></p></style><i></i>"), 2);
    assert_eq!(nesting("<script>never closed <p></p><p>"), 3);
}

#[test]
fn raw_text_that_may_hide_its_end_makes_the_scan_blind() {
    assert_eq!(nesting("<script><!-- </script> --></script><p></p><p></p>"), 3);
    assert_eq!(nesting("<style></style x><p></p><p></p>"), 3);
    assert_eq!(nesting("<select><option></option></select><p></p><p></p>"), 4);
}

#[test]
fn names_are_compared_without_regard_to_case() {
    assert_eq!(nesting("<DIV></DIV><p></p>"), 1);
    assert_eq!(nesting("<p>per</p><P>caps</P><p></p>"), 1);
    assert_eq!(nesting("<SCRIPT>x</Script><P></p><Div></DIV>"), 1);
    assert_eq!(nesting("<TABLE><TR><TD>x</td></tr></table><p></p>"), 3);
    assert_eq!(nesting("<Br><IMG><p></p>"), 1);
}

#[test]
fn declarations_end_with_the_first_closing_bracket() {
    assert_eq!(nesting("<![CDATA[ <a> ]]><p></p><p></p>"), 2);
    assert_eq!(nesting("<!doctype html \"<p>\"><p></p><p></p>"), 2);
    assert_eq!(nesting("</ x><p></p></ ><p></p>"), 1);
    assert_eq!(nesting("<? <p> ?><p></p><p></p>"), 2);
    assert_eq!(nesting("<p><!x"), 1);
    assert_eq!(nesting("<!-- a -- b --><p></p><p></p>"), 1);
    assert_eq!(nesting("<!DOCTYPE html><p></p><p></p>"), 1);
    assert_eq!(nesting("</><p></p><p></p>"), 1);
    assert_eq!(nesting("<!--><p></p><p></p>"), 1);
    assert_eq!(nesting("<!---><p></p><p></p>"), 1);
    assert_eq!(nesting("<?xml?><p></p><p></p>"), 1);
}

#[test]
fn only_the_innermost_element_closes() {
    assert_eq!(nesting("<span><div></span></div><span><div></span></div>"), 3);
    assert_eq!(nesting("<div><object></div></object><div><object></div></object>"), 3);
    assert_eq!(nesting("<div><p>a<p>b</div><div></div>"), 4);
    assert_eq!(nesting("<b><i>x</b></i><b><i>y</b></i>"), 3);
}

#[test]
fn rows_of_a_long_table_do_not_add_up() {
    assert_eq!(nesting(&"<tr><td>x</td></tr>".repeat(1000)), 2);
    assert_eq!(nesting(&format!("<table>{}</table>", "<tr><td><p>x</p></td></tr>".repeat(5000))), 4);
}

#[test]
fn a_text_is_shallow_up_to_the_limit() {
    assert_eq!(MAX_NESTING, 100);
    let nested = |depth: usize| format!("{}x{}", "<div> ".repeat(depth), " </div>".repeat(depth));
    assert_eq!(nesting(&nested(100)), 100);
    assert_eq!(nesting(&nested(101)), 101);
    assert!(is_shallow(&nested(100)));
    assert!(!is_shallow(&nested(101)));
    assert!(is_shallow(""));
}

#[test]
fn a_shallow_text_is_converted_and_a_deep_one_is_not() {
    let nested = |depth: usize| format!("{}x{}", "<div> ".repeat(depth), " </div>".repeat(depth));
    assert_eq!(convert_guarded(&nested(100), vec!["script"]), Some("x".to_string()));
    assert_eq!(convert_guarded(&nested(101), vec!["script"]), None);
    assert_eq!(convert_guarded("<script>s</script><p>p</p>", vec!["script"]), Some("p".to_string()));
    assert_eq!(convert_guarded("<p>a_b</p><script>s</script>", vec!["style"]), Some("a\\_b\n\ns".to_string()));

    assert_eq!(confluence_to_markdown(&nested(100)), "x");
    assert_eq!(confluence_to_markdown(&nested(101)), nested(101));
    assert_eq!(convert_to_markdown(&nested(100)), "x");
    assert_eq!(convert_to_markdown(&nested(101)), nested(101));
}

#[test]
fn a_flat_text_with_scripts_and_capital_letters_is_converted() {
    let page = format!(
        "<script>var a = 1;</script><STYLE>p {{ }}</STYLE><H1>Title</H1>{}",
        "<p>text</p>".repeat(100)
    );
    assert!(is_shallow(&page));
    let markdown = confluence_to_markdown(&page);
    assert!(markdown.starts_with("# Title\n\ntext\n\ntext"));
    assert!(!markdown.contains("<p>"));
    assert!(!markdown.contains("var a"));
    assert_eq!(markdown.matches("text").count(), 100);
}

#[test]
fn deep_texts_of_every_kind_come_back() {
    let texts = [
        "<div>".repeat(50000),
        "<b><i><table><tr><td>".repeat(5000),
        "<ul><li>".repeat(20000),
        "<blockquote>\n".repeat(30000),
        format!("{}{}", "<span>".repeat(10000), "</span>".repeat(10000)),
        "<p><!--".repeat(3000),
        "<a href=\"<a href='<a>".repeat(3000),
        "<DIV><svg><math><script>".repeat(3000),
        "<ac:layout><ac:layout-cell>".repeat(3000),
    ];
    for text in texts {
        let _ = confluence_to_markdown(&text);
        let _ = convert_to_markdown(&text);
    }
}

#[test]
fn the_parsed_tree_is_no_deeper_than_the_bound_allows() {
    let mut random = Random(7);
    for round in 0..8000 {
        let tokens = 1 + random.below(if round % 10 == 0 { 150 } else { 30 });
        let text = tag_soup(&mut random, tokens);
        let bound = nesting(&text);
        let real = parsed_depth(&text);
        assert!(real <= 3 * bound + 4, "{} > 3 * {} + 4 for {:?}", real, bound, text);
    }
}

#[test]
fn the_parsed_tree_of_repeated_patterns_is_no_deeper_than_the_bound_allows() {
    let patterns = [
        "<span><div></span></div>",
        "<div><object></div></object>",
        "<div><table></div></table>",
        "<b><div>",
        "<b><div></b>",
        "<a><table><a>",
        "<b><p>x</b>y</p>",
        "<table><td><table><td>",
        "<table><tr><td>x</td></tr></table>",
        "<select><option><select>",
        "<button><button>",
        "<li><ul><li>",
        "<font><font>",
        "<p><b class=K><i class=K>x</p>",
        "<b class=K>",
        "<b class=K></p>x",
        "<table><caption><table><caption>",
        "<marquee><b></marquee>",
        "<applet><i><b></applet>",
        "<nobr><nobr>",
        "<a><div><a>",
        "<h1><h2>",
        "<dd><dt><dl>",
        "<form><div><form>",
        "<td><tr><th>",
        "<table><b><tr><td>",
        "<div><b><i></div>",
        "<ruby><rt><rp>",
        "<b><i><u><div></b></i></u></div>",
        "<em><strong><p></em></strong>x",
        "<object><param><div></object>",
        "<table><td></table><td>",
        "<div><!-- </div> --><div title='</div>'>",
        "<p><span></P></span>",
        "<script></div></script><div>",
        "<div><script><div></script>",
        "<div><style></div>",
        "<div><title></div></title>",
        "<div><textarea><div></textarea>",
        "<select><title><div></title><div>",
        "<select><script></select></script><div>",
        "<select><div><script><div></select></div></script>",
        "<frameset><style><div></style><div>",
        "<div><script><!--<script></script></div>--></script>",
        "<div><script><!--</script><div>",
        "<DIV><P><sPaN></SPAN></p>",
        "<div><STYLE></div></Style></Div><div>",
        "<table><script></table></script><td>",
        "<div><noscript><div></noscript>",
        "<div><iframe></div><div></iframe>",
        "<div><xmp><div></xmp ><div></xmp x>",
        "<title><div></title><div><title></div></div></title>",
    ];
    for pattern in patterns {
        for count in [1usize, 2, 3, 10, 40, 90] {
            let mut text = String::new();
            for k in 0..count {
                text.push_str(&pattern.replace("K", &k.to_string()));
            }
            let bound = nesting(&text);
            let real = parsed_depth(&text);
            assert!(real <= 3 * bound + 4, "{} > 3 * {} + 4 for {:?}", real, bound, text);
        }
    }
}

/// Holds the bound against the parsed tree for every pattern of up to three
/// tags of which the first opens or closes one of `first`.
fn check_short_patterns(first: &[&str]) {
    let names = [
        "div", "span", "p", "b", "a", "table", "td", "caption", "object", "li", "select", "form",
    ];
    let tags = |names: &[&str]| {
        let mut tags: Vec<String> = Vec::new();
        for name in names {
            tags.push(format!("<{}>", name));
            tags.push(format!("</{}>", name));
        }
        tags
    };
    let check = |pattern: &str| {
        let text = pattern.repeat(30);
        let bound = nesting(&text);
        let real = parsed_depth(&text);
        assert!(real <= 3 * bound + 4, "{} > 3 * {} + 4 for {:?}", real, bound, pattern);
    };
    let rest = tags(&names);
    for first in tags(first) {
        check(&first);
        for second in &rest {
            check(&format!("{}{}", first, second));
            for third in &rest {
                check(&format!("{}{}{}", first, second, third));
            }
        }
    }
}

#[test]
fn short_patterns_that_start_with_a_block() {
    check_short_patterns(&["div", "p", "li"]);
}

#[test]
fn short_patterns_that_start_with_a_phrase() {
    check_short_patterns(&["span", "b", "a"]);
}

#[test]
fn short_patterns_that_start_with_a_table() {
    check_short_patterns(&["table", "td", "caption"]);
}

#[test]
fn short_patterns_that_start_with_an_object_or_a_form() {
    check_short_patterns(&["object", "select", "form"]);
}

/// Holds the bound against the parsed tree for every pattern of up to three
/// tags over raw-text elements, the elements that change how the parser
/// reads on, and names in capital letters.
#[test]
fn short_patterns_with_raw_text_and_capital_letters() {
    let names = ["div", "script", "style", "title", "textarea", "select", "DIV", "p", "table"];
    let mut tags: Vec<String> = Vec::new();
    for name in names {
        tags.push(format!("<{}>", name));
        tags.push(format!("</{}>", name));
    }
    tags.push("<!--".to_string());
    tags.push("-->".to_string());
    let check = |pattern: &str| {
        let text = pattern.repeat(30);
        let bound = nesting(&text);
        let real = parsed_depth(&text);
        assert!(real <= 3 * bound + 4, "{} > 3 * {} + 4 for {:?}", real, bound, pattern);
    };
    for first in &tags {
        for second in &tags {
            check(&format!("{}{}", first, second));
            for third in &tags {
                check(&format!("{}{}{}", first, second, third));
            }
        }
    }
}

#[test]
fn a_text_with_few_start_tags_is_shallow_however_they_are_written() {
    let texts = vec![
        "<div".repeat(100),
        "<svg><b>".repeat(50),
        "<plaintext>".repeat(100),
        "<p x='<q>".repeat(50),
        format!("<!-- {}", "<i>".repeat(100)),
        "<SCRIPT><!--<a></b>".repeat(50),
        "<a></a></b><<>".repeat(100),
    ];
    for text in texts {
        assert!(nesting(&text) <= 100, "{}", &text[..20]);
        assert!(is_shallow(&text));
        assert!(convert_guarded(&text, vec!["script"]).is_some(), "{}", &text[..20]);
    }
}
