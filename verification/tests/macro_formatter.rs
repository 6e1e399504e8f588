use confluence_markdown::markdown::confluence::macros::process_macro;

#[test]
fn code_blocks() {
    assert_eq!(
        process_macro("<ac:structured-macro ac:name=\"code\"><ac:parameter ac:name=\"language\">rust</ac:parameter><ac:plain-text-body><![CDATA[fn main() {}]]></ac:plain-text-body></ac:structured-macro>"),
        "```rust\nfn main() {}\n```"
    );
    assert_eq!(
        process_macro("<ac:structured-macro ac:name=\"code\"><ac:plain-text-body>  x  </ac:plain-text-body></ac:structured-macro>"),
        "```\nx\n```"
    );
    assert_eq!(
        process_macro("<ac:structured-macro ac:name=\"noformat\"><ac:parameter ac:name=\"title\">Log</ac:parameter><ac:parameter ac:name=\"language\">text</ac:parameter><ac:plain-text-body>line</ac:plain-text-body></ac:structured-macro>"),
        "**Log**\n```text\nline\n```"
    );
    assert_eq!(
        process_macro("<ac:structured-macro ac:name=\"code\"><ac:parameter ac:name=\"title\">T</ac:parameter></ac:structured-macro>"),
        "**T**\n```\n\n```"
    );
    assert_eq!(
        process_macro("<ac:structured-macro ac:name=\"code\"><ac:rich-text-body>rich</ac:rich-text-body><ac:plain-text-body>plain</ac:plain-text-body></ac:structured-macro>"),
        "```\nrich\n```"
    );
}

#[test]
fn panels() {
    assert_eq!(
        process_macro("<ac:structured-macro ac:name=\"info\"><ac:rich-text-body>i</ac:rich-text-body></ac:structured-macro>"),
        "> **INFO**: i"
    );
    assert_eq!(
        process_macro("<ac:structured-macro ac:name=\"note\"><ac:rich-text-body>n</ac:rich-text-body></ac:structured-macro>"),
        "> **NOTE**: n"
    );
    assert_eq!(
        process_macro("<ac:structured-macro ac:name=\"warning\"><ac:rich-text-body>w</ac:rich-text-body></ac:structured-macro>"),
        "> **WARNING**: w"
    );
    assert_eq!(
        process_macro("<ac:structured-macro ac:name=\"tip\"><ac:rich-text-body>t</ac:rich-text-body></ac:structured-macro>"),
        "> **TIP**: t"
    );
    assert_eq!(
        process_macro("<ac:structured-macro ac:name=\"error\"><ac:rich-text-body>e</ac:rich-text-body></ac:structured-macro>"),
        "> **ERROR**: e"
    );
    assert_eq!(
        process_macro("<ac:structured-macro ac:name=\"note\"><ac:parameter ac:name=\"title\">Mind</ac:parameter><ac:rich-text-body> text </ac:rich-text-body></ac:structured-macro>"),
        "> **NOTE - Mind**: text"
    );
    assert_eq!(
        process_macro("<ac:structured-macro ac:name=\"info\"></ac:structured-macro>"),
        "> **INFO**: "
    );
}

#[test]
fn table_of_contents_is_dropped() {
    assert_eq!(
        process_macro("<ac:structured-macro ac:name=\"toc\"><ac:parameter ac:name=\"maxLevel\">2</ac:parameter></ac:structured-macro>"),
        ""
    );
    assert_eq!(process_macro("<ac:structured-macro ac:name=\"toc\"/>"), "");
}

#[test]
fn expand_sections() {
    assert_eq!(
        process_macro("<ac:structured-macro ac:name=\"expand\"><ac:parameter ac:name=\"title\">More</ac:parameter><ac:rich-text-body><p>inside</p></ac:rich-text-body></ac:structured-macro>"),
        "**More**\n\n<p>inside</p>"
    );
    assert_eq!(
        process_macro("<ac:structured-macro ac:name=\"expand\"><ac:rich-text-body>inside</ac:rich-text-body></ac:structured-macro>"),
        "**Details**\n\ninside"
    );
    assert_eq!(
        process_macro("<ac:structured-macro ac:name=\"expand\"><ac:parameter ac:name=\"title\">Empty</ac:parameter><ac:rich-text-body>  </ac:rich-text-body></ac:structured-macro>"),
        "**Empty**"
    );
    assert_eq!(
        process_macro("<ac:structured-macro ac:name=\"expand\"></ac:structured-macro>"),
        "**Details**"
    );
}

#[test]
fn anchors() {
    assert_eq!(
        process_macro("<ac:structured-macro ac:name=\"anchor\"><ac:parameter ac:name=\"\">here</ac:parameter></ac:structured-macro>"),
        "<a id=\"here\"></a>"
    );
    assert_eq!(
        process_macro("<ac:structured-macro ac:name=\"anchor\"><ac:parameter ac:name=\"name\">there</ac:parameter></ac:structured-macro>"),
        "<a id=\"there\"></a>"
    );
    assert_eq!(process_macro("<ac:structured-macro ac:name=\"anchor\"></ac:structured-macro>"), "");
}

#[test]
fn issue_references() {
    assert_eq!(
        process_macro("<ac:structured-macro ac:name=\"jira\"><ac:parameter ac:name=\"key\">P-1</ac:parameter><ac:parameter ac:name=\"server\">https://j</ac:parameter></ac:structured-macro>"),
        "[P-1](https://j)"
    );
    assert_eq!(
        process_macro("<ac:structured-macro ac:name=\"jira\"><ac:parameter ac:name=\"key\">P-1</ac:parameter><ac:parameter ac:name=\"serverId\">abc</ac:parameter></ac:structured-macro>"),
        "[P-1](abc)"
    );
    assert_eq!(
        process_macro("<ac:structured-macro ac:name=\"jira\"><ac:parameter ac:name=\"server\">s</ac:parameter><ac:parameter ac:name=\"serverId\">abc</ac:parameter></ac:structured-macro>"),
        "[JIRA](s)"
    );
    assert_eq!(
        process_macro("<ac:structured-macro ac:name=\"jira\"></ac:structured-macro>"),
        "[JIRA: JIRA]"
    );
}

#[test]
fn status_lozenges() {
    assert_eq!(
        process_macro("<ac:structured-macro ac:name=\"status\"><ac:parameter ac:name=\"title\">Done</ac:parameter><ac:parameter ac:name=\"colour\">Green</ac:parameter></ac:structured-macro>"),
        "[OK] DONE"
    );
    assert_eq!(
        process_macro("<ac:structured-macro ac:name=\"status\"><ac:parameter ac:name=\"title\">wait</ac:parameter><ac:parameter ac:name=\"colour\">YELLOW</ac:parameter></ac:structured-macro>"),
        "[WARN] WAIT"
    );
    assert_eq!(
        process_macro("<ac:structured-macro ac:name=\"status\"><ac:parameter ac:name=\"title\">bad</ac:parameter><ac:parameter ac:name=\"color\">red</ac:parameter></ac:structured-macro>"),
        "[ERR] BAD"
    );
    assert_eq!(
        process_macro("<ac:structured-macro ac:name=\"status\"><ac:parameter ac:name=\"title\">fyi</ac:parameter><ac:parameter ac:name=\"colour\">Blue</ac:parameter></ac:structured-macro>"),
        "[INFO] FYI"
    );
    assert_eq!(
        process_macro("<ac:structured-macro ac:name=\"status\"><ac:parameter ac:name=\"title\">hm</ac:parameter><ac:parameter ac:name=\"colour\">Purple</ac:parameter></ac:structured-macro>"),
        "[STATUS] HM"
    );
    assert_eq!(
        process_macro("<ac:structured-macro ac:name=\"status\"><ac:parameter ac:name=\"colour\">Green</ac:parameter></ac:structured-macro>"),
        "[OK] STATUS"
    );
    assert_eq!(
        process_macro("<ac:structured-macro ac:name=\"status\"></ac:structured-macro>"),
        "[STATUS] STATUS"
    );
    assert_eq!(
        process_macro("<ac:structured-macro ac:name=\"status\"><ac:parameter ac:name=\"color\">red</ac:parameter><ac:parameter ac:name=\"colour\">green</ac:parameter><ac:parameter ac:name=\"title\">x y</ac:parameter></ac:structured-macro>"),
        "[OK] X Y"
    );
}

#[test]
fn diagram_references() {
    assert_eq!(
        process_macro("<ac:structured-macro ac:name=\"drawio\"><ac:parameter ac:name=\"diagramName\">arch</ac:parameter><ac:parameter ac:name=\"diagramDisplayName\">Architecture</ac:parameter></ac:structured-macro>"),
        "[Draw.io: arch]"
    );
    assert_eq!(
        process_macro("<ac:structured-macro ac:name=\"drawio\"><ac:parameter ac:name=\"diagramDisplayName\">Architecture</ac:parameter></ac:structured-macro>"),
        "[Draw.io: Architecture]"
    );
    assert_eq!(
        process_macro("<ac:structured-macro ac:name=\"drawio\"></ac:structured-macro>"),
        "[Draw.io: diagram]"
    );
    assert_eq!(
        process_macro("<ac:structured-macro ac:name=\"gliffy\"><ac:parameter ac:name=\"name\">g</ac:parameter></ac:structured-macro>"),
        "[Gliffy: g]"
    );
    assert_eq!(
        process_macro("<ac:structured-macro ac:name=\"gliffy\"><ac:parameter ac:name=\"displayName\">G</ac:parameter></ac:structured-macro>"),
        "[Gliffy: G]"
    );
    assert_eq!(
        process_macro("<ac:structured-macro ac:name=\"gliffy\"></ac:structured-macro>"),
        "[Gliffy: diagram]"
    );
    assert_eq!(
        process_macro("<ac:structured-macro ac:name=\"lucidchart\"><ac:parameter ac:name=\"documentId\">abc-1</ac:parameter></ac:structured-macro>"),
        "[Lucidchart](https://lucid.app/documents/view/abc-1)"
    );
    assert_eq!(
        process_macro("<ac:structured-macro ac:name=\"lucidchart\"></ac:structured-macro>"),
        "[Lucidchart]"
    );
    assert_eq!(
        process_macro("<ac:structured-macro ac:name=\"miro\"><ac:parameter ac:name=\"boardId\">b1</ac:parameter></ac:structured-macro>"),
        "[Miro](https://miro.com/app/board/b1)"
    );
    assert_eq!(
        process_macro("<ac:structured-macro ac:name=\"miro\"></ac:structured-macro>"),
        "[Miro Board]"
    );
    assert_eq!(
        process_macro("<ac:structured-macro ac:name=\"plantuml\"><ac:plain-text-body><![CDATA[\nA -> B\n]]></ac:plain-text-body></ac:structured-macro>"),
        "```plantuml\nA -> B\n```"
    );
    assert_eq!(
        process_macro("<ac:structured-macro ac:name=\"plantuml\"></ac:structured-macro>"),
        "[PlantUML Diagram]"
    );
}

#[test]
fn page_listings() {
    assert_eq!(
        process_macro("<ac:structured-macro ac:name=\"children\"><ac:parameter ac:name=\"depth\">3</ac:parameter></ac:structured-macro>"),
        "[Child Pages (depth: 3)]"
    );
    assert_eq!(
        process_macro("<ac:structured-macro ac:name=\"children\"></ac:structured-macro>"),
        "[Child Pages (depth: 1)]"
    );
    assert_eq!(
        process_macro("<ac:structured-macro ac:name=\"pagetree\"><ac:parameter ac:name=\"root\">x</ac:parameter></ac:structured-macro>"),
        "[Page Tree]"
    );
    assert_eq!(
        process_macro("<ac:structured-macro ac:name=\"recently-updated\"></ac:structured-macro>"),
        "[Recently Updated]"
    );
}

#[test]
fn embedded_content() {
    assert_eq!(
        process_macro("<ac:structured-macro ac:name=\"widget\"><ac:parameter ac:name=\"url\">https://v</ac:parameter><ac:parameter ac:name=\"src\">s</ac:parameter></ac:structured-macro>"),
        "[Embed: https://v]"
    );
    assert_eq!(
        process_macro("<ac:structured-macro ac:name=\"iframe\"><ac:parameter ac:name=\"src\">https://f</ac:parameter></ac:structured-macro>"),
        "[Embed: https://f]"
    );
    assert_eq!(
        process_macro("<ac:structured-macro ac:name=\"html\"><ac:parameter ac:name=\"name\">n</ac:parameter></ac:structured-macro>"),
        "[Embed: n]"
    );
    assert_eq!(
        process_macro("<ac:structured-macro ac:name=\"widget\"></ac:structured-macro>"),
        "[Embedded Content]"
    );
}

#[test]
fn unknown_macros() {
    assert_eq!(
        process_macro("<ac:structured-macro ac:name=\"custom\"><ac:rich-text-body>long body</ac:rich-text-body></ac:structured-macro>"),
        "long body"
    );
    assert_eq!(
        process_macro("<ac:structured-macro ac:name=\"custom\"><ac:rich-text-body> abc </ac:rich-text-body></ac:structured-macro>"),
        "[Macro: custom]"
    );
    assert_eq!(
        process_macro("<ac:structured-macro ac:name=\"custom\"><ac:rich-text-body>abcd</ac:rich-text-body></ac:structured-macro>"),
        "abcd"
    );
    assert_eq!(
        process_macro("<ac:structured-macro ac:name=\"custom\"></ac:structured-macro>"),
        "[Macro: custom]"
    );
    assert_eq!(
        process_macro("<ac:structured-macro ac:name=\"custom\"><ac:parameter ac:name=\"title\">T</ac:parameter><ac:parameter ac:name=\"other\">o</ac:parameter></ac:structured-macro>"),
        "[Macro: custom (title=T)]"
    );
    assert_eq!(
        process_macro("<ac:structured-macro ac:name=\"custom\"><ac:parameter ac:name=\"url\">u</ac:parameter><ac:parameter ac:name=\"key\">k</ac:parameter><ac:parameter ac:name=\"name\">n</ac:parameter><ac:parameter ac:name=\"title\">t</ac:parameter></ac:structured-macro>"),
        "[Macro: custom (title=t, name=n, key=k, url=u)]"
    );
    assert_eq!(
        process_macro("<ac:structured-macro ac:name=\"Code\"><ac:plain-text-body>x</ac:plain-text-body></ac:structured-macro>"),
        "[Macro: Code]"
    );
    assert_eq!(
        process_macro("<ac:structured-macro ac:name=\"\"><ac:rich-text-body>anonymous body</ac:rich-text-body></ac:structured-macro>"),
        "anonymous body"
    );
    assert_eq!(
        process_macro("<ac:structured-macro><ac:parameter ac:name=\"name\">n</ac:parameter></ac:structured-macro>"),
        "[Macro: name (name=n)]"
    );
    assert_eq!(
        process_macro("<ac:structured-macro ac:name=\"custom\"><ac:rich-text-body>\u{65e5}\u{672c}\u{8a9e}</ac:rich-text-body></ac:structured-macro>"),
        "[Macro: custom]"
    );
    assert_eq!(
        process_macro("<ac:structured-macro ac:name=\"custom\"><ac:rich-text-body>\u{65e5}\u{672c}\u{8a9e}\u{3067}</ac:rich-text-body></ac:structured-macro>"),
        "\u{65e5}\u{672c}\u{8a9e}\u{3067}"
    );
}

#[test]
fn the_last_value_of_a_parameter_stands() {
    assert_eq!(
        process_macro("<ac:structured-macro ac:name=\"jira\"><ac:parameter ac:name=\"key\">A-1</ac:parameter><ac:parameter ac:name=\"key\">A-2</ac:parameter></ac:structured-macro>"),
        "[JIRA: A-2]"
    );
    assert_eq!(
        process_macro("<ac:structured-macro ac:name=\"custom\"><ac:parameter ac:name=\"name\">first</ac:parameter><ac:parameter ac:name=\"title\">t</ac:parameter><ac:parameter ac:name=\"name\">second</ac:parameter></ac:structured-macro>"),
        "[Macro: custom (title=t, name=second)]"
    );
}

#[test]
fn parameters_are_read_loosely() {
    assert_eq!(
        process_macro("<ac:structured-macro ac:name=\"jira\"><ac:parameter ac:name=\"key\"> spaced </ac:parameter></ac:structured-macro>"),
        "[JIRA: spaced]"
    );
    assert_eq!(
        process_macro("<ac:structured-macro ac:name=\"jira\"><ac:parameter ac:name=\"key\" ac:x=\"1\">K</ac:parameter></ac:structured-macro>"),
        "[JIRA: K]"
    );
    assert_eq!(
        process_macro("<ac:structured-macro ac:name=\"jira\"><ac:parameter ac:name=\"key\">K"),
        "[JIRA: JIRA]"
    );
    assert_eq!(
        process_macro("<ac:structured-macro ac:name=\"jira\"><ac:parameter ac:name=\"\">K</ac:parameter><ac:parameter ac:name=\"key\">L</ac:parameter></ac:structured-macro>"),
        "[JIRA: L]"
    );
    assert_eq!(
        process_macro("<ac:structured-macro ac:name=\"children\"><ac:parameter ac:name=\"all\" /><ac:parameter ac:name=\"depth\">2</ac:parameter></ac:structured-macro>"),
        "[Child Pages (depth: 1)]"
    );
    assert_eq!(
        process_macro("<ac:structured-macro ac:name=\"jira\"><ac:parameter ac:name=\"key"),
        "[JIRA: JIRA]"
    );
}

#[test]
fn the_name_is_the_first_name_attribute() {
    assert_eq!(
        process_macro("<ac:parameter ac:name=\"pagetree\">x</ac:parameter><ac:structured-macro ac:name=\"toc\">"),
        "[Page Tree]"
    );
    assert_eq!(process_macro("no name at all"), "[Macro: ]");
    assert_eq!(process_macro("ac:name=\"pagetree"), "[Macro: ]");
}

#[test]
fn residue_is_cleaned_out_of_bodies() {
    assert_eq!(
        process_macro("<ac:structured-macro ac:name=\"info\"><ac:rich-text-body>a BBBBBBBBBBBBBBBBBBBBBBBBBBBBBBBBBBBBBBBBBBBBBBBBBBBBBBBBBBBBBBBBBBBBBBBBBBBBBBBBBBBBBBBBBBBBBBBBBBBBBBBBBBBBBBBBBBBBBBBBBBBBBBBBBBBBBBBBBBBBBBBBBBBBBBBBBBBBBBBBBBBBBBBBBBBBBBBBBBBBBBBBBBBBBBBBBBBBBBBBBBBBBBBBBBBBBBBBBBBBBBBBBBBBBBBBBBBBBBBBBBBBBBBBBBBBBBBBBBBBBBBBBBBBBBBBBBBBBBBBBBBBBBBBBBBBBBBBBBBBBBBBBBBBBBBBBBBBBBBBBBBBBBBBBBBBBBBBBBBBBBBBBBBBBBBBBBBBBBBBBBBBBBBBBBBBBBBBBBBBBBBBBBBBBBBBBBBBBBBBBBBBBBBBBBBBBBBBBBBBBBBBBBBBBBBBBBBBBBBBBBBBBBBBBBBBBBBBBBBBBBBBBBBBBBBBBBBBBBBBBBBBBBBBBBBBBBBBBBBBB c</ac:rich-text-body></ac:structured-macro>"),
        "> **INFO**: a  c"
    );
    assert_eq!(
        process_macro("<ac:structured-macro ac:name=\"info\"><ac:rich-text-body>a BBBBBBBBBBBBBBBBBBBBBBBBBBBBBBBBBBBBBBBBBBBBBBBBBBBBBBBBBBBBBBBBBBBBBBBBBBBBBBBBBBBBBBBBBBBBBBBBBBBBBBBBBBBBBBBBBBBBBBBBBBBBBBBBBBBBBBBBBBBBBBBBBBBBBBBBBBBBBBBBBBBBBBBBBBBBBBBBBBBBBBBBBBBBBBBBBBBBBBBBBBBBBBBBBBBBBBBBBBBBBBBBBBBBBBBBBBBBBBBBBBBBBBBBBBBBBBBBBBBBBBBBBBBBBBBBBBBBBBBBBBBBBBBBBBBBBBBBBBBBBBBBBBBBBBBBBBBBBBBBBBBBBBBBBBBBBBBBBBBBBBBBBBBBBBBBBBBBBBBBBBBBBBBBBBBBBBBBBBBBBBBBBBBBBBBBBBBBBBBBBBBBBBBBBBBBBBBBBBBBBBBBBBBBBBBBBBBBBBBBBBBBBBBBBBBBBBBBBBBBBBBBBBBBBBBBBBBBBBBBBBBBBBBBBBBBBBBBBBBB c</ac:rich-text-body></ac:structured-macro>"),
        "> **INFO**: a BBBBBBBBBBBBBBBBBBBBBBBBBBBBBBBBBBBBBBBBBBBBBBBBBBBBBBBBBBBBBBBBBBBBBBBBBBBBBBBBBBBBBBBBBBBBBBBBBBBBBBBBBBBBBBBBBBBBBBBBBBBBBBBBBBBBBBBBBBBBBBBBBBBBBBBBBBBBBBBBBBBBBBBBBBBBBBBBBBBBBBBBBBBBBBBBBBBBBBBBBBBBBBBBBBBBBBBBBBBBBBBBBBBBBBBBBBBBBBBBBBBBBBBBBBBBBBBBBBBBBBBBBBBBBBBBBBBBBBBBBBBBBBBBBBBBBBBBBBBBBBBBBBBBBBBBBBBBBBBBBBBBBBBBBBBBBBBBBBBBBBBBBBBBBBBBBBBBBBBBBBBBBBBBBBBBBBBBBBBBBBBBBBBBBBBBBBBBBBBBBBBBBBBBBBBBBBBBBBBBBBBBBBBBBBBBBBBBBBBBBBBBBBBBBBBBBBBBBBBBBBBBBBBBBBBBBBBBBBBBBBBBBBBBBBBBBBBBBBBB c"
    );
    assert_eq!(
        process_macro("<ac:structured-macro ac:name=\"code\"><ac:plain-text-body>x <mxGraphModel><root/></mxGraphModel> y</ac:plain-text-body></ac:structured-macro>"),
        "```\nx  y\n```"
    );
}
