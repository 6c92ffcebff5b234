use minidom_writer::{Element, ElementWriter, Node};

const DECLARATION: &str = r#"<?xml version="1.0" encoding="UTF-8"?>"#;

fn tag() -> Element {
    let subtag = Element::bare("subtag")
        .with_prefix("ns")
        .attr("id", "my_subtag")
        .append(Node::Text(String::from("Some text")));
    Element::bare("tag")
        .attr("id", "my_tag")
        .append(Node::Element(subtag))
}

fn from_minidom(source: &minidom::Element) -> Element {
    let mut element = Element::bare(source.name());
    if let Some(prefix) = source.prefix() {
        element = element.with_prefix(prefix);
    }
    for (key, value) in source.attrs() {
        element = element.attr(key, value);
    }
    for node in source.nodes() {
        element = element.append(match node {
            minidom::Node::Element(child) => Node::Element(from_minidom(child)),
            minidom::Node::Text(text) => Node::Text(text.clone()),
            minidom::Node::Comment(comment) => Node::Comment(comment.clone()),
        });
    }
    element
}

fn plain(element: &Element) -> String {
    let mut writer = ElementWriter::plain(Vec::new());
    writer.write(element).unwrap();
    String::from_utf8(writer.into_inner()).unwrap()
}

fn pretty(element: &Element) -> String {
    let mut writer = ElementWriter::pretty(Vec::new());
    writer.write(element).unwrap();
    String::from_utf8(writer.into_inner()).unwrap()
}

#[test]
fn write_xml() {
    let tag = tag();
    let write = Vec::new();
    let mut element_writer = ElementWriter::plain(write);
    element_writer.write(&tag).unwrap();
    let expected = r#"<?xml version="1.0" encoding="UTF-8"?><tag id="my_tag"><ns:subtag id="my_subtag">Some text</ns:subtag></tag>"#;
    assert_eq!(
        expected,
        String::from_utf8(element_writer.into_inner()).unwrap()
    );
}

#[test]
fn write_xml_with_indent() {
    let tag = tag();
    let write = Vec::new();
    let mut element_writer = ElementWriter::pretty(write);
    element_writer.write(&tag).unwrap();
    let expected = r#"<?xml version="1.0" encoding="UTF-8"?>
<tag id="my_tag">
	<ns:subtag id="my_subtag">Some text</ns:subtag>
</tag>"#;
    assert_eq!(
        expected,
        String::from_utf8(element_writer.into_inner()).unwrap()
    );
}

#[test]
fn tree_built_by_minidom_is_written_the_same() {
    let subtag = minidom::Element::builder("ns:subtag")
        .attr("id", "my_subtag")
        .append(minidom::Node::Text(String::from("Some text")))
        .build();
    let built = minidom::Element::builder("tag")
        .attr("id", "my_tag")
        .append(subtag)
        .append(minidom::Node::Comment(String::from("not written")))
        .build();
    let tree = from_minidom(&built);
    assert_eq!(
        plain(&tree),
        r#"<?xml version="1.0" encoding="UTF-8"?><tag id="my_tag"><ns:subtag id="my_subtag">Some text</ns:subtag></tag>"#
    );
    assert_eq!(plain(&tree), plain(&tag()));
    assert_eq!(pretty(&tree), pretty(&tag()));
}

#[test]
fn declaration_names_version_and_encoding_only() {
    let output = plain(&Element::bare("a"));
    assert_eq!(output, format!("{}<a></a>", DECLARATION));
    assert!(!output.contains("standalone"));
}

#[test]
fn element_without_children_has_both_tags() {
    let element = Element::bare("a");
    assert_eq!(plain(&element), format!("{}<a></a>", DECLARATION));
    assert_eq!(pretty(&element), format!("{}\n<a>\n</a>", DECLARATION));
}

#[test]
fn text_is_escaped() {
    let element =
        Element::bare("t").append(Node::Text(String::from("a < b & c > d \"e\" 'f'")));
    assert_eq!(
        plain(&element),
        format!(
            "{}<t>a &lt; b &amp; c &gt; d &quot;e&quot; &apos;f&apos;</t>",
            DECLARATION
        )
    );
}

#[test]
fn attribute_values_are_escaped() {
    let element = Element::bare("t").attr("title", "Bells & <whistles> \"'");
    assert_eq!(
        plain(&element),
        format!(
            "{}<t title=\"Bells &amp; &lt;whistles&gt; &quot;&apos;\"></t>",
            DECLARATION
        )
    );
}

#[test]
fn text_outside_ascii_is_written_as_utf8() {
    let element = Element::bare("gr\u{fc}\u{df}e")
        .attr("wert", "\u{e9}t\u{e9}")
        .append(Node::Text(String::from("\u{4f60}\u{597d} \u{1f600}")));
    let mut writer = ElementWriter::plain(Vec::new());
    writer.write(&element).unwrap();
    let expected = format!(
        "{}<gr\u{fc}\u{df}e wert=\"\u{e9}t\u{e9}\">\u{4f60}\u{597d} \u{1f600}</gr\u{fc}\u{df}e>",
        DECLARATION
    );
    assert_eq!(writer.into_inner(), expected.into_bytes());
}

#[test]
fn attributes_and_children_keep_their_order() {
    let element = Element::bare("e")
        .attr("a", "1")
        .attr("b", "2")
        .append(Node::Text(String::from("x")))
        .append(Node::Element(Element::bare("c")));
    assert_eq!(
        plain(&element),
        format!("{}<e a=\"1\" b=\"2\">x<c></c></e>", DECLARATION)
    );
    let reversed = Element::bare("e")
        .attr("b", "2")
        .attr("a", "1")
        .append(Node::Element(Element::bare("c")))
        .append(Node::Text(String::from("x")));
    assert_eq!(
        plain(&reversed),
        format!("{}<e b=\"2\" a=\"1\"><c></c>x</e>", DECLARATION)
    );
}

#[test]
fn attributes_with_the_same_key_are_all_written() {
    let element = Element::bare("e").attr("k", "1").attr("k", "2");
    assert_eq!(
        plain(&element),
        format!("{}<e k=\"1\" k=\"2\"></e>", DECLARATION)
    );
}

#[test]
fn prefix_is_shown_in_both_tags() {
    let prefixed = Element::bare("subtag").with_prefix("ns");
    assert_eq!(
        plain(&prefixed),
        format!("{}<ns:subtag></ns:subtag>", DECLARATION)
    );
    let bare = Element::bare("name");
    assert_eq!(plain(&bare), format!("{}<name></name>", DECLARATION));
}

#[test]
fn comments_leave_no_trace() {
    let with_comments = Element::bare("root")
        .append(Node::Comment(String::from("secret")))
        .append(Node::Text(String::from("x")))
        .append(Node::Element(
            Element::bare("child").append(Node::Comment(String::from("hidden"))),
        ))
        .append(Node::Comment(String::from("last words")));
    let without = Element::bare("root")
        .append(Node::Text(String::from("x")))
        .append(Node::Element(Element::bare("child")));
    let compact = plain(&with_comments);
    assert_eq!(
        compact,
        format!("{}<root>x<child></child></root>", DECLARATION)
    );
    assert_eq!(compact, plain(&without));
    let indented = pretty(&with_comments);
    assert_eq!(
        indented,
        format!("{}\n<root>x<child>\n\t</child>\n</root>", DECLARATION)
    );
    assert_eq!(indented, pretty(&without));
    for output in [compact, indented] {
        assert!(!output.contains("secret"));
        assert!(!output.contains("hidden"));
        assert!(!output.contains("last words"));
        assert!(!output.contains("<!--"));
    }
}

#[test]
fn each_level_is_indented_by_one_tab() {
    let tree = Element::bare("a").append(Node::Element(
        Element::bare("b").append(Node::Element(
            Element::bare("c").append(Node::Text(String::from("t"))),
        )),
    ));
    assert_eq!(
        pretty(&tree),
        format!(
            "{}\n<a>\n\t<b>\n\t\t<c>t</c>\n\t</b>\n</a>",
            DECLARATION
        )
    );
    assert_eq!(
        plain(&tree),
        format!("{}<a><b><c>t</c></b></a>", DECLARATION)
    );
}

#[test]
fn siblings_stand_at_the_same_depth() {
    let tree = Element::bare("todos")
        .append(Node::Element(
            Element::bare("todo").append(Node::Text(String::from("Write documentation"))),
        ))
        .append(Node::Element(
            Element::bare("todo").append(Node::Text(String::from("Release"))),
        ));
    assert_eq!(
        pretty(&tree),
        format!(
            "{}\n<todos>\n\t<todo>Write documentation</todo>\n\t<todo>Release</todo>\n</todos>",
            DECLARATION
        )
    );
}

#[test]
fn tag_after_text_stays_on_the_line() {
    let tree = Element::bare("p")
        .append(Node::Text(String::from("one ")))
        .append(Node::Element(
            Element::bare("b").append(Node::Text(String::from("two"))),
        ))
        .append(Node::Text(String::from(" three")));
    assert_eq!(
        pretty(&tree),
        format!("{}\n<p>one <b>two</b> three</p>", DECLARATION)
    );
}

#[test]
fn empty_text_still_keeps_the_next_tag_on_the_line() {
    let tree = Element::bare("p").append(Node::Text(String::new()));
    assert_eq!(pretty(&tree), format!("{}\n<p></p>", DECLARATION));
    assert_eq!(plain(&tree), format!("{}<p></p>", DECLARATION));
}

#[test]
fn same_tree_and_mode_give_the_same_bytes() {
    let tree = tag();
    assert_eq!(plain(&tree), plain(&tree));
    assert_eq!(pretty(&tree), pretty(&tree));
    assert_eq!(plain(&tag()), plain(&tree));
    assert_ne!(plain(&tree), pretty(&tree));
}

#[test]
fn second_document_follows_without_separator() {
    let tree = Element::bare("a");
    let mut compact = ElementWriter::plain(Vec::new());
    compact.write(&tree).unwrap();
    compact.write(&tree).unwrap();
    assert_eq!(
        String::from_utf8(compact.into_inner()).unwrap(),
        format!("{0}<a></a>{0}<a></a>", DECLARATION)
    );
    let mut indented = ElementWriter::pretty(Vec::new());
    indented.write(&tree).unwrap();
    indented.write(&tree).unwrap();
    assert_eq!(
        String::from_utf8(indented.into_inner()).unwrap(),
        format!("{0}\n<a>\n</a>{0}\n<a>\n</a>", DECLARATION)
    );
}

#[test]
fn sink_keeps_what_it_held() {
    let mut compact = ElementWriter::plain(b"held".to_vec());
    compact.write(&Element::bare("a")).unwrap();
    assert_eq!(
        String::from_utf8(compact.into_inner()).unwrap(),
        format!("held{}<a></a>", DECLARATION)
    );
    let mut indented = ElementWriter::pretty(b"held\n".to_vec());
    indented.write(&Element::bare("a")).unwrap();
    assert_eq!(
        String::from_utf8(indented.into_inner()).unwrap(),
        format!("held\n{}\n<a>\n</a>", DECLARATION)
    );
}

#[test]
fn into_inner_without_a_write_returns_the_sink() {
    assert_eq!(ElementWriter::plain(vec![1, 2, 3]).into_inner(), vec![1, 2, 3]);
    assert_eq!(ElementWriter::pretty(Vec::new()).into_inner(), Vec::<u8>::new());
}

#[test]
fn names_are_not_checked() {
    let element = Element::bare("not a name").attr("k y", "v");
    assert_eq!(
        plain(&element),
        format!("{}<not a name k y=\"v\"></not a name>", DECLARATION)
    );
}

#[test]
fn parsing_the_document_gives_the_tree_back() {
    for output in [plain(&tag()), pretty(&tag())] {
        let parsed: minidom::Element = output.parse().unwrap();
        assert_eq!(parsed.name(), "tag");
        assert_eq!(parsed.prefix(), None);
        assert_eq!(parsed.attrs().collect::<Vec<_>>(), vec![("id", "my_tag")]);
        let children: Vec<&minidom::Element> = parsed.children().collect();
        assert_eq!(children.len(), 1);
        assert_eq!(children[0].name(), "subtag");
        assert_eq!(children[0].prefix(), Some("ns"));
        assert_eq!(
            children[0].attrs().collect::<Vec<_>>(),
            vec![("id", "my_subtag")]
        );
        let nodes: Vec<&minidom::Node> = children[0].nodes().collect();
        assert_eq!(nodes.len(), 1);
        assert_eq!(nodes[0].as_text(), Some("Some text"));
    }
}

#[test]
fn parsing_gives_escaped_text_back() {
    let element = Element::bare("t")
        .attr("v", "<&>\"'")
        .append(Node::Text(String::from("a < b & c > d \"e\" 'f'")));
    let parsed: minidom::Element = plain(&element).parse().unwrap();
    assert_eq!(parsed.attr("v"), Some("<&>\"'"));
    assert_eq!(parsed.text(), "a < b & c > d \"e\" 'f'");
}
