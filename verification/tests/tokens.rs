use wataxrate::{scan, XmlToken};

fn start(prefix: &str, local: &str) -> XmlToken {
    XmlToken::ElementStart(prefix.to_string(), local.to_string())
}

fn attr(prefix: &str, local: &str, value: &str) -> XmlToken {
    XmlToken::Attribute(prefix.to_string(), local.to_string(), value.to_string())
}

#[test]
fn an_empty_element_is_a_start_and_an_end() {
    assert_eq!(scan("<response/>"), vec![start("", "response"), XmlToken::EmptyEnd]);
}

#[test]
fn attributes_come_with_prefix_name_and_value() {
    assert_eq!(
        scan(r#"<r:response loccode="1726" x:rate = '0.101' debughint="a &amp; b"/>"#),
        vec![
            start("r", "response"),
            attr("", "loccode", "1726"),
            attr("x", "rate", "0.101"),
            attr("", "debughint", "a &amp; b"),
            XmlToken::EmptyEnd,
        ]
    );
}

#[test]
fn content_is_told_apart_by_kind() {
    assert_eq!(
        scan("<?xml version=\"1.0\"?>\n<!-- c --><a><b>text</b><![CDATA[x]]><?pi?><c/></a>\n<!-- d -->"),
        vec![
            XmlToken::Other,
            XmlToken::Other,
            start("", "a"),
            XmlToken::HeadEnd,
            start("", "b"),
            XmlToken::HeadEnd,
            XmlToken::Other,
            XmlToken::ElementClose,
            XmlToken::Other,
            XmlToken::Other,
            start("", "c"),
            XmlToken::EmptyEnd,
            XmlToken::ElementClose,
            XmlToken::Other,
        ]
    );
}

#[test]
fn nothing_follows_the_place_where_a_document_breaks() {
    assert_eq!(scan(""), vec![]);
    assert_eq!(scan(" \n "), vec![]);
    assert_eq!(scan("plain words"), vec![XmlToken::Invalid]);
    assert_eq!(
        scan(r#"<a b="1" c=2><d/></a>"#),
        vec![start("", "a"), attr("", "b", "1"), XmlToken::Invalid]
    );
    assert_eq!(scan("<a"), vec![start("", "a")]);
    assert_eq!(
        scan("<a/><b/>"),
        vec![start("", "a"), XmlToken::EmptyEnd, XmlToken::Invalid]
    );
}
