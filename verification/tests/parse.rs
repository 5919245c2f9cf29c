use xmlcore::doc::XmlDocument;
use xmlcore::entities::{decode_entities, parse_u32, push_codepoint};
use xmlcore::extras::c_string_bytes;
use xmlcore::parser::{node_name_bytes, parse_document_from_bytes, SimpleParser};
use xmlcore::tree::xmlElementType;

const ADDRESS: usize = 0x1000;

fn parse(text: &str) -> Result<XmlDocument, ()> {
    parse_document_from_bytes(ADDRESS, text.as_bytes(), 0, None, None)
}

#[test]
fn single_empty_element_parses_to_one_root() {
    let doc = parse("<a/>").expect("well formed");
    let record = doc.record();
    assert_eq!(record.children, Some(0));
    assert_eq!(record.last, Some(0));
    assert!(doc.node(1).is_none());
    let root = doc.node(0).expect("root");
    assert_eq!(root.type_, xmlElementType::ElementNode);
    assert_eq!(node_name_bytes(&doc, Some(0)), b"a".to_vec());
    assert_eq!(root.children, None);
    assert_eq!(root.last, None);
    assert_eq!(root.properties, None);
    assert_eq!(root.parent, None);
    assert_eq!(root.next, None);
    assert_eq!(root.prev, None);
    assert_eq!(root.doc, ADDRESS);
    assert!(doc.attribute(0).is_none());
}

#[test]
fn second_top_level_element_is_refused() {
    assert!(parse("<a/><b/>").is_err());
}

#[test]
fn mismatched_end_tag_is_refused() {
    assert!(parse("<a></b>").is_err());
}

#[test]
fn unbalanced_tags_are_refused() {
    assert!(parse("<a>").is_err());
    assert!(parse("</a>").is_err());
    assert!(parse("<a><b></a></b>").is_err());
    assert!(parse("").is_err());
    assert!(parse("   ").is_err());
}

#[test]
fn attribute_value_is_decoded() {
    let doc = parse("<a k=\"&lt;x&amp;y&gt;\"/>").expect("well formed");
    let root = doc.node(0).expect("root");
    let attr_slot = root.properties.expect("attribute");
    let attr = doc.attribute(attr_slot).expect("attribute record");
    assert_eq!(attr.parent, Some(0));
    assert_eq!(attr.next, None);
    assert_eq!(attr.prev, None);
    let name = doc.string(attr.name.expect("name")).expect("stored name");
    assert_eq!(name, b"k\0");
    let child = doc.node(attr.children.expect("value")).expect("text node");
    assert_eq!(attr.last, attr.children);
    assert_eq!(child.type_, xmlElementType::TextNode);
    assert_eq!(child.parent, None);
    let content = doc.string(child.content.expect("content")).expect("stored content");
    assert_eq!(c_string_bytes(content), b"<x&y>".to_vec());
}

#[test]
fn predefined_entities_decode() {
    assert_eq!(decode_entities(b"&lt;x&amp;y&gt;"), Ok(b"<x&y>".to_vec()));
    assert_eq!(decode_entities(b"&apos;&quot;"), Ok(b"'\"".to_vec()));
}

#[test]
fn numeric_references_decode_to_the_same_character() {
    assert_eq!(decode_entities(b"&#65;"), Ok(b"A".to_vec()));
    assert_eq!(decode_entities(b"&#x41;"), Ok(b"A".to_vec()));
    assert_eq!(decode_entities(b"&#X41;"), Ok(b"A".to_vec()));
    assert_eq!(decode_entities(b"&#x6a;&#x6A;"), Ok(b"jj".to_vec()));
}

#[test]
fn numeric_references_encode_as_utf8() {
    assert_eq!(decode_entities(b"&#xE9;"), Ok(vec![0xC3, 0xA9]));
    assert_eq!(decode_entities(b"&#x20AC;"), Ok(vec![0xE2, 0x82, 0xAC]));
    assert_eq!(decode_entities(b"&#x1F600;"), Ok(vec![0xF0, 0x9F, 0x98, 0x80]));
    assert_eq!(decode_entities(b"&#0;"), Ok(vec![0]));
}

#[test]
fn unknown_named_reference_is_kept() {
    assert_eq!(decode_entities(b"&foo;"), Ok(b"&foo;".to_vec()));
    assert_eq!(decode_entities(b"a&foo;b"), Ok(b"a&foo;b".to_vec()));
}

#[test]
fn bad_references_are_refused() {
    assert_eq!(decode_entities(b"&"), Err(()));
    assert_eq!(decode_entities(b"&lt"), Err(()));
    assert_eq!(decode_entities(b"&;"), Err(()));
    assert_eq!(decode_entities(b"&#;"), Err(()));
    assert_eq!(decode_entities(b"&#x;"), Err(()));
    assert_eq!(decode_entities(b"&#xD800;"), Err(()));
    assert_eq!(decode_entities(b"&#x110000;"), Err(()));
    assert_eq!(decode_entities(b"&#4294967296;"), Err(()));
    assert_eq!(decode_entities(b"&#12a;"), Err(()));
    assert_eq!(decode_entities(b"&#-1;"), Err(()));
}

#[test]
fn numbers_are_read_with_optional_plus() {
    assert_eq!(parse_u32(b"65", 10), Some(65));
    assert_eq!(parse_u32(b"+65", 10), Some(65));
    assert_eq!(parse_u32(b"0041", 16), Some(0x41));
    assert_eq!(parse_u32(b"ffffffff", 16), Some(u32::MAX));
    assert_eq!(parse_u32(b"4294967295", 10), Some(u32::MAX));
    assert_eq!(parse_u32(b"4294967296", 10), None);
    assert_eq!(parse_u32(b"", 10), None);
    assert_eq!(parse_u32(b"+", 10), None);
    assert_eq!(parse_u32(b"1f", 10), None);
}

#[test]
fn code_points_are_pushed_as_utf8() {
    let mut out = vec![b'x'];
    assert_eq!(push_codepoint(&mut out, 0x41), Ok(()));
    assert_eq!(out, b"xA".to_vec());
    assert_eq!(push_codepoint(&mut out, 0xDFFF), Err(()));
    assert_eq!(out, b"xA".to_vec());
    let mut all = Vec::new();
    for cp in [0x7Fu32, 0x80, 0x7FF, 0x800, 0xFFFF, 0x10000, 0x10FFFF] {
        let mut one = Vec::new();
        assert_eq!(push_codepoint(&mut one, cp), Ok(()));
        let mut buf = [0u8; 4];
        let expected = char::from_u32(cp).unwrap().encode_utf8(&mut buf).as_bytes().to_vec();
        assert_eq!(one, expected);
        all.extend(one);
    }
    assert_eq!(all.len(), 1 + 2 + 2 + 3 + 3 + 4 + 4);
}

#[test]
fn nested_elements_text_and_comments_are_linked() {
    let doc = parse("<?xml version=\"1.1\" encoding='latin1'?>\n<a x='1' y=\"\"> hi <b/><!-- c --><?pi data?>&amp;</a>\n")
        .expect("well formed");
    assert_eq!(doc.version(), b"1.1\0".to_vec());
    assert_eq!(doc.encoding(), b"latin1\0".to_vec());
    let record = doc.record();
    assert_eq!(record.children, record.last);
    let a = record.children.expect("root");
    let root = doc.node(a).expect("root record");
    assert_eq!(node_name_bytes(&doc, Some(a)), b"a".to_vec());
    // children of the root: text, element b, comment, text
    let mut kinds = Vec::new();
    let mut texts = Vec::new();
    let mut cursor = root.children;
    let mut previous = None;
    while let Some(slot) = cursor {
        let node = doc.node(slot).expect("child");
        assert_eq!(node.parent, Some(a));
        assert_eq!(node.prev, previous);
        kinds.push(node.type_);
        match node.content {
            Some(content) => texts.push(c_string_bytes(doc.string(content).unwrap())),
            None => texts.push(node_name_bytes(&doc, Some(slot))),
        }
        previous = Some(slot);
        cursor = node.next;
    }
    assert_eq!(root.last, previous);
    assert_eq!(
        kinds,
        vec![
            xmlElementType::TextNode,
            xmlElementType::ElementNode,
            xmlElementType::CommentNode,
            xmlElementType::TextNode
        ]
    );
    assert_eq!(texts, vec![b"hi ".to_vec(), b"b".to_vec(), b" c ".to_vec(), b"&".to_vec()]);
    // attributes of the root, in order
    let first = doc.attribute(root.properties.expect("x")).expect("x record");
    assert_eq!(doc.string(first.name.unwrap()).unwrap(), b"x\0");
    let second_slot = first.next.expect("y");
    let second = doc.attribute(second_slot).expect("y record");
    assert_eq!(doc.string(second.name.unwrap()).unwrap(), b"y\0");
    assert_eq!(second.prev, root.properties);
    assert_eq!(second.next, None);
    assert_eq!(second.children, None);
    assert!(first.children.is_some());
}

#[test]
fn byte_order_mark_is_dropped() {
    let mut bytes = vec![0xEF, 0xBB, 0xBF];
    bytes.extend_from_slice(b"<a/>");
    assert!(parse_document_from_bytes(ADDRESS, &bytes, 0, None, None).is_ok());
}

#[test]
fn malformed_constructs_are_refused() {
    assert!(parse("<a><!-- open</a>").is_err());
    assert!(parse("<a><?pi </a>").is_err());
    assert!(parse("<a b=c/>").is_err());
    assert!(parse("<a b=\"c/>").is_err());
    assert!(parse("<1a/>").is_err());
    assert!(parse("<a>&#xD800;</a>").is_err());
    assert!(parse("<!DOCTYPE a><a/>").is_err());
    assert!(parse("<a/ >").is_err());
    assert!(parse("<?xml version=1?><a/>").is_err());
}

#[test]
fn clear_then_parse_shows_nothing_of_the_prior_tree() {
    let mut doc = parse("<old k='v'><x/><y/>text</old>").expect("well formed");
    assert!(doc.node(3).is_some());
    doc.clear_tree();
    assert_eq!(doc.record().children, None);
    assert_eq!(doc.record().last, None);
    assert!(doc.node(0).is_none());
    assert!(doc.attribute(0).is_none());
    assert!(doc.string(0).is_none());
    assert_eq!(SimpleParser::parse_into(&mut doc, b"<new/>"), Ok(()));
    assert!(doc.node(1).is_none());
    assert_eq!(node_name_bytes(&doc, Some(0)), b"new".to_vec());
    let fresh = parse("<new/>").expect("well formed");
    assert_eq!(doc.record().children, fresh.record().children);
    assert_eq!(doc.record().last, fresh.record().last);
    assert_eq!(doc.string(0).unwrap(), fresh.string(0).unwrap());
    assert!(doc.string(1).is_none());
}

#[test]
fn top_level_comments_and_text_become_top_level_nodes() {
    let doc = parse("<!-- c --><a/>tail").expect("well formed");
    let record = doc.record();
    assert_eq!(record.children, Some(0));
    assert_eq!(record.last, Some(2));
    let comment = doc.node(0).unwrap();
    let root = doc.node(1).unwrap();
    let text = doc.node(2).unwrap();
    assert_eq!(comment.type_, xmlElementType::CommentNode);
    assert_eq!(root.type_, xmlElementType::ElementNode);
    assert_eq!(text.type_, xmlElementType::TextNode);
    assert_eq!((comment.next, root.prev, root.next, text.prev), (Some(1), Some(0), Some(2), Some(1)));
    assert_eq!((comment.parent, root.parent, text.parent), (None, None, None));
    assert_eq!(doc.string(text.content.unwrap()).unwrap(), b"tail\0");
}

#[test]
fn declarations_and_instructions_are_passed_over() {
    assert!(parse(" \n<?xml version=\"1.0\"?><a/>").is_ok());
    assert!(parse("<?pi?><a/>").is_ok());
    assert!(parse("<a><?pi some data ?></a>").is_ok());
    let doc = parse("<?xml standalone='yes' version='1.0' version='9'?><a/>").expect("well formed");
    assert_eq!(doc.version(), b"9\0".to_vec());
    assert_eq!(doc.encoding(), b"UTF-8\0".to_vec());
    assert!(doc.node(1).is_none());
    // whatever starts with `<?xml` is read as a declaration
    assert!(parse("<?xml-stylesheet href=\"x\"?><a/>").is_err());
    assert!(parse("<?xml version=\"1.0\"><a/>").is_err());
}

#[test]
fn end_tags_may_hold_white_space_before_the_bracket() {
    assert!(parse("<a></a  >").is_ok());
    assert!(parse("<a  k = 'v'  ></a\n>").is_ok());
    assert!(parse("<a></ a>").is_err());
    assert!(parse("< a/>").is_err());
    assert!(parse("<a:b-c.d_e/>").is_ok());
}
