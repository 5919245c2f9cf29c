use xmlcore::doc::XmlDocument;
use xmlcore::grammar::{is_name_char, is_name_start, is_whitespace, strip_utf8_bom};
use xmlcore::registry::{register_extras, take_extras, HandleRegistry};
use xmlcore::tree::{xmlAttributeType, xmlElementType, xmlNode};

const ADDRESS: usize = 0x4000;

fn empty() -> XmlDocument {
    XmlDocument::new(ADDRESS, 0, None, None)
}

#[test]
fn kinds_have_their_layout_numbers() {
    assert_eq!(xmlElementType::ElementNode.code(), 1);
    assert_eq!(xmlElementType::TextNode.code(), 3);
    assert_eq!(xmlElementType::PiNode.code(), 7);
    assert_eq!(xmlElementType::CommentNode.code(), 8);
    assert_eq!(xmlElementType::DocumentNode.code(), 9);
    assert_eq!(xmlElementType::NamespaceDecl.code(), 18);
    assert_eq!(xmlElementType::XincludeEnd.code(), 20);
    for code in 1..=20 {
        assert_eq!(xmlElementType::from_code(code).unwrap().code(), code);
    }
    assert_eq!(xmlElementType::from_code(0), None);
    assert_eq!(xmlElementType::from_code(21), None);
    assert_eq!(xmlAttributeType::AttributeCdata.code(), 1);
    assert_eq!(xmlAttributeType::AttributeNotation.code(), 10);
    for code in 1..=10 {
        assert_eq!(xmlAttributeType::from_code(code).unwrap().code(), code);
    }
    assert_eq!(xmlAttributeType::from_code(11), None);
}

#[test]
fn a_new_document_is_empty() {
    let doc = XmlDocument::with_version(ADDRESS, Some(b"1.1\0rest"));
    let record = doc.record();
    assert_eq!(record.type_, xmlElementType::DocumentNode);
    assert_eq!(record.doc, ADDRESS);
    assert_eq!(record.children, None);
    assert_eq!(record.last, None);
    assert_eq!(record.standalone, 1);
    assert_eq!(record.compression, 0);
    assert_eq!(record.parseFlags, 0);
    assert_eq!(doc.as_ptr(), ADDRESS);
    assert_eq!(doc.version(), b"1.1\0".to_vec());
    assert_eq!(doc.encoding(), b"UTF-8\0".to_vec());
    assert!(doc.node(0).is_none());
}

#[test]
fn children_are_spliced_onto_the_tail() {
    let mut doc = empty();
    let parent = doc.alloc_element(b"p");
    let a = doc.alloc_element(b"a");
    let b = doc.alloc_text_node(b"b", xmlElementType::TextNode);
    let c = doc.alloc_processing_instruction(b"target", b"");
    let d = doc.alloc_processing_instruction(b"target", b"data");
    assert_eq!((parent, a, b, c, d), (0, 1, 2, 3, 4));
    doc.attach_child(None, parent);
    // out of allocation order on purpose
    doc.attach_child(Some(parent), b);
    doc.attach_child(Some(parent), a);
    doc.attach_child(Some(parent), d);
    doc.attach_child(None, c);
    let record = doc.record();
    assert_eq!(record.children, Some(parent));
    assert_eq!(record.last, Some(c));
    let p = doc.node(parent).unwrap();
    assert_eq!((p.children, p.last, p.next, p.prev, p.parent), (Some(b), Some(d), Some(c), None, None));
    let nb = doc.node(b).unwrap();
    assert_eq!((nb.prev, nb.next, nb.parent), (None, Some(a), Some(parent)));
    let na = doc.node(a).unwrap();
    assert_eq!((na.prev, na.next, na.parent), (Some(b), Some(d), Some(parent)));
    let nd = doc.node(d).unwrap();
    assert_eq!((nd.prev, nd.next, nd.parent), (Some(a), None, Some(parent)));
    let nc = doc.node(c).unwrap();
    assert_eq!((nc.prev, nc.next, nc.parent), (Some(parent), None, None));
    assert_eq!(nc.type_, xmlElementType::PiNode);
    assert_eq!(nc.content, None);
    assert_eq!(doc.string(nd.content.unwrap()).unwrap(), b"data\0");
    assert_eq!(doc.string(nd.name.unwrap()).unwrap(), b"target\0");
}

#[test]
fn a_stale_tail_is_found_by_walking_the_list() {
    let mut doc = empty();
    let parent = doc.alloc_element(b"p");
    let a = doc.alloc_element(b"a");
    let b = doc.alloc_element(b"b");
    let c = doc.alloc_element(b"c");
    doc.attach_child(Some(parent), a);
    doc.attach_child(Some(parent), b);
    let mut stale: xmlNode = doc.node(parent).unwrap();
    stale.last = None;
    doc.set_node(parent, stale);
    doc.attach_child(Some(parent), c);
    let p = doc.node(parent).unwrap();
    assert_eq!((p.children, p.last), (Some(a), Some(c)));
    assert_eq!(doc.node(b).unwrap().next, Some(c));
    assert_eq!(doc.node(c).unwrap().prev, Some(b));
}

#[test]
fn attributes_and_namespaces_are_appended() {
    let mut doc = empty();
    let element = doc.alloc_element(b"e");
    let first = doc.alloc_attribute(b"first");
    let second = doc.alloc_attribute(b"second");
    let third = doc.alloc_attribute(b"third");
    doc.append_attribute(element, first);
    doc.append_attribute(element, second);
    doc.append_attribute(element, third);
    assert_eq!(doc.node(element).unwrap().properties, Some(first));
    let f = doc.attribute(first).unwrap();
    let s = doc.attribute(second).unwrap();
    let t = doc.attribute(third).unwrap();
    assert_eq!((f.prev, f.next, f.parent), (None, Some(second), Some(element)));
    assert_eq!((s.prev, s.next, s.parent), (Some(first), Some(third), Some(element)));
    assert_eq!((t.prev, t.next, t.parent), (Some(second), None, Some(element)));
    assert_eq!(t.type_, xmlElementType::AttributeNode);
    assert_eq!(t.atype, xmlAttributeType::AttributeCdata);
    assert_eq!(t.doc, ADDRESS);

    let plain = doc.alloc_namespace(Some(b"urn:x"), Some(b"x"));
    let bare = doc.alloc_namespace(Some(b""), None);
    let n = doc.namespace(plain).unwrap();
    assert_eq!(doc.string(n.href.unwrap()).unwrap(), b"urn:x\0");
    assert_eq!(doc.string(n.prefix.unwrap()).unwrap(), b"x\0");
    assert_eq!(n.type_, xmlElementType::NamespaceDecl);
    assert_eq!(n.context, ADDRESS);
    let m = doc.namespace(bare).unwrap();
    assert_eq!((m.href, m.prefix), (None, None));
    doc.append_namespace(Some(element), Some(plain));
    doc.append_namespace(Some(element), Some(bare));
    doc.append_namespace(None, Some(bare));
    doc.append_namespace(Some(element), None);
    assert_eq!(doc.node(element).unwrap().nsDef, Some(plain));
    assert_eq!(doc.namespace(plain).unwrap().next, Some(bare));
    assert_eq!(doc.namespace(bare).unwrap().next, None);

    doc.set_node_namespace(Some(element), Some(plain));
    assert_eq!(doc.node(element).unwrap().ns, Some(plain));
    doc.set_node_namespace(None, Some(bare));
    doc.set_node_namespace(Some(element), None);
    assert_eq!(doc.node(element).unwrap().ns, None);
}

#[test]
fn the_xml_namespace_is_created_once() {
    let mut doc = empty();
    let other = doc.alloc_namespace(Some(b"urn:y"), None);
    let xml = doc.ensure_xml_namespace();
    assert_eq!(other, 0);
    assert_eq!(xml, 1);
    assert_eq!(doc.ensure_xml_namespace(), xml);
    assert!(doc.namespace(2).is_none());
    let ns = doc.namespace(xml).unwrap();
    assert_eq!(
        doc.string(ns.href.unwrap()).unwrap(),
        b"http://www.w3.org/XML/1998/namespace\0"
    );
    assert_eq!(doc.string(ns.prefix.unwrap()).unwrap(), b"xml\0");
    doc.clear_tree();
    assert!(doc.namespace(0).is_none());
    assert_eq!(doc.ensure_xml_namespace(), 0);
}

#[test]
fn metadata_can_be_declared() {
    let mut doc = empty();
    doc.set_version_bytes(b"2.0");
    doc.set_encoding_bytes(b"KOI8-R");
    assert_eq!(doc.version(), b"2.0\0".to_vec());
    assert_eq!(doc.encoding(), b"KOI8-R\0".to_vec());
    assert_eq!(doc.url(), None);
    assert_eq!(doc.as_mut_ptr(), ADDRESS);
}

#[test]
fn the_registry_keeps_one_entry_per_address() {
    let mut registry = HandleRegistry::new();
    assert!(registry.is_empty());
    let first = XmlDocument::new(ADDRESS, 0, None, Some(b"one\0"));
    let second = XmlDocument::new(ADDRESS, 0, None, Some(b"two\0"));
    let raw = first.into_raw(&mut registry);
    let _ = second.into_raw(&mut registry);
    // the later entry replaced the earlier one
    let back = XmlDocument::from_raw(Some(raw), &mut registry).unwrap();
    assert_eq!(back.encoding(), b"two\0".to_vec());
    assert!(registry.is_empty());
    let extras = {
        let held = XmlDocument::new(ADDRESS, 0, None, Some(b"three\0")).into_raw(&mut registry);
        assert_eq!(held.doc, ADDRESS);
        take_extras(&mut registry, ADDRESS).unwrap()
    };
    assert!(take_extras(&mut registry, ADDRESS).is_none());
    assert_eq!(extras.encoding_ptr(), b"three\0".to_vec());
    register_extras(&mut registry, ADDRESS + 1, extras);
    assert!(registry.contains(ADDRESS + 1));
    assert!(!registry.contains(ADDRESS));
    // destroying a document removes what is still registered under its address
    let stale = XmlDocument::new(ADDRESS + 1, 0, None, None);
    stale.release(&mut registry);
    assert!(registry.is_empty());
    back.release(&mut registry);
    assert!(registry.is_empty());
}

#[test]
fn bytes_are_classified() {
    for byte in [b'a', b'z', b'A', b'Z', b'_', b':'] {
        assert!(is_name_start(byte));
        assert!(is_name_char(byte));
    }
    for byte in [b'0', b'9', b'-', b'.'] {
        assert!(!is_name_start(byte));
        assert!(is_name_char(byte));
    }
    for byte in [b' ', b'<', b'>', b'/', b'=', b'@', b'[', b'`', b'{', 0x80, 0] {
        assert!(!is_name_start(byte));
        assert!(!is_name_char(byte));
    }
    for byte in [b' ', b'\t', b'\n', b'\r', 0x0C] {
        assert!(is_whitespace(byte));
        assert_eq!(is_whitespace(byte), byte.is_ascii_whitespace());
    }
    for byte in 0..=255u8 {
        assert_eq!(is_whitespace(byte), byte.is_ascii_whitespace());
    }
    assert_eq!(strip_utf8_bom(&[0xEF, 0xBB, 0xBF, b'x']), b"x");
    assert_eq!(strip_utf8_bom(&[0xEF, 0xBB, b'x']), &[0xEF, 0xBB, b'x']);
    assert_eq!(strip_utf8_bom(b""), b"");
}

#[test]
fn a_document_is_made_from_its_metadata() {
    let extras = xmlcore::extras::XmlDocExtras::new(
        Some(b"1.1\0".to_vec()),
        None,
        Some(b"u\0".to_vec()),
    );
    let doc = XmlDocument::from_extras(ADDRESS, 3, extras);
    let record = doc.record();
    assert_eq!(record.doc, ADDRESS);
    assert_eq!(record.parseFlags, 3);
    assert_eq!(record.type_, xmlElementType::DocumentNode);
    assert_eq!((record.children, record.last), (None, None));
    assert_eq!((record.compression, record.standalone, record.charset, record.properties), (0, 1, 0, 0));
    assert_eq!(doc.version(), b"1.1\0".to_vec());
    assert_eq!(doc.encoding(), b"UTF-8\0".to_vec());
    assert_eq!(doc.url(), Some(b"u\0".to_vec()));
}
