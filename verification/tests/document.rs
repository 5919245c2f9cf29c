use xmlcore::doc::{xmlFreeDoc, xmlNewDoc, XmlDocument};
use xmlcore::extras::{c_string_bytes, duplicate_null_terminated, to_c_string};
use xmlcore::registry::HandleRegistry;

#[test]
fn xml_document_defaults_match_legacy_values() {
    let doc = XmlDocument::new(0x10, 0, None, None);
    let version = doc.version();
    assert_eq!(c_string_bytes(&version), b"1.0".to_vec());
    let encoding = doc.encoding();
    assert_eq!(c_string_bytes(&encoding), b"UTF-8".to_vec());
    assert!(doc.url().is_none());
}

#[test]
fn xml_document_round_trip_preserves_metadata() {
    let mut registry = HandleRegistry::new();
    let url = b"file:///tmp/example.xml\0";
    let encoding = b"ISO-8859-1\0";

    let doc = XmlDocument::new(0x20, 42, Some(url), Some(encoding));
    let raw = doc.into_raw(&mut registry);
    assert!(registry.contains(0x20));

    let doc = XmlDocument::from_raw(Some(raw), &mut registry).expect("document metadata");
    let c_doc = doc.record();

    assert_eq!(c_doc.parseFlags, 42);
    assert_eq!(c_string_bytes(&doc.encoding()), b"ISO-8859-1".to_vec());
    assert_eq!(c_string_bytes(&doc.url().unwrap()), b"file:///tmp/example.xml".to_vec());
    assert_eq!(c_string_bytes(&doc.version()), b"1.0".to_vec());
    assert!(!registry.contains(0x20));
}

#[test]
fn xml_free_doc_clears_registered_metadata() {
    let mut registry = HandleRegistry::new();
    let encoding = b"UTF-16\0";
    let doc = XmlDocument::new(0x30, 0, None, Some(encoding));
    let raw = doc.into_raw(&mut registry);
    assert!(!registry.is_empty());

    xmlFreeDoc(Some(raw), &mut registry);

    assert!(registry.is_empty());
}

#[test]
fn import_without_registered_metadata_defaults_to_empty() {
    let mut registry = HandleRegistry::new();
    let raw = xmlNewDoc(0x40, Some(b"1.1\0"), &mut registry);
    let first = XmlDocument::from_raw(Some(raw), &mut registry).expect("record");
    assert_eq!(first.version(), b"1.1\0".to_vec());
    assert!(registry.is_empty());
    // the entry is consumed: a second import finds none and is no error
    let mut second = XmlDocument::from_raw(Some(raw), &mut registry).expect("record");
    assert_eq!(second.as_ptr(), 0x40);
    assert_eq!(second.record().doc, raw.doc);
    assert_eq!(second.version(), b"1.0\0".to_vec());
    assert_eq!(second.encoding(), b"UTF-8\0".to_vec());
    assert_eq!(second.url(), None);
    assert!(second.node(0).is_none());
    assert!(second.string(0).is_none());
    assert!(registry.is_empty());
    // and the document is usable like any other
    let element = second.alloc_element(b"e");
    second.attach_child(None, element);
    assert_eq!(second.record().children, Some(element));
    let raw = second.into_raw(&mut registry);
    assert!(registry.contains(0x40));
    xmlFreeDoc(Some(raw), &mut registry);
    assert!(registry.is_empty());
    assert!(XmlDocument::from_raw(None, &mut registry).is_none());
}

#[test]
fn import_of_a_never_exported_record_is_no_error() {
    let mut registry = HandleRegistry::new();
    let record = XmlDocument::new(0x50, 9, None, None).record();
    let mut doc = XmlDocument::from_raw(Some(record), &mut registry).expect("record");
    assert_eq!(doc.record().parseFlags, 9);
    assert_eq!(doc.version(), b"1.0\0".to_vec());
    doc.set_version_bytes(b"1.1");
    assert_eq!(doc.version(), b"1.1\0".to_vec());
    assert!(registry.is_empty());
}

#[test]
fn terminated_strings_are_copied_up_to_the_terminator() {
    assert_eq!(to_c_string(b"abc"), b"abc\0".to_vec());
    assert_eq!(to_c_string(b""), vec![0]);
    assert_eq!(duplicate_null_terminated(Some(b"ab\0cd")), Some(b"ab\0".to_vec()));
    assert_eq!(duplicate_null_terminated(Some(b"abcd")), Some(b"abcd\0".to_vec()));
    assert_eq!(duplicate_null_terminated(None), None);
    assert_eq!(c_string_bytes(b"x\0y\0"), b"x".to_vec());
}
