use xmlcore::context::{
    xmlClearParserCtxt, xmlCreateDocParserCtxt, xmlCreateMemoryParserCtxt, xmlCtxtReadDoc,
    xmlCtxtReadFd, xmlCtxtReadFile, xmlCtxtReadIO, xmlCtxtReadMemory, xmlFreeParserCtxt,
    xmlInitParserCtxt, xmlNewParserCtxt, xmlParseDocument,
};
use xmlcore::doc::{xmlFreeDoc, XmlDocument};
use xmlcore::entry::{
    xmlCleanupParser, xmlCreatePushParserCtxt, xmlInitParser, xmlParseChunk, xmlParseDoc,
    xmlParseFile, xmlParseMemory, xmlReadDoc, xmlReadFd, xmlReadFile, xmlReadIO, xmlReadMemory,
    xmlRecoverDoc, xmlRecoverFile, xmlRecoverMemory, xmlResumeParser, xmlSAXUserParseFile,
    xmlSAXUserParseMemory, xmlStopParser,
};
use xmlcore::io::{IoReader, IoRequest};
use xmlcore::parser::node_name_bytes;
use xmlcore::push::{
    clear_push_state, register_push_state, PushAction, PushParserState, PushParserTable,
};
use xmlcore::registry::HandleRegistry;
use xmlcore::tree::xmlElementType;

const CTXT: usize = 0x7000;
const DOC: usize = 0x8000;

#[test]
fn chunks_are_parsed_when_the_last_one_arrives() {
    let mut registry = HandleRegistry::new();
    let mut table = PushParserTable::new();
    let mut ctxt =
        xmlCreatePushParserCtxt(CTXT, 0, 0, None, 0, None, &mut table).expect("context");
    assert!(table.contains(CTXT));
    assert_eq!(
        xmlParseChunk(Some(&mut ctxt), Some(b"<a>"), 3, 0, DOC, &mut registry, &mut table),
        0
    );
    assert!(registry.is_empty());
    assert_eq!(
        xmlParseChunk(Some(&mut ctxt), Some(b"</a>"), 4, 1, DOC, &mut registry, &mut table),
        0
    );
    assert!(!table.contains(CTXT));
    assert_eq!(ctxt.wellFormed, 1);
    // the context holds the final document
    let raw = ctxt.doc.expect("final document");
    assert_eq!(raw.doc, DOC);
    assert_eq!(raw.children, Some(0));
    assert_eq!(raw.last, Some(0));
    assert!(registry.contains(DOC));
    let doc = XmlDocument::from_raw(Some(raw), &mut registry).expect("import");
    assert!(doc.node(1).is_none());
    let root = doc.node(0).expect("root");
    assert_eq!(root.type_, xmlElementType::ElementNode);
    assert_eq!(node_name_bytes(&doc, Some(0)), b"a".to_vec());
    assert_eq!((root.children, root.last, root.properties), (None, None, None));
    assert_eq!((root.parent, root.next, root.prev), (None, None, None));
    assert!(doc.attribute(0).is_none());
    doc.release(&mut registry);
    assert!(registry.is_empty());
    // freeing the context afterwards releases nothing twice
    ctxt.doc = None;
    xmlFreeParserCtxt(Some(ctxt), &mut registry, &mut table);
}

#[test]
fn feed_after_stop_fails_until_resumed() {
    let mut registry = HandleRegistry::new();
    let mut table = PushParserTable::new();
    let mut ctxt =
        xmlCreatePushParserCtxt(CTXT, 1, 2, Some(b"<a>x"), 3, Some(b"in.xml\0"), &mut table)
            .expect("context");
    assert_eq!(ctxt.sax, 1);
    assert_eq!(ctxt.user_data, 2);
    assert_eq!(ctxt.base_url, Some(b"in.xml\0".to_vec()));
    xmlStopParser(Some(&mut ctxt), &mut table);
    assert_eq!(ctxt.disableSAX, 2);
    assert_eq!(ctxt.wellFormed, 0);
    assert_eq!(
        xmlParseChunk(Some(&mut ctxt), Some(b"t"), 1, 0, DOC, &mut registry, &mut table),
        -1
    );
    assert_eq!(
        xmlParseChunk(Some(&mut ctxt), Some(b"</a>"), 4, 1, DOC, &mut registry, &mut table),
        -1
    );
    assert!(table.contains(CTXT));
    assert_eq!(xmlResumeParser(Some(&mut ctxt), &mut table), 0);
    assert_eq!(ctxt.disableSAX, 0);
    assert_eq!(ctxt.wellFormed, 1);
    // a parse that is not stopped cannot be resumed
    assert_eq!(xmlResumeParser(Some(&mut ctxt), &mut table), -1);
    assert_eq!(
        xmlParseChunk(Some(&mut ctxt), Some(b"t</a>"), 5, 1, DOC, &mut registry, &mut table),
        0
    );
    let raw = ctxt.doc.expect("final document");
    assert_eq!(raw.doc, DOC);
    // freeing the context releases the document that it holds
    let extras = registry.take(DOC).expect("exported document");
    // the first chunk was cut to its size: "<a>", then "t</a>"
    let text = extras.node(1);
    assert_eq!(text.type_, xmlElementType::TextNode);
    assert_eq!(extras.string(text.content.unwrap()), b"t\0");
    assert_eq!(extras.url_ptr(), Some(b"in.xml\0".to_vec()));
    registry.register(DOC, extras);
    xmlFreeParserCtxt(Some(ctxt), &mut registry, &mut table);
    assert!(registry.is_empty());
}

#[test]
fn malformed_chunks_fail_at_the_end() {
    let mut registry = HandleRegistry::new();
    let mut table = PushParserTable::new();
    let mut ctxt =
        xmlCreatePushParserCtxt(CTXT, 0, 0, Some(b"<a>"), 3, None, &mut table).expect("context");
    assert_eq!(
        xmlParseChunk(Some(&mut ctxt), Some(b"</b>"), 4, 0, DOC, &mut registry, &mut table),
        0
    );
    assert_eq!(xmlParseChunk(Some(&mut ctxt), None, 0, 1, DOC, &mut registry, &mut table), -1);
    assert!(registry.is_empty());
    assert!(!table.contains(CTXT));
    assert_eq!(ctxt.wellFormed, 0);
    assert!(ctxt.doc.is_none());
    // the parse is gone: nothing more can be fed, stopped or resumed
    assert_eq!(xmlParseChunk(Some(&mut ctxt), None, 0, 0, DOC, &mut registry, &mut table), -1);
    assert_eq!(xmlResumeParser(Some(&mut ctxt), &mut table), -1);
}

#[test]
fn bad_arguments_are_refused() {
    let mut registry = HandleRegistry::new();
    let mut table = PushParserTable::new();
    assert!(xmlCreatePushParserCtxt(CTXT, 0, 0, None, 1, None, &mut table).is_none());
    assert!(xmlCreatePushParserCtxt(CTXT, 0, 0, Some(b"x"), -1, None, &mut table).is_none());
    assert!(!table.contains(CTXT));
    let mut ctxt =
        xmlCreatePushParserCtxt(CTXT, 0, 0, None, 0, None, &mut table).expect("context");
    assert_eq!(xmlParseChunk(None, Some(b"<a/>"), 4, 1, DOC, &mut registry, &mut table), -1);
    assert_eq!(xmlParseChunk(Some(&mut ctxt), None, 4, 1, DOC, &mut registry, &mut table), -1);
    assert_eq!(
        xmlParseChunk(Some(&mut ctxt), Some(b"<a/>"), -4, 1, DOC, &mut registry, &mut table),
        -1
    );
    assert!(table.contains(CTXT));
    assert_eq!(xmlResumeParser(None, &mut table), -1);
    xmlStopParser(None, &mut table);
    assert!(xmlReadMemory(None, 1, None, None, 0, DOC, &mut registry).is_none());
    assert!(xmlReadMemory(Some(b"<a/>"), -1, None, None, 0, DOC, &mut registry).is_none());
    assert!(xmlReadMemory(None, 0, None, None, 0, DOC, &mut registry).is_none());
    assert!(xmlReadDoc(None, None, None, 0, DOC, &mut registry).is_none());
    assert!(xmlCreateMemoryParserCtxt(CTXT, None, 1).is_none());
    assert!(xmlCreateMemoryParserCtxt(CTXT, Some(b"x"), -1).is_none());
    assert!(xmlCreateDocParserCtxt(CTXT, None).is_none());
    assert_eq!(xmlInitParserCtxt(None, &mut registry), -1);
    assert_eq!(xmlParseDocument(None, DOC, &mut registry), -1);
    assert!(xmlCtxtReadMemory(None, Some(b"<a/>"), 4, None, None, 0, DOC, &mut registry).is_none());
    assert!(registry.is_empty());
}

#[test]
fn push_state_machine_steps() {
    let mut state = PushParserState::new(b"ab");
    assert!(matches!(state.feed(b"cd", false), PushAction::Buffered));
    state.stop();
    assert!(matches!(state.feed(b"ef", false), PushAction::Rejected));
    assert!(matches!(state.feed(b"ef", true), PushAction::Rejected));
    assert!(state.resume());
    assert!(!state.resume());
    match state.feed(b"gh", true) {
        PushAction::Parse(bytes) => assert_eq!(bytes, b"abcdgh".to_vec()),
        _ => panic!("the last chunk hands out the buffer"),
    }
    state.stop();
    assert!(!state.resume());

    let mut table = PushParserTable::new();
    register_push_state(&mut table, 5, PushParserState::new(b""));
    assert!(table.contains(5));
    clear_push_state(&mut table, None);
    assert!(table.contains(5));
    clear_push_state(&mut table, Some(5));
    assert!(!table.contains(5));
    assert!(table.take(5).is_none());
}

#[test]
fn memory_entry_points_export_the_document() {
    let mut registry = HandleRegistry::new();
    let raw = xmlReadMemory(Some(b"<a/>junk"), 4, Some(b"u\0"), None, 7, DOC, &mut registry)
        .expect("document");
    assert_eq!(raw.doc, DOC);
    assert_eq!(raw.parseFlags, 7);
    assert_eq!(raw.children, Some(0));
    assert!(registry.contains(DOC));
    let doc = XmlDocument::from_raw(Some(raw), &mut registry).expect("import");
    assert_eq!(doc.url(), Some(b"u\0".to_vec()));
    assert_eq!(node_name_bytes(&doc, Some(0)), b"a".to_vec());
    doc.release(&mut registry);
    assert!(registry.is_empty());

    // size 0 is the empty input, whatever the buffer holds
    assert!(xmlReadMemory(Some(b"<b/>\0<c/>"), 0, None, None, 0, DOC, &mut registry).is_none());
    assert!(xmlReadMemory(Some(b"<a/>\0"), 0, None, None, 0, DOC, &mut registry).is_none());
    assert!(registry.is_empty());
    let raw = xmlRecoverMemory(Some(b"<a/>"), 4, None, None, 2, DOC, &mut registry)
        .expect("document");
    assert_eq!(raw.parseFlags, 3);
    xmlFreeDoc(Some(raw), &mut registry);
    let raw = xmlReadDoc(Some(b"<a>t</a>\0tail"), None, None, 0, DOC, &mut registry)
        .expect("document");
    xmlFreeDoc(Some(raw), &mut registry);
    let raw = xmlRecoverDoc(Some(b"<a/>\0"), None, None, 0, DOC, &mut registry).expect("document");
    assert_eq!(raw.parseFlags, 1);
    xmlFreeDoc(Some(raw), &mut registry);
    assert!(xmlReadDoc(Some(b"\0<a/>"), None, None, 0, DOC, &mut registry).is_none());
    let raw = xmlParseMemory(Some(b"<a/>"), 4, DOC, &mut registry).expect("document");
    xmlFreeDoc(Some(raw), &mut registry);
    let raw = xmlParseDoc(Some(b"<a/>\0"), DOC, &mut registry).expect("document");
    xmlFreeDoc(Some(raw), &mut registry);
    assert!(registry.is_empty());
    assert_eq!(xmlSAXUserParseMemory(0, 0, Some(b"<a/>"), 4, DOC, &mut registry), 0);
    assert_eq!(xmlSAXUserParseMemory(0, 0, Some(b"<a>"), 3, DOC, &mut registry), -1);
    assert_eq!(xmlSAXUserParseMemory(0, 0, None, 3, DOC, &mut registry), -1);
    assert!(registry.is_empty());
}

#[test]
fn contents_entry_points_take_what_was_read() {
    let mut registry = HandleRegistry::new();
    let mut table = PushParserTable::new();
    let raw = xmlReadFile(Some(b"<a/>"), Some(b"f.xml\0"), None, 0, DOC, &mut registry)
        .expect("document");
    let doc = XmlDocument::from_raw(Some(raw), &mut registry).expect("import");
    assert_eq!(doc.url(), Some(b"f.xml\0".to_vec()));
    doc.release(&mut registry);
    assert!(xmlReadFile(None, Some(b"f.xml\0"), None, 0, DOC, &mut registry).is_none());
    let raw = xmlRecoverFile(Some(b"<a/>"), None, None, 0, DOC, &mut registry).expect("document");
    assert_eq!(raw.parseFlags, 1);
    xmlFreeDoc(Some(raw), &mut registry);
    let raw = xmlParseFile(Some(b"<a/>"), None, DOC, &mut registry).expect("document");
    xmlFreeDoc(Some(raw), &mut registry);
    let raw = xmlReadIO(Some(b"<a/>"), None, None, 0, DOC, &mut registry).expect("document");
    xmlFreeDoc(Some(raw), &mut registry);
    assert!(xmlReadIO(None, None, None, 0, DOC, &mut registry).is_none());
    assert!(xmlReadIO(Some(b""), None, None, 0, DOC, &mut registry).is_none());
    assert_eq!(xmlSAXUserParseFile(0, 0, Some(b"<a/>"), None, DOC, &mut registry), 0);
    assert_eq!(xmlSAXUserParseFile(0, 0, None, None, DOC, &mut registry), -1);
    assert!(registry.is_empty());

    register_push_state(&mut table, CTXT, PushParserState::new(b""));
    assert!(xmlReadFd(-1, Some(b"<a/>"), None, None, 0, CTXT, DOC, &mut registry, &mut table)
        .is_none());
    assert!(table.contains(CTXT));
    let raw = xmlReadFd(3, Some(b"<a/>"), None, None, 0, CTXT, DOC, &mut registry, &mut table)
        .expect("document");
    assert!(!table.contains(CTXT));
    xmlFreeDoc(Some(raw), &mut registry);
    assert!(registry.is_empty());
}

#[test]
fn contexts_hold_and_release_documents() {
    let mut registry = HandleRegistry::new();
    let mut table = PushParserTable::new();
    let mut ctxt = xmlCreateMemoryParserCtxt(CTXT, Some(b"<a/>"), 4).expect("context");
    assert_eq!(ctxt.wellFormed, 1);
    assert_eq!(ctxt.input, Some(b"<a/>".to_vec()));
    assert_eq!(xmlParseDocument(Some(&mut ctxt), DOC, &mut registry), 0);
    assert_eq!(ctxt.doc.map(|raw| raw.doc), Some(DOC));
    assert!(registry.contains(DOC));
    // a second parse releases the first document
    assert_eq!(xmlParseDocument(Some(&mut ctxt), DOC + 1, &mut registry), 0);
    assert!(!registry.contains(DOC));
    assert!(registry.contains(DOC + 1));
    assert_eq!(xmlInitParserCtxt(Some(&mut ctxt), &mut registry), 0);
    assert!(registry.is_empty());
    assert!(ctxt.doc.is_none());
    assert!(ctxt.input.is_none());
    assert_eq!(ctxt.input_size, 0);

    let mut ctxt = xmlCreateDocParserCtxt(CTXT, Some(b"<a>\0</a>")).expect("context");
    assert_eq!(ctxt.input_size, 3);
    assert_eq!(xmlParseDocument(Some(&mut ctxt), DOC, &mut registry), -1);
    assert_eq!(ctxt.wellFormed, 0);
    assert!(ctxt.doc.is_none());

    let mut ctxt = xmlNewParserCtxt(CTXT).expect("context");
    let raw = xmlCtxtReadMemory(
        Some(&mut ctxt),
        Some(b"<a/>"),
        4,
        Some(b"u\0"),
        Some(b"e\0"),
        5,
        DOC,
        &mut registry,
    )
    .expect("document");
    assert_eq!(raw.parseFlags, 5);
    assert!(ctxt.doc.is_none());
    assert!(ctxt.input.is_none());
    assert_eq!(ctxt.options, 5);
    assert_eq!(ctxt.base_url, Some(b"u\0".to_vec()));
    assert_eq!(ctxt.encoding, Some(b"e\0".to_vec()));
    xmlFreeDoc(Some(raw), &mut registry);
    assert!(xmlCtxtReadMemory(Some(&mut ctxt), Some(b"<a>"), 3, None, None, 0, DOC, &mut registry)
        .is_none());
    assert_eq!(ctxt.wellFormed, 0);
    assert!(registry.is_empty());
    let raw = xmlCtxtReadDoc(Some(&mut ctxt), Some(b"<a/>\0"), None, None, 0, DOC, &mut registry)
        .expect("document");
    xmlFreeDoc(Some(raw), &mut registry);
    let raw = xmlCtxtReadFile(Some(&mut ctxt), Some(b"<a/>"), None, None, 0, DOC, &mut registry)
        .expect("document");
    xmlFreeDoc(Some(raw), &mut registry);
    assert!(xmlCtxtReadFd(Some(&mut ctxt), -1, Some(b"<a/>"), None, None, 0, DOC, &mut registry)
        .is_none());
    let raw = xmlCtxtReadFd(Some(&mut ctxt), 0, Some(b"<a/>"), None, None, 0, DOC, &mut registry)
        .expect("document");
    xmlFreeDoc(Some(raw), &mut registry);
    let raw = xmlCtxtReadIO(Some(&mut ctxt), Some(b"<a/>"), None, None, 0, DOC, &mut registry)
        .expect("document");
    xmlFreeDoc(Some(raw), &mut registry);
    assert!(xmlCtxtReadIO(Some(&mut ctxt), None, None, None, 0, DOC, &mut registry).is_none());

    register_push_state(&mut table, CTXT, PushParserState::new(b""));
    xmlClearParserCtxt(Some(&mut ctxt), &mut registry, &mut table);
    assert!(!table.contains(CTXT));
    assert_eq!(ctxt.options, 0);
    assert_eq!(xmlParseDocument(Some(&mut ctxt), DOC, &mut registry), -1);
    let mut held = xmlCreateMemoryParserCtxt(CTXT, Some(b"<a/>"), 4).expect("context");
    assert_eq!(xmlParseDocument(Some(&mut held), DOC, &mut registry), 0);
    register_push_state(&mut table, CTXT, PushParserState::new(b""));
    xmlFreeParserCtxt(Some(held), &mut registry, &mut table);
    assert!(registry.is_empty());
    assert!(!table.contains(CTXT));
    xmlFreeParserCtxt(None, &mut registry, &mut table);
}

#[test]
fn initialisations_are_counted() {
    let mut count = 0usize;
    xmlInitParser(&mut count);
    xmlInitParser(&mut count);
    assert_eq!(count, 2);
    xmlCleanupParser(&mut count);
    assert_eq!(count, 0);
    count = usize::MAX;
    xmlInitParser(&mut count);
    assert_eq!(count, 0);
}

#[test]
fn a_stream_is_read_to_its_end_and_closed_once() {
    let mut reader = IoReader::new(true);
    assert_eq!(reader.request(), IoRequest::Read(4096));
    reader.on_read(3, b"<a/junk");
    assert_eq!(reader.request(), IoRequest::Read(4096));
    reader.on_read(1, b">");
    reader.on_read(0, b"");
    assert_eq!(reader.request(), IoRequest::Close);
    reader.on_close();
    assert_eq!(reader.request(), IoRequest::Nothing);
    assert_eq!(reader.finish(), Some(b"<a/>".to_vec()));

    let mut failing = IoReader::new(true);
    failing.on_read(2, b"ab");
    failing.on_read(-1, b"");
    assert_eq!(failing.request(), IoRequest::Close);
    failing.on_close();
    assert_eq!(failing.finish(), None);

    let mut greedy = IoReader::new(true);
    greedy.on_read(4097, b"");
    assert_eq!(greedy.request(), IoRequest::Close);
    greedy.on_close();
    assert_eq!(greedy.finish(), None);

    let mut unreadable = IoReader::new(false);
    assert_eq!(unreadable.request(), IoRequest::Close);
    unreadable.on_close();
    assert_eq!(unreadable.request(), IoRequest::Nothing);
    assert_eq!(unreadable.finish(), None);
}
