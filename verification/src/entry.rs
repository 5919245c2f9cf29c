//! The entry points that need no parser context of the caller, and the
//! entry points of the incremental front-end.

use crate::context::{
    as_slice_option, input_bytes, lemma_read_memory_keeps, lemma_read_memory_of_nothing, spec_ctxt_read_memory, spec_exported, spec_raw,
    spec_read_contents, spec_read_doc, spec_read_memory, spec_readable, spec_status,
    spec_valid_buffer, terminated_length, to_owned_option, xmlCtxtReadFd, xmlCtxtReadMemory,
    xmlFreeParserCtxt, xmlNewParserCtxt, xmlParserCtxt, ParserContext, MAX_INPUT_SIZE,
    XML_PARSE_RECOVER,
};
use crate::doc::{spec_slice_view, xmlFreeDoc};
use crate::extras::Extras;
use crate::parser::parse_document_from_bytes;
use crate::push::{
    clear_push_state, register_push_state, PushAction, PushParserState, PushParserTable, PushState,
};
use crate::registry::HandleRegistry;
use crate::tree::xmlDoc;
use vstd::prelude::*;

verus! {

/// Parses a document that lies in memory into a new document at `address`
/// and hands it out: the caller gets the root record, the registry the
/// metadata. The input is the first `size` bytes of the buffer. A negative
/// size, a positive size with an absent buffer, the size `0` and input that
/// is not well formed give no document and change nothing.
#[allow(non_snake_case)]
pub fn xmlReadMemory(
    buffer: Option<&[u8]>,
    size: i32,
    url: Option<&[u8]>,
    encoding: Option<&[u8]>,
    options: i32,
    address: usize,
    registry: &mut HandleRegistry,
) -> (doc: Option<xmlDoc>)
    requires
        spec_readable(spec_slice_view(buffer), size),
    ensures
        doc matches Some(raw) ==> raw.doc == address && raw.parseFlags == options && final(registry)@.contains_key(address),
        doc is None ==> final(registry)@ == old(registry)@,
        size == 0 ==> doc is None,
        doc == spec_raw(
            spec_read_memory(
                spec_slice_view(buffer),
                size,
                spec_slice_view(url),
                spec_slice_view(encoding),
                options,
                address,
            ),
        ),
        final(registry)@ == spec_exported(
            old(registry)@,
            spec_read_memory(
                spec_slice_view(buffer),
                size,
                spec_slice_view(url),
                spec_slice_view(encoding),
                options,
                address,
            ),
        ),
{
    proof {
        lemma_read_memory_of_nothing(
            spec_slice_view(buffer),
            spec_slice_view(url),
            spec_slice_view(encoding),
            options,
            address,
        );
        if spec_read_memory(
            spec_slice_view(buffer),
            size,
            spec_slice_view(url),
            spec_slice_view(encoding),
            options,
            address,
        ) is Some {
            lemma_read_memory_keeps(
                spec_slice_view(buffer),
                size,
                spec_slice_view(url),
                spec_slice_view(encoding),
                options,
                address,
                old(registry)@,
            );
        }
    }
    let bytes = match input_bytes(buffer, size) {
        Ok(bytes) => bytes,
        Err(()) => {
            return None;
        },
    };
    match parse_document_from_bytes(address, bytes, options, url, encoding) {
        Ok(doc) => Some(doc.into_raw(registry)),
        Err(()) => None,
    }
}

/// Parses a document that lies in memory, asking for recovery from errors.
#[allow(non_snake_case)]
pub fn xmlRecoverMemory(
    buffer: Option<&[u8]>,
    size: i32,
    url: Option<&[u8]>,
    encoding: Option<&[u8]>,
    options: i32,
    address: usize,
    registry: &mut HandleRegistry,
) -> (doc: Option<xmlDoc>)
    requires
        spec_readable(spec_slice_view(buffer), size),
    ensures
        doc == spec_raw(
            spec_read_memory(
                spec_slice_view(buffer),
                size,
                spec_slice_view(url),
                spec_slice_view(encoding),
                options | XML_PARSE_RECOVER,
                address,
            ),
        ),
        final(registry)@ == spec_exported(
            old(registry)@,
            spec_read_memory(
                spec_slice_view(buffer),
                size,
                spec_slice_view(url),
                spec_slice_view(encoding),
                options | XML_PARSE_RECOVER,
                address,
            ),
        ),
{
    xmlReadMemory(buffer, size, url, encoding, options | XML_PARSE_RECOVER, address, registry)
}

/// Parses a document that is a terminated string into a new document at
/// `address` and hands it out. An absent string, a string that is longer
/// than the largest size, and input that is not well formed give no
/// document and change nothing.
#[allow(non_snake_case)]
pub fn xmlReadDoc(
    cur: Option<&[u8]>,
    url: Option<&[u8]>,
    encoding: Option<&[u8]>,
    options: i32,
    address: usize,
    registry: &mut HandleRegistry,
) -> (doc: Option<xmlDoc>)
    ensures
        doc == spec_raw(
            spec_read_doc(
                spec_slice_view(cur),
                spec_slice_view(url),
                spec_slice_view(encoding),
                options,
                address,
            ),
        ),
        final(registry)@ == spec_exported(
            old(registry)@,
            spec_read_doc(
                spec_slice_view(cur),
                spec_slice_view(url),
                spec_slice_view(encoding),
                options,
                address,
            ),
        ),
{
    let text = match cur {
        None => {
            return None;
        },
        Some(text) => text,
    };
    let len = terminated_length(text);
    if len > MAX_INPUT_SIZE {
        return None;
    }
    xmlReadMemory(cur, len as i32, url, encoding, options, address, registry)
}

/// Parses a document that is a terminated string, asking for recovery from
/// errors.
#[allow(non_snake_case)]
pub fn xmlRecoverDoc(
    cur: Option<&[u8]>,
    url: Option<&[u8]>,
    encoding: Option<&[u8]>,
    options: i32,
    address: usize,
    registry: &mut HandleRegistry,
) -> (doc: Option<xmlDoc>)
    ensures
        doc == spec_raw(
            spec_read_doc(
                spec_slice_view(cur),
                spec_slice_view(url),
                spec_slice_view(encoding),
                options | XML_PARSE_RECOVER,
                address,
            ),
        ),
        final(registry)@ == spec_exported(
            old(registry)@,
            spec_read_doc(
                spec_slice_view(cur),
                spec_slice_view(url),
                spec_slice_view(encoding),
                options | XML_PARSE_RECOVER,
                address,
            ),
        ),
{
    xmlReadDoc(cur, url, encoding, options | XML_PARSE_RECOVER, address, registry)
}

/// Parses bytes that were read elsewhere into a new document at `address`.
fn read_contents(
    contents: Option<&[u8]>,
    url: Option<&[u8]>,
    encoding: Option<&[u8]>,
    options: i32,
    address: usize,
    registry: &mut HandleRegistry,
) -> (doc: Option<xmlDoc>)
    ensures
        doc matches Some(raw) ==> raw.doc == address,
        doc == spec_raw(
            spec_read_contents(
                spec_slice_view(contents),
                spec_slice_view(url),
                spec_slice_view(encoding),
                options,
                address,
            ),
        ),
        final(registry)@ == spec_exported(
            old(registry)@,
            spec_read_contents(
                spec_slice_view(contents),
                spec_slice_view(url),
                spec_slice_view(encoding),
                options,
                address,
            ),
        ),
{
    let buffer = match contents {
        None => {
            return None;
        },
        Some(buffer) => buffer,
    };
    if buffer.len() > MAX_INPUT_SIZE {
        return None;
    }
    xmlReadMemory(contents, buffer.len() as i32, url, encoding, options, address, registry)
}

/// Parses the contents of a file into a new document at `address` and
/// hands it out. `contents` is what reading the file gave, or none where
/// the file could not be read; the name of the file becomes the source URL
/// of the document.
#[allow(non_snake_case)]
pub fn xmlReadFile(
    contents: Option<&[u8]>,
    filename: Option<&[u8]>,
    encoding: Option<&[u8]>,
    options: i32,
    address: usize,
    registry: &mut HandleRegistry,
) -> (doc: Option<xmlDoc>)
    ensures
        doc matches Some(raw) ==> raw.doc == address,
        doc == spec_raw(
            spec_read_contents(
                spec_slice_view(contents),
                spec_slice_view(filename),
                spec_slice_view(encoding),
                options,
                address,
            ),
        ),
        final(registry)@ == spec_exported(
            old(registry)@,
            spec_read_contents(
                spec_slice_view(contents),
                spec_slice_view(filename),
                spec_slice_view(encoding),
                options,
                address,
            ),
        ),
{
    read_contents(contents, filename, encoding, options, address, registry)
}

/// Parses the contents of a file, asking for recovery from errors.
#[allow(non_snake_case)]
pub fn xmlRecoverFile(
    contents: Option<&[u8]>,
    filename: Option<&[u8]>,
    encoding: Option<&[u8]>,
    options: i32,
    address: usize,
    registry: &mut HandleRegistry,
) -> (doc: Option<xmlDoc>)
    ensures
        doc == spec_raw(
            spec_read_contents(
                spec_slice_view(contents),
                spec_slice_view(filename),
                spec_slice_view(encoding),
                options | XML_PARSE_RECOVER,
                address,
            ),
        ),
        final(registry)@ == spec_exported(
            old(registry)@,
            spec_read_contents(
                spec_slice_view(contents),
                spec_slice_view(filename),
                spec_slice_view(encoding),
                options | XML_PARSE_RECOVER,
                address,
            ),
        ),
{
    xmlReadFile(contents, filename, encoding, options | XML_PARSE_RECOVER, address, registry)
}

/// Parses the contents of a file with the default options.
#[allow(non_snake_case)]
pub fn xmlParseFile(
    contents: Option<&[u8]>,
    filename: Option<&[u8]>,
    address: usize,
    registry: &mut HandleRegistry,
) -> (doc: Option<xmlDoc>)
    ensures
        doc == spec_raw(
            spec_read_contents(spec_slice_view(contents), spec_slice_view(filename), None, 0, address),
        ),
        final(registry)@ == spec_exported(
            old(registry)@,
            spec_read_contents(spec_slice_view(contents), spec_slice_view(filename), None, 0, address),
        ),
{
    xmlReadFile(contents, filename, None, 0, address, registry)
}

/// Parses what a byte stream gave into a new document at `address` and
/// hands it out. `contents` is what reading the stream to its end gave, or
/// none where reading failed.
#[allow(non_snake_case)]
pub fn xmlReadIO(
    contents: Option<&[u8]>,
    url: Option<&[u8]>,
    encoding: Option<&[u8]>,
    options: i32,
    address: usize,
    registry: &mut HandleRegistry,
) -> (doc: Option<xmlDoc>)
    ensures
        doc matches Some(raw) ==> raw.doc == address,
        doc == spec_raw(
            spec_read_contents(
                spec_slice_view(contents),
                spec_slice_view(url),
                spec_slice_view(encoding),
                options,
                address,
            ),
        ),
        final(registry)@ == spec_exported(
            old(registry)@,
            spec_read_contents(
                spec_slice_view(contents),
                spec_slice_view(url),
                spec_slice_view(encoding),
                options,
                address,
            ),
        ),
{
    read_contents(contents, url, encoding, options, address, registry)
}

/// Parses what was read from a file descriptor into a new document at
/// `address` and hands it out, through a context of its own at
/// `ctxt_address` that is destroyed afterwards. `contents` is what reading
/// the descriptor gave, or none where it could not be read. A negative
/// descriptor is refused and changes nothing.
#[allow(non_snake_case)]
pub fn xmlReadFd(
    fd: i32,
    contents: Option<&[u8]>,
    url: Option<&[u8]>,
    encoding: Option<&[u8]>,
    options: i32,
    ctxt_address: usize,
    address: usize,
    registry: &mut HandleRegistry,
    table: &mut PushParserTable,
) -> (doc: Option<xmlDoc>)
    ensures
        fd < 0 ==> doc is None && final(registry)@ == old(registry)@ && final(table)@ == old(table)@,
        fd >= 0 ==> {
            &&& doc == spec_raw(
                spec_read_contents(
                    spec_slice_view(contents),
                    spec_slice_view(url),
                    spec_slice_view(encoding),
                    options,
                    address,
                ),
            )
            &&& final(registry)@ == spec_exported(
                old(registry)@,
                spec_read_contents(
                    spec_slice_view(contents),
                    spec_slice_view(url),
                    spec_slice_view(encoding),
                    options,
                    address,
                ),
            )
            &&& final(table)@ == old(table)@.remove(ctxt_address)
        },
{
    if fd < 0 {
        return None;
    }
    let mut ctxt = match xmlNewParserCtxt(ctxt_address) {
        None => {
            return None;
        },
        Some(ctxt) => ctxt,
    };
    let doc = xmlCtxtReadFd(Some(&mut ctxt), fd, contents, url, encoding, options, address, registry);
    xmlFreeParserCtxt(Some(ctxt), registry, table);
    doc
}

/// Parses a document that lies in memory with the default options.
#[allow(non_snake_case)]
pub fn xmlParseMemory(
    buffer: Option<&[u8]>,
    size: i32,
    address: usize,
    registry: &mut HandleRegistry,
) -> (doc: Option<xmlDoc>)
    requires
        spec_readable(spec_slice_view(buffer), size),
    ensures
        doc == spec_raw(spec_read_memory(spec_slice_view(buffer), size, None, None, 0, address)),
        final(registry)@ == spec_exported(
            old(registry)@,
            spec_read_memory(spec_slice_view(buffer), size, None, None, 0, address),
        ),
{
    xmlReadMemory(buffer, size, None, None, 0, address, registry)
}

/// Parses a document that is a terminated string with the default options.
#[allow(non_snake_case)]
pub fn xmlParseDoc(cur: Option<&[u8]>, address: usize, registry: &mut HandleRegistry) -> (doc: Option<
    xmlDoc,
>)
    ensures
        doc == spec_raw(spec_read_doc(spec_slice_view(cur), None, None, 0, address)),
        final(registry)@ == spec_exported(
            old(registry)@,
            spec_read_doc(spec_slice_view(cur), None, None, 0, address),
        ),
{
    xmlReadDoc(cur, None, None, 0, address, registry)
}

/// Checks that the contents of a file are well formed: parses them into a
/// document at `address` and releases the document at once. The handler and
/// the user data are ignored.
#[allow(non_snake_case)]
pub fn xmlSAXUserParseFile(
    sax: usize,
    user_data: usize,
    contents: Option<&[u8]>,
    filename: Option<&[u8]>,
    address: usize,
    registry: &mut HandleRegistry,
) -> (rc: i32)
    ensures
        rc == spec_status(
            spec_read_contents(spec_slice_view(contents), spec_slice_view(filename), None, 0, address),
        ),
        final(registry)@ == if rc == 0 {
            old(registry)@.remove(address)
        } else {
            old(registry)@
        },
{
    let doc = xmlReadFile(contents, filename, None, 0, address, registry);
    if doc.is_none() {
        return -1;
    }
    xmlFreeDoc(doc, registry);
    assert(registry@ =~= old(registry)@.remove(address));
    0
}

/// Checks that a document that lies in memory is well formed: parses it
/// into a document at `address` and releases the document at once. The
/// handler and the user data are ignored.
#[allow(non_snake_case)]
pub fn xmlSAXUserParseMemory(
    sax: usize,
    user_data: usize,
    buffer: Option<&[u8]>,
    size: i32,
    address: usize,
    registry: &mut HandleRegistry,
) -> (rc: i32)
    requires
        spec_readable(spec_slice_view(buffer), size),
    ensures
        rc == spec_status(spec_read_memory(spec_slice_view(buffer), size, None, None, 0, address)),
        final(registry)@ == if rc == 0 {
            old(registry)@.remove(address)
        } else {
            old(registry)@
        },
{
    if size < 0 || (size > 0 && buffer.is_none()) {
        return -1;
    }
    let doc = xmlReadMemory(buffer, size, None, None, 0, address, registry);
    if doc.is_none() {
        return -1;
    }
    xmlFreeDoc(doc, registry);
    assert(registry@ =~= old(registry)@.remove(address));
    0
}

/// Counts one more initialisation of the parser; the count wraps around.
#[allow(non_snake_case)]
pub fn xmlInitParser(count: &mut usize)
    ensures
        *final(count) == if *old(count) == usize::MAX {
            0
        } else {
            *old(count) + 1
        },
{
    if *count == usize::MAX {
        *count = 0;
    } else {
        *count = *count + 1;
    }
}

/// Forgets every initialisation of the parser.
#[allow(non_snake_case)]
pub fn xmlCleanupParser(count: &mut usize)
    ensures
        *final(count) == 0,
{
    *count = 0;
}

/// The bytes of a chunk: the first `size` bytes of the memory, and nothing
/// for the size `0`.
pub open spec fn spec_chunk(chunk: Option<Seq<u8>>, size: i32) -> Seq<u8> {
    if size > 0 && chunk is Some {
        chunk.unwrap().subrange(0, size as int)
    } else {
        Seq::empty()
    }
}

/// The bytes of a chunk.
fn chunk_bytes<'a>(chunk: Option<&'a [u8]>, size: i32) -> (bytes: &'a [u8])
    requires
        spec_readable(spec_slice_view(chunk), size),
    ensures
        bytes@ == spec_chunk(spec_slice_view(chunk), size),
{
    match chunk {
        Some(memory) => if size > 0 {
            vstd::slice::slice_subrange(memory, 0, size as usize)
        } else {
            let nothing: &'a [u8] = &[];
            assert(nothing@ =~= Seq::<u8>::empty());
            nothing
        },
        None => {
            let nothing: &'a [u8] = &[];
            assert(nothing@ =~= Seq::<u8>::empty());
            nothing
        },
    }
}

/// Allocates a context at `address` for a parse that is fed in chunks, with
/// a first chunk. The parse starts accumulating. A negative size, and a
/// positive size with an absent chunk, give no context and change nothing.
#[allow(non_snake_case)]
pub fn xmlCreatePushParserCtxt(
    address: usize,
    sax: usize,
    user_data: usize,
    chunk: Option<&[u8]>,
    size: i32,
    filename: Option<&[u8]>,
    table: &mut PushParserTable,
) -> (ctxt: Option<xmlParserCtxt>)
    requires
        spec_readable(spec_slice_view(chunk), size),
    ensures
        ctxt is Some <==> spec_valid_buffer(spec_slice_view(chunk), size),
        ctxt is None ==> final(table)@ == old(table)@,
        ctxt matches Some(c) ==> {
            &&& c@ == (ParserContext {
                sax,
                user_data,
                base_url: spec_slice_view(filename),
                ..ParserContext::spec_new(address, None, 0)
            })
            &&& final(table)@ == old(table)@.insert(
                address,
                PushState::spec_new(spec_chunk(spec_slice_view(chunk), size)),
            )
        },
{
    if size < 0 || (size > 0 && chunk.is_none()) {
        return None;
    }
    let mut ctxt = match xmlNewParserCtxt(address) {
        None => {
            return None;
        },
        Some(ctxt) => ctxt,
    };
    ctxt.sax = sax;
    ctxt.user_data = user_data;
    ctxt.base_url = to_owned_option(filename);
    let state = PushParserState::new(chunk_bytes(chunk, size));
    register_push_state(table, address, state);
    Some(ctxt)
}

/// What feeding a chunk leaves: the status, the context, the registry and
/// the table of the parses.
pub struct ChunkOutcome {
    pub rc: i32,
    pub ctxt: ParserContext,
    pub registry: Map<usize, Extras>,
    pub table: Map<usize, PushState>,
}

/// What feeding a chunk to the parse of a context leaves.
///
/// The chunk is refused, and nothing changes, where the size is negative,
/// where the size is positive and the chunk absent, where the context has
/// no parse, and where the parse is stopped. A chunk that is not the last
/// one is buffered. With the last chunk the parse is forgotten, and all
/// that was fed is parsed through the context into a document at
/// `address`. Where that gives a document, the status is `0` and the
/// context holds the root record of the document, which is exported; else
/// the status is `-1` and the context holds no document. Input that is
/// longer than the largest size is refused unparsed.
pub open spec fn spec_parse_chunk(
    ctxt: ParserContext,
    registry: Map<usize, Extras>,
    table: Map<usize, PushState>,
    chunk: Option<Seq<u8>>,
    size: i32,
    terminate: i32,
    address: usize,
) -> ChunkOutcome {
    if !spec_valid_buffer(chunk, size) || !table.contains_key(ctxt.address)
        || !table[ctxt.address].spec_accepts() {
        ChunkOutcome { rc: -1i32, ctxt, registry, table }
    } else if terminate == 0 {
        ChunkOutcome {
            rc: 0i32,
            ctxt,
            registry,
            table: table.insert(
                ctxt.address,
                table[ctxt.address].spec_feed(spec_chunk(chunk, size), false),
            ),
        }
    } else {
        let input = table[ctxt.address].buffer + spec_chunk(chunk, size);
        if input.len() > MAX_INPUT_SIZE {
            ChunkOutcome { rc: -1i32, ctxt, registry, table: table.remove(ctxt.address) }
        } else {
            let read = spec_ctxt_read_memory(
                ctxt,
                registry,
                Some(input),
                input.len() as i32,
                ctxt.base_url,
                ctxt.encoding,
                ctxt.options,
                address,
            );
            ChunkOutcome {
                rc: if read.doc is Some {
                    0i32
                } else {
                    -1i32
                },
                ctxt: ParserContext { doc: read.doc, ..read.ctxt },
                registry: read.registry,
                table: table.remove(ctxt.address),
            }
        }
    }
}

/// Feeds a chunk to the parse of a context; a `terminate` other than `0`
/// says that it is the last one. An absent context is refused.
///
/// Nothing is parsed before the last chunk. The last chunk yields the
/// document to the caller through the context: the context then holds its
/// root record, and its metadata is in the registry under `address`.
#[allow(non_snake_case)]
pub fn xmlParseChunk(
    ctxt: Option<&mut xmlParserCtxt>,
    chunk: Option<&[u8]>,
    size: i32,
    terminate: i32,
    address: usize,
    registry: &mut HandleRegistry,
    table: &mut PushParserTable,
) -> (rc: i32)
    requires
        spec_readable(spec_slice_view(chunk), size),
    ensures
        match ctxt {
            None => rc == -1 && final(registry)@ == old(registry)@ && final(table)@ == old(table)@,
            Some(c) => {
                let outcome = spec_parse_chunk(
                    c@,
                    old(registry)@,
                    old(table)@,
                    spec_slice_view(chunk),
                    size,
                    terminate,
                    address,
                );
                &&& rc == outcome.rc
                &&& final(c)@ == outcome.ctxt
                &&& final(registry)@ == outcome.registry
                &&& final(table)@ == outcome.table
                &&& rc == 0 && terminate != 0 ==> final(c)@.doc is Some && final(c)@.doc.unwrap().doc == address && final(c)@.doc.unwrap().parseFlags == c@.options
                    && final(registry)@.contains_key(address)
            },
        },
{
    let ctxt_ref = match ctxt {
        None => {
            return -1;
        },
        Some(ctxt_ref) => ctxt_ref,
    };
    if size < 0 || (size > 0 && chunk.is_none()) {
        return -1;
    }
    let key = ctxt_ref.address;
    let mut state = match table.take(key) {
        Some(state) => state,
        None => {
            assert(table@ =~= old(table)@);
            return -1;
        },
    };
    match state.feed(chunk_bytes(chunk, size), terminate != 0) {
        PushAction::Rejected => {
            register_push_state(table, key, state);
            assert(table@ =~= old(table)@);
            -1
        },
        PushAction::Buffered => {
            register_push_state(table, key, state);
            assert(table@ =~= old(table)@.insert(
                key,
                old(table)@[key].spec_feed(spec_chunk(spec_slice_view(chunk), size), false),
            ));
            0
        },
        PushAction::Parse(buffer) => {
            if buffer.len() > MAX_INPUT_SIZE {
                clear_push_state(table, Some(key));
                assert(table@ =~= old(table)@.remove(key));
                return -1;
            }
            let len = buffer.len() as i32;
            let url = to_owned_option(as_slice_option(&ctxt_ref.base_url));
            let encoding = to_owned_option(as_slice_option(&ctxt_ref.encoding));
            let options = ctxt_ref.options;
            let doc = xmlCtxtReadMemory(
                Some(&mut *ctxt_ref),
                Some(buffer.as_slice()),
                len,
                as_slice_option(&url),
                as_slice_option(&encoding),
                options,
                address,
                registry,
            );
            clear_push_state(table, Some(key));
            assert(table@ =~= old(table)@.remove(key));
            ctxt_ref.doc = doc;
            if doc.is_none() {
                -1
            } else {
                0
            }
        },
    }
}

/// Stops the parse of a context: chunks are refused until the parse is
/// resumed. The context is marked not well formed. An absent context is
/// ignored; a context without a parse is only marked.
#[allow(non_snake_case)]
pub fn xmlStopParser(ctxt: Option<&mut xmlParserCtxt>, table: &mut PushParserTable)
    ensures
        match ctxt {
            None => final(table)@ == old(table)@,
            Some(c) => {
                &&& final(c)@ == c@.spec_stop()
                &&& final(table)@ == if old(table)@.contains_key(c@.address) {
                    old(table)@.insert(c@.address, old(table)@[c@.address].spec_stop())
                } else {
                    old(table)@
                }
            },
        },
{
    let ctxt_ref = match ctxt {
        None => {
            return ;
        },
        Some(ctxt_ref) => ctxt_ref,
    };
    let key = ctxt_ref.address;
    match table.take(key) {
        Some(state) => {
            let mut state = state;
            state.stop();
            register_push_state(table, key, state);
        },
        None => {
            assert(table@ =~= old(table)@);
        },
    }
    ctxt_ref.disableSAX = 2;
    ctxt_ref.wellFormed = 0;
}

/// Resumes the parse of a context that was stopped before its last chunk,
/// and marks the context well formed again. An absent context, a context
/// without a parse, and a parse that is not stopped or is terminated are
/// refused and change nothing.
#[allow(non_snake_case)]
pub fn xmlResumeParser(ctxt: Option<&mut xmlParserCtxt>, table: &mut PushParserTable) -> (rc: i32)
    ensures
        match ctxt {
            None => rc == -1 && final(table)@ == old(table)@,
            Some(c) => if old(table)@.contains_key(c@.address) && old(
                table,
            )@[c@.address].spec_can_resume() {
                &&& rc == 0
                &&& final(c)@ == c@.spec_resume()
                &&& final(table)@ == old(table)@.insert(
                    c@.address,
                    old(table)@[c@.address].spec_resume(),
                )
            } else {
                rc == -1 && final(c)@ == c@ && final(table)@ == old(table)@
            },
        },
{
    let ctxt_ref = match ctxt {
        None => {
            return -1;
        },
        Some(ctxt_ref) => ctxt_ref,
    };
    let key = ctxt_ref.address;
    let mut state = match table.take(key) {
        Some(state) => state,
        None => {
            assert(table@ =~= old(table)@);
            return -1;
        },
    };
    let resumed = state.resume();
    register_push_state(table, key, state);
    if !resumed {
        assert(table@ =~= old(table)@);
        return -1;
    }
    ctxt_ref.disableSAX = 0;
    if ctxt_ref.wellFormed == 0 {
        ctxt_ref.wellFormed = 1;
    }
    0
}

/// Every chunk that is fed to a context whose parse was stopped is refused
/// and changes nothing.
pub proof fn lemma_chunk_after_stop_is_refused(
    ctxt: ParserContext,
    registry: Map<usize, Extras>,
    table: Map<usize, PushState>,
    chunk: Option<Seq<u8>>,
    size: i32,
    terminate: i32,
    address: usize,
)
    requires
        table.contains_key(ctxt.address),
    ensures
        spec_parse_chunk(
            ctxt.spec_stop(),
            registry,
            table.insert(ctxt.address, table[ctxt.address].spec_stop()),
            chunk,
            size,
            terminate,
            address,
        ) == (ChunkOutcome {
            rc: -1i32,
            ctxt: ctxt.spec_stop(),
            registry,
            table: table.insert(ctxt.address, table[ctxt.address].spec_stop()),
        }),
{
}

/// A chunk that is fed to a context whose parse was stopped before its last
/// chunk and then resumed is taken: a chunk that is not the last one is
/// buffered behind what was fed before the stop.
pub proof fn lemma_chunk_after_resume_is_taken(
    ctxt: ParserContext,
    registry: Map<usize, Extras>,
    table: Map<usize, PushState>,
    chunk: Option<Seq<u8>>,
    size: i32,
    address: usize,
)
    requires
        table.contains_key(ctxt.address),
        !table[ctxt.address].terminated,
        spec_valid_buffer(chunk, size),
    ensures
        table[ctxt.address].spec_stop().spec_can_resume(),
        spec_parse_chunk(
            ctxt.spec_stop().spec_resume(),
            registry,
            table.insert(ctxt.address, table[ctxt.address].spec_stop().spec_resume()),
            chunk,
            size,
            0,
            address,
        ).rc == 0,
        spec_parse_chunk(
            ctxt.spec_stop().spec_resume(),
            registry,
            table.insert(ctxt.address, table[ctxt.address].spec_stop().spec_resume()),
            chunk,
            size,
            0,
            address,
        ).table[ctxt.address].buffer == table[ctxt.address].buffer + spec_chunk(chunk, size),
{
}

} // verus!
