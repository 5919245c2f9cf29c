//! Parser contexts and the entry points that parse a buffer: from memory,
//! from a terminated string, and from bytes that were read elsewhere.
//!
//! An entry point that returns a document returns its root record, or none
//! on failure; an entry point that returns a status returns `0` for success
//! and `-1` for failure. A document that is returned is exported: its
//! metadata is in the registry, under its address.

use crate::doc::{spec_duplicate, spec_slice_view, Document, XmlDocument};
use crate::extras::{spec_option_view, spec_terminator, Extras};
use crate::parser::{
    lemma_empty_input_is_refused, lemma_parse_keeps_document, parse_document_from_bytes,
    spec_parse,
};
use crate::push::{clear_push_state, PushParserTable};
use crate::registry::HandleRegistry;
use crate::tree::xmlDoc;
use vstd::prelude::*;

verus! {

/// The parse option that asks for recovery from errors. It is handed on and
/// changes nothing.
pub const XML_PARSE_RECOVER: i32 = 1;

/// The largest size that an entry point accepts for a buffer.
pub const MAX_INPUT_SIZE: usize = 0x7FFF_FFFF;

/// A set of event callbacks. None of them is ever called.
#[allow(non_camel_case_types)]
pub struct xmlSAXHandler {
    _private: usize,
}

/// A parser context.
///
/// `address` is the address of the context itself; `doc` is the root record
/// of the document that the last parse left in the context; `input` is the
/// memory that the input pointer designates and `input_size` the number of
/// bytes of it that are the input; `base_url` and `encoding` are terminated
/// strings; `sax` and `user_data` are addresses that are kept and never
/// followed.
#[allow(non_camel_case_types)]
#[allow(non_snake_case)]
pub struct xmlParserCtxt {
    pub address: usize,
    pub doc: Option<xmlDoc>,
    pub wellFormed: i32,
    pub options: i32,
    pub input: Option<Vec<u8>>,
    pub input_size: i32,
    pub base_url: Option<Vec<u8>>,
    pub encoding: Option<Vec<u8>>,
    pub sax: usize,
    pub user_data: usize,
    pub disableSAX: i32,
}

/// What a parser context holds.
pub struct ParserContext {
    pub address: usize,
    pub doc: Option<xmlDoc>,
    pub well_formed: i32,
    pub options: i32,
    pub input: Option<Seq<u8>>,
    pub input_size: i32,
    pub base_url: Option<Seq<u8>>,
    pub encoding: Option<Seq<u8>>,
    pub sax: usize,
    pub user_data: usize,
    pub disable_sax: i32,
}

impl View for xmlParserCtxt {
    type V = ParserContext;

    open spec fn view(&self) -> ParserContext {
        ParserContext {
            address: self.address,
            doc: self.doc,
            well_formed: self.wellFormed,
            options: self.options,
            input: spec_option_view(self.input),
            input_size: self.input_size,
            base_url: spec_option_view(self.base_url),
            encoding: spec_option_view(self.encoding),
            sax: self.sax,
            user_data: self.user_data,
            disable_sax: self.disableSAX,
        }
    }
}

/// Whether the first `size` bytes of `buffer` can be read: a buffer that is
/// given with a positive size has so many bytes.
pub open spec fn spec_readable(buffer: Option<Seq<u8>>, size: i32) -> bool {
    (size > 0 && buffer is Some) ==> buffer.unwrap().len() >= size
}

/// The input that a buffer and a size designate: the first `size` bytes of
/// the buffer, which for the size `0` is the empty input, whether there is a
/// buffer or not. A negative size, and a positive size with an absent
/// buffer, designate no input.
pub open spec fn spec_input_bytes(buffer: Option<Seq<u8>>, size: i32) -> Option<Seq<u8>> {
    if size < 0 || (size > 0 && buffer is None) {
        None
    } else if size == 0 {
        Some(Seq::empty())
    } else {
        Some(buffer.unwrap().subrange(0, size as int))
    }
}

/// The document that an entry point makes of a buffer and a size for the
/// address `address`, if the input is designated and well formed.
pub open spec fn spec_read_memory(
    buffer: Option<Seq<u8>>,
    size: i32,
    url: Option<Seq<u8>>,
    encoding: Option<Seq<u8>>,
    options: i32,
    address: usize,
) -> Option<Document> {
    match spec_input_bytes(buffer, size) {
        None => None,
        Some(bytes) => spec_parse(bytes, Document::spec_new(address, options, url, encoding)),
    }
}

/// A buffer of the size `0` gives no document, whatever it holds: the input
/// is empty.
pub proof fn lemma_read_memory_of_nothing(
    buffer: Option<Seq<u8>>,
    url: Option<Seq<u8>>,
    encoding: Option<Seq<u8>>,
    options: i32,
    address: usize,
)
    ensures
        spec_input_bytes(buffer, 0) == Some(Seq::<u8>::empty()),
        spec_read_memory(buffer, 0, url, encoding, options, address) is None,
{
    lemma_empty_input_is_refused(Document::spec_new(address, options, url, encoding));
}

/// A document that an entry point makes of a buffer has the address that
/// it was made for, the parse options and the source URL that were given,
/// and is registered under that address when it is exported.
pub proof fn lemma_read_memory_keeps(
    buffer: Option<Seq<u8>>,
    size: i32,
    url: Option<Seq<u8>>,
    encoding: Option<Seq<u8>>,
    options: i32,
    address: usize,
    registry: Map<usize, Extras>,
)
    requires
        spec_read_memory(buffer, size, url, encoding, options, address) is Some,
    ensures
        spec_read_memory(buffer, size, url, encoding, options, address).unwrap().record.doc
            == address,
        spec_read_memory(buffer, size, url, encoding, options, address).unwrap().record.parseFlags
            == options,
        spec_read_memory(buffer, size, url, encoding, options, address).unwrap().arena().url
            == spec_duplicate(url),
        spec_exported(registry, spec_read_memory(buffer, size, url, encoding, options, address))
            == registry.insert(
            address,
            spec_read_memory(buffer, size, url, encoding, options, address).unwrap().arena(),
        ),
        spec_exported(
            registry,
            spec_read_memory(buffer, size, url, encoding, options, address),
        ).contains_key(address),
{
    lemma_parse_keeps_document(
        spec_input_bytes(buffer, size).unwrap(),
        Document::spec_new(address, options, url, encoding),
    );
}

/// The length of the terminated string in `cur`, where it is a size that
/// the entry points accept.
pub open spec fn spec_string_size(cur: Option<Seq<u8>>) -> Option<i32> {
    match cur {
        None => None,
        Some(bytes) => if spec_terminator(bytes, 0) > MAX_INPUT_SIZE {
            None
        } else {
            Some(spec_terminator(bytes, 0) as i32)
        },
    }
}

/// The document that an entry point makes of the terminated string in `cur`.
pub open spec fn spec_read_doc(
    cur: Option<Seq<u8>>,
    url: Option<Seq<u8>>,
    encoding: Option<Seq<u8>>,
    options: i32,
    address: usize,
) -> Option<Document> {
    match spec_string_size(cur) {
        None => None,
        Some(size) => spec_read_memory(cur, size, url, encoding, options, address),
    }
}

/// The number of bytes that were read, where they were read and are a size
/// that the entry points accept.
pub open spec fn spec_contents_size(contents: Option<Seq<u8>>) -> Option<i32> {
    match contents {
        None => None,
        Some(bytes) => if bytes.len() > MAX_INPUT_SIZE {
            None
        } else {
            Some(bytes.len() as i32)
        },
    }
}

/// The document that an entry point makes of bytes that were read
/// elsewhere; `None` stands for a read that failed.
pub open spec fn spec_read_contents(
    contents: Option<Seq<u8>>,
    url: Option<Seq<u8>>,
    encoding: Option<Seq<u8>>,
    options: i32,
    address: usize,
) -> Option<Document> {
    match spec_contents_size(contents) {
        None => None,
        Some(size) => spec_read_memory(contents, size, url, encoding, options, address),
    }
}

/// The root record that is handed out for a document.
pub open spec fn spec_raw(doc: Option<Document>) -> Option<xmlDoc> {
    match doc {
        Some(parsed) => Some(parsed.record),
        None => None,
    }
}

/// The registry after a document was exported, if there is one.
pub open spec fn spec_exported(registry: Map<usize, Extras>, doc: Option<Document>) -> Map<
    usize,
    Extras,
> {
    match doc {
        Some(parsed) => parsed.spec_export(registry),
        None => registry,
    }
}

/// The registry after an exported document was released, if there is one.
pub open spec fn spec_released(registry: Map<usize, Extras>, doc: Option<xmlDoc>) -> Map<
    usize,
    Extras,
> {
    match doc {
        Some(raw) => registry.remove(raw.doc),
        None => registry,
    }
}

/// The status of an entry point that made, or did not make, a document.
pub open spec fn spec_status(doc: Option<Document>) -> i32 {
    if doc is Some {
        0i32
    } else {
        -1i32
    }
}

impl ParserContext {
    /// A context at `address` over the given input, in its initial state.
    pub open spec fn spec_new(address: usize, buffer: Option<Seq<u8>>, size: i32) -> ParserContext {
        ParserContext {
            address,
            doc: None,
            well_formed: 1,
            options: 0,
            input: buffer,
            input_size: size,
            base_url: None,
            encoding: None,
            sax: 0,
            user_data: 0,
            disable_sax: 0,
        }
    }

    /// The context with everything but its address and its document in the
    /// initial state.
    pub open spec fn spec_reset_state(self) -> ParserContext {
        ParserContext { doc: self.doc, ..ParserContext::spec_new(self.address, None, 0) }
    }

    /// The document that parsing the input of the context gives at
    /// `address`.
    pub open spec fn spec_document(self, address: usize) -> Option<Document> {
        spec_read_memory(
            self.input,
            self.input_size,
            self.base_url,
            self.encoding,
            self.options,
            address,
        )
    }

    /// The context after its input was parsed into a document at `address`:
    /// it holds the root record of the document and is marked well formed,
    /// or holds no document and is marked not well formed.
    pub open spec fn spec_parse_document(self, address: usize) -> ParserContext {
        ParserContext {
            doc: spec_raw(self.spec_document(address)),
            well_formed: if self.spec_document(address) is Some {
                1
            } else {
                0
            },
            ..self
        }
    }

    /// The context as a read through it sets it up.
    pub open spec fn spec_set_up(
        self,
        buffer: Option<Seq<u8>>,
        size: i32,
        url: Option<Seq<u8>>,
        encoding: Option<Seq<u8>>,
        options: i32,
    ) -> ParserContext {
        ParserContext {
            doc: None,
            input: buffer,
            input_size: size,
            base_url: url,
            encoding,
            options,
            ..self
        }
    }

    /// The context after a read through it: set up for the read and parsed,
    /// with the document handed out and the input forgotten.
    pub open spec fn spec_after_read(
        self,
        buffer: Option<Seq<u8>>,
        size: i32,
        url: Option<Seq<u8>>,
        encoding: Option<Seq<u8>>,
        options: i32,
        address: usize,
    ) -> ParserContext {
        ParserContext {
            doc: None,
            input: None,
            input_size: 0,
            ..self.spec_set_up(buffer, size, url, encoding, options).spec_parse_document(address)
        }
    }

    /// The context after it was stopped.
    pub open spec fn spec_stop(self) -> ParserContext {
        ParserContext { disable_sax: 2, well_formed: 0, ..self }
    }

    /// The context after it was resumed.
    pub open spec fn spec_resume(self) -> ParserContext {
        ParserContext {
            disable_sax: 0,
            well_formed: if self.well_formed == 0 {
                1
            } else {
                self.well_formed
            },
            ..self
        }
    }
}

/// What a read through a context leaves: the root record that is handed
/// out, the context and the registry.
pub struct ReadOutcome {
    pub doc: Option<xmlDoc>,
    pub ctxt: ParserContext,
    pub registry: Map<usize, Extras>,
}

/// What a read of a buffer through a context leaves.
///
/// A negative size, and a positive size with an absent buffer, are refused
/// and change nothing. Otherwise the document that the context held is
/// released, the context is set up with the arguments, and its input is
/// parsed into a document at `address`, which is exported and handed out.
pub open spec fn spec_ctxt_read_memory(
    ctxt: ParserContext,
    registry: Map<usize, Extras>,
    buffer: Option<Seq<u8>>,
    size: i32,
    url: Option<Seq<u8>>,
    encoding: Option<Seq<u8>>,
    options: i32,
    address: usize,
) -> ReadOutcome {
    if spec_valid_buffer(buffer, size) {
        let parsed = spec_read_memory(buffer, size, url, encoding, options, address);
        ReadOutcome {
            doc: spec_raw(parsed),
            ctxt: ctxt.spec_after_read(buffer, size, url, encoding, options, address),
            registry: spec_exported(spec_released(registry, ctxt.doc), parsed),
        }
    } else {
        ReadOutcome { doc: None, ctxt, registry }
    }
}

/// What a read through a context leaves where the size of the input had to
/// be found first: nothing changes where it was not found.
pub open spec fn spec_ctxt_read_sized(
    ctxt: ParserContext,
    registry: Map<usize, Extras>,
    buffer: Option<Seq<u8>>,
    size: Option<i32>,
    url: Option<Seq<u8>>,
    encoding: Option<Seq<u8>>,
    options: i32,
    address: usize,
) -> ReadOutcome {
    match size {
        None => ReadOutcome { doc: None, ctxt, registry },
        Some(found) => spec_ctxt_read_memory(
            ctxt,
            registry,
            buffer,
            found,
            url,
            encoding,
            options,
            address,
        ),
    }
}

/// Whether a buffer and a size are arguments that an entry point accepts.
pub open spec fn spec_valid_buffer(buffer: Option<Seq<u8>>, size: i32) -> bool {
    !(size < 0 || (size > 0 && buffer is None))
}

/// A copy of an optional byte string.
pub(crate) fn to_owned_option(text: Option<&[u8]>) -> (copy: Option<Vec<u8>>)
    ensures
        spec_option_view(copy) == spec_slice_view(text),
{
    match text {
        None => None,
        Some(bytes) => Some(vstd::slice::slice_to_vec(bytes)),
    }
}

/// An optional byte string as a slice.
pub(crate) fn as_slice_option(text: &Option<Vec<u8>>) -> (slice: Option<&[u8]>)
    ensures
        spec_slice_view(slice) == spec_option_view(*text),
{
    match text {
        None => None,
        Some(bytes) => Some(bytes.as_slice()),
    }
}

/// The length of the terminated string in `text`.
pub(crate) fn terminated_length(text: &[u8]) -> (len: usize)
    ensures
        len == spec_terminator(text@, 0),
        len <= text@.len(),
{
    let mut len: usize = 0;
    while len < text.len() && text[len] != 0
        invariant
            len <= text@.len(),
            spec_terminator(text@, 0) == spec_terminator(text@, len as int),
        decreases text@.len() - len,
    {
        len = len + 1;
    }
    len
}

/// The input that a buffer and a size designate.
pub fn input_bytes<'a>(buffer: Option<&'a [u8]>, size: i32) -> (bytes: Result<&'a [u8], ()>)
    requires
        spec_readable(spec_slice_view(buffer), size),
    ensures
        bytes is Ok <==> spec_valid_buffer(spec_slice_view(buffer), size),
        match spec_input_bytes(spec_slice_view(buffer), size) {
            Some(input) => bytes is Ok && bytes.unwrap()@ == input,
            None => bytes is Err,
        },
{
    if size < 0 {
        return Err(());
    }
    if size == 0 {
        let nothing: &'a [u8] = &[];
        assert(nothing@ =~= Seq::<u8>::empty());
        return Ok(nothing);
    }
    match buffer {
        None => Err(()),
        Some(memory) => Ok(vstd::slice::slice_subrange(memory, 0, size as usize)),
    }
}

/// A context at `address` over the given input, in its initial state.
pub fn new_parser_context(address: usize, buffer: Option<&[u8]>, size: i32) -> (ctxt: xmlParserCtxt)
    ensures
        ctxt@ == ParserContext::spec_new(address, spec_slice_view(buffer), size),
{
    xmlParserCtxt {
        address,
        doc: None,
        wellFormed: 1,
        options: 0,
        input: to_owned_option(buffer),
        input_size: size,
        base_url: None,
        encoding: None,
        sax: 0,
        user_data: 0,
        disableSAX: 0,
    }
}

/// Puts everything but the address and the document of the context in the
/// initial state.
pub fn reset_context_state(ctxt: &mut xmlParserCtxt)
    ensures
        final(ctxt)@ == old(ctxt)@.spec_reset_state(),
{
    ctxt.wellFormed = 1;
    ctxt.options = 0;
    ctxt.input = None;
    ctxt.input_size = 0;
    ctxt.base_url = None;
    ctxt.encoding = None;
    ctxt.sax = 0;
    ctxt.user_data = 0;
    ctxt.disableSAX = 0;
}

/// Releases the document that the context holds, if any.
pub fn reset_context_doc(ctxt: &mut xmlParserCtxt, registry: &mut HandleRegistry)
    ensures
        final(ctxt)@ == (ParserContext { doc: None, ..old(ctxt)@ }),
        final(registry)@ == spec_released(old(registry)@, old(ctxt)@.doc),
{
    if ctxt.doc.is_none() {
        return ;
    }
    if let Some(doc) = XmlDocument::from_raw(ctxt.doc, registry) {
        doc.release(registry);
    }
    ctxt.doc = None;
}

/// Takes the document of a finished parse out of the context. The document
/// is handed out where the parse succeeded and the context is marked well
/// formed; else it is released.
pub fn finalize_context_parse(
    ctxt: &mut xmlParserCtxt,
    parse_rc: i32,
    registry: &mut HandleRegistry,
) -> (doc: Option<xmlDoc>)
    ensures
        final(ctxt)@ == (ParserContext { doc: None, ..old(ctxt)@ }),
        doc == if parse_rc != 0 || old(ctxt)@.well_formed == 0 {
            None
        } else {
            old(ctxt)@.doc
        },
        final(registry)@ == if doc is None {
            spec_released(old(registry)@, old(ctxt)@.doc)
        } else {
            old(registry)@
        },
{
    let well_formed = ctxt.wellFormed;
    let doc_ptr = ctxt.doc;
    ctxt.doc = None;
    if parse_rc != 0 || well_formed == 0 || doc_ptr.is_none() {
        if let Some(doc) = XmlDocument::from_raw(doc_ptr, registry) {
            doc.release(registry);
        }
        return None;
    }
    doc_ptr
}

/// Allocates a context at `address` in its initial state.
#[allow(non_snake_case)]
pub fn xmlNewParserCtxt(address: usize) -> (ctxt: Option<xmlParserCtxt>)
    ensures
        ctxt is Some,
        ctxt.unwrap()@ == ParserContext::spec_new(address, None, 0),
{
    let mut ctxt = new_parser_context(address, None, 0);
    reset_context_state(&mut ctxt);
    Some(ctxt)
}

/// Puts a context back in its initial state and releases the document that
/// it holds. An absent context is refused.
#[allow(non_snake_case)]
pub fn xmlInitParserCtxt(ctxt: Option<&mut xmlParserCtxt>, registry: &mut HandleRegistry) -> (rc: i32)
    ensures
        rc == if ctxt is Some {
            0int
        } else {
            -1int
        },
        ctxt is None ==> final(registry)@ == old(registry)@,
        ctxt matches Some(c) ==> final(c)@ == ParserContext::spec_new(c@.address, None, 0)
            && final(registry)@ == spec_released(old(registry)@, c@.doc),
{
    match ctxt {
        None => -1,
        Some(ctxt_ref) => {
            reset_context_doc(ctxt_ref, registry);
            reset_context_state(ctxt_ref);
            0
        },
    }
}

/// Puts a context back in its initial state, releases the document that it
/// holds and forgets the chunks that were fed to it. An absent context is
/// ignored.
#[allow(non_snake_case)]
pub fn xmlClearParserCtxt(
    ctxt: Option<&mut xmlParserCtxt>,
    registry: &mut HandleRegistry,
    table: &mut PushParserTable,
)
    ensures
        ctxt is None ==> final(registry)@ == old(registry)@ && final(table)@ == old(table)@,
        ctxt matches Some(c) ==> final(c)@ == ParserContext::spec_new(c@.address, None, 0)
            && final(registry)@ == spec_released(old(registry)@, c@.doc) && final(table)@
            == old(table)@.remove(c@.address),
{
    match ctxt {
        None => {},
        Some(ctxt_ref) => {
            reset_context_doc(ctxt_ref, registry);
            reset_context_state(ctxt_ref);
            clear_push_state(table, Some(ctxt_ref.address));
        },
    }
}

/// Allocates a context at `address` over a buffer. A negative size, and a
/// positive size with an absent buffer, give no context.
#[allow(non_snake_case)]
pub fn xmlCreateMemoryParserCtxt(address: usize, buffer: Option<&[u8]>, size: i32) -> (ctxt: Option<
    xmlParserCtxt,
>)
    ensures
        ctxt is Some <==> spec_valid_buffer(spec_slice_view(buffer), size),
        ctxt matches Some(c) ==> c@ == ParserContext::spec_new(address, spec_slice_view(buffer), size),
{
    if size < 0 || (size > 0 && buffer.is_none()) {
        return None;
    }
    Some(new_parser_context(address, buffer, size))
}

/// Allocates a context at `address` over a terminated string. An absent
/// string, and a string that is longer than the largest size, give no
/// context.
#[allow(non_snake_case)]
pub fn xmlCreateDocParserCtxt(address: usize, cur: Option<&[u8]>) -> (ctxt: Option<xmlParserCtxt>)
    ensures
        ctxt is Some <==> spec_string_size(spec_slice_view(cur)) is Some,
        ctxt matches Some(c) ==> c@ == ParserContext::spec_new(
            address,
            spec_slice_view(cur),
            spec_string_size(spec_slice_view(cur)).unwrap(),
        ),
{
    let text = match cur {
        None => {
            return None;
        },
        Some(text) => text,
    };
    let len = terminated_length(text);
    if len > MAX_INPUT_SIZE {
        return None;
    }
    let mut ctxt = match xmlNewParserCtxt(address) {
        None => {
            return None;
        },
        Some(ctxt) => ctxt,
    };
    ctxt.input = to_owned_option(cur);
    ctxt.input_size = len as i32;
    Some(ctxt)
}

/// Parses the input of a context into a new document at `address`.
///
/// The document that the context held is released first. On success the
/// context holds the root record of the new document, which is exported,
/// and is marked well formed; on failure it holds none and is marked not
/// well formed. An absent context is refused.
#[allow(non_snake_case)]
pub fn xmlParseDocument(
    ctxt: Option<&mut xmlParserCtxt>,
    address: usize,
    registry: &mut HandleRegistry,
) -> (rc: i32)
    requires
        ctxt matches Some(c) ==> spec_readable(c@.input, c@.input_size),
    ensures
        ctxt is None ==> rc == -1 && final(registry)@ == old(registry)@,
        ctxt matches Some(c) ==> {
            &&& rc == spec_status(c@.spec_document(address))
            &&& final(c)@ == c@.spec_parse_document(address)
            &&& final(registry)@ == spec_exported(
                spec_released(old(registry)@, c@.doc),
                c@.spec_document(address),
            )
            &&& final(c)@.doc matches Some(raw) ==> raw.doc == address && raw.parseFlags
                == c@.options && final(registry)@.contains_key(address)
        },
{
    let ctxt_ref = match ctxt {
        None => {
            return -1;
        },
        Some(ctxt_ref) => ctxt_ref,
    };
    proof {
        if ctxt_ref@.spec_document(address) is Some {
            lemma_read_memory_keeps(
                ctxt_ref@.input,
                ctxt_ref@.input_size,
                ctxt_ref@.base_url,
                ctxt_ref@.encoding,
                ctxt_ref@.options,
                address,
                spec_released(old(registry)@, ctxt_ref@.doc),
            );
        }
    }
    reset_context_doc(ctxt_ref, registry);
    let parsed = match input_bytes(as_slice_option(&ctxt_ref.input), ctxt_ref.input_size) {
        Err(()) => Err(()),
        Ok(bytes) => parse_document_from_bytes(
            address,
            bytes,
            ctxt_ref.options,
            as_slice_option(&ctxt_ref.base_url),
            as_slice_option(&ctxt_ref.encoding),
        ),
    };
    match parsed {
        Ok(doc) => {
            ctxt_ref.doc = Some(doc.into_raw(registry));
            ctxt_ref.wellFormed = 1;
            0
        },
        Err(()) => {
            ctxt_ref.wellFormed = 0;
            -1
        },
    }
}

/// Destroys a context: the document that it holds is released and the
/// chunks that were fed to it are forgotten. An absent context is ignored.
#[allow(non_snake_case)]
pub fn xmlFreeParserCtxt(
    ctxt: Option<xmlParserCtxt>,
    registry: &mut HandleRegistry,
    table: &mut PushParserTable,
)
    ensures
        ctxt is None ==> final(registry)@ == old(registry)@ && final(table)@ == old(table)@,
        ctxt matches Some(c) ==> final(registry)@ == spec_released(old(registry)@, c@.doc),
        ctxt matches Some(c) ==> final(table)@ == old(table)@.remove(c@.address),
{
    match ctxt {
        None => {},
        Some(owned) => {
            let mut ctxt = owned;
            reset_context_doc(&mut ctxt, registry);
            clear_push_state(table, Some(ctxt.address));
        },
    }
}

/// Parses a buffer through a context into a new document at `address` and
/// hands the document out.
///
/// An absent context, a negative size, and a positive size with an absent
/// buffer are refused and change nothing. Otherwise the document that the
/// context held is released and the context is set up with the arguments;
/// afterwards it holds no document and no input.
#[allow(non_snake_case)]
pub fn xmlCtxtReadMemory(
    ctxt: Option<&mut xmlParserCtxt>,
    buffer: Option<&[u8]>,
    size: i32,
    url: Option<&[u8]>,
    encoding: Option<&[u8]>,
    options: i32,
    address: usize,
    registry: &mut HandleRegistry,
) -> (doc: Option<xmlDoc>)
    requires
        spec_readable(spec_slice_view(buffer), size),
    ensures
        match ctxt {
            Some(c) => {
                let outcome = spec_ctxt_read_memory(
                    c@,
                    old(registry)@,
                    spec_slice_view(buffer),
                    size,
                    spec_slice_view(url),
                    spec_slice_view(encoding),
                    options,
                    address,
                );
                doc == outcome.doc && final(c)@ == outcome.ctxt && final(registry)@
                    == outcome.registry
            },
            None => doc is None && final(registry)@ == old(registry)@,
        },
        doc matches Some(raw) ==> raw.doc == address && raw.parseFlags == options && final(registry)@.contains_key(address),
{
    let ctxt_ref = match ctxt {
        None => {
            return None;
        },
        Some(ctxt_ref) => ctxt_ref,
    };
    if size < 0 || (size > 0 && buffer.is_none()) {
        return None;
    }
    proof {
        if spec_read_memory(
            spec_slice_view(buffer),
            size,
            spec_slice_view(url),
            spec_slice_view(encoding),
            options,
            address,
        ) is Some {
            lemma_read_memory_keeps(
                spec_slice_view(buffer),
                size,
                spec_slice_view(url),
                spec_slice_view(encoding),
                options,
                address,
                spec_released(old(registry)@, ctxt_ref@.doc),
            );
        }
    }
    reset_context_doc(ctxt_ref, registry);
    ctxt_ref.input = to_owned_option(buffer);
    ctxt_ref.input_size = size;
    ctxt_ref.base_url = to_owned_option(url);
    ctxt_ref.encoding = to_owned_option(encoding);
    ctxt_ref.options = options;
    let parse_rc = xmlParseDocument(Some(&mut *ctxt_ref), address, registry);
    let doc = finalize_context_parse(ctxt_ref, parse_rc, registry);
    ctxt_ref.input = None;
    ctxt_ref.input_size = 0;
    doc
}

/// Parses a terminated string through a context into a new document at
/// `address` and hands the document out. An absent string, and a string
/// that is longer than the largest size, are refused and change nothing.
#[allow(non_snake_case)]
pub fn xmlCtxtReadDoc(
    ctxt: Option<&mut xmlParserCtxt>,
    cur: Option<&[u8]>,
    url: Option<&[u8]>,
    encoding: Option<&[u8]>,
    options: i32,
    address: usize,
    registry: &mut HandleRegistry,
) -> (doc: Option<xmlDoc>)
    ensures
        match ctxt {
            Some(c) => {
                let outcome = spec_ctxt_read_sized(
                    c@,
                    old(registry)@,
                    spec_slice_view(cur),
                    spec_string_size(spec_slice_view(cur)),
                    spec_slice_view(url),
                    spec_slice_view(encoding),
                    options,
                    address,
                );
                doc == outcome.doc && final(c)@ == outcome.ctxt && final(registry)@
                    == outcome.registry
            },
            None => doc is None && final(registry)@ == old(registry)@,
        },
{
    let text = match cur {
        None => {
            return None;
        },
        Some(text) => text,
    };
    let len = terminated_length(text);
    if len > MAX_INPUT_SIZE {
        return None;
    }
    xmlCtxtReadMemory(ctxt, cur, len as i32, url, encoding, options, address, registry)
}

/// Parses bytes that were read elsewhere through a context.
fn ctxt_read_contents(
    ctxt: Option<&mut xmlParserCtxt>,
    contents: Option<&[u8]>,
    url: Option<&[u8]>,
    encoding: Option<&[u8]>,
    options: i32,
    address: usize,
    registry: &mut HandleRegistry,
) -> (doc: Option<xmlDoc>)
    ensures
        match ctxt {
            Some(c) => {
                let outcome = spec_ctxt_read_sized(
                    c@,
                    old(registry)@,
                    spec_slice_view(contents),
                    spec_contents_size(spec_slice_view(contents)),
                    spec_slice_view(url),
                    spec_slice_view(encoding),
                    options,
                    address,
                );
                doc == outcome.doc && final(c)@ == outcome.ctxt && final(registry)@
                    == outcome.registry
            },
            None => doc is None && final(registry)@ == old(registry)@,
        },
{
    let buffer = match contents {
        None => {
            return None;
        },
        Some(buffer) => buffer,
    };
    if buffer.len() > MAX_INPUT_SIZE {
        return None;
    }
    xmlCtxtReadMemory(ctxt, contents, buffer.len() as i32, url, encoding, options, address, registry)
}

/// Parses the contents of a file through a context into a new document at
/// `address` and hands the document out. `contents` is what reading the
/// file gave, or none where the file could not be read; the name of the
/// file becomes the source URL of the document.
#[allow(non_snake_case)]
pub fn xmlCtxtReadFile(
    ctxt: Option<&mut xmlParserCtxt>,
    contents: Option<&[u8]>,
    filename: Option<&[u8]>,
    encoding: Option<&[u8]>,
    options: i32,
    address: usize,
    registry: &mut HandleRegistry,
) -> (doc: Option<xmlDoc>)
    ensures
        match ctxt {
            Some(c) => {
                let outcome = spec_ctxt_read_sized(
                    c@,
                    old(registry)@,
                    spec_slice_view(contents),
                    spec_contents_size(spec_slice_view(contents)),
                    spec_slice_view(filename),
                    spec_slice_view(encoding),
                    options,
                    address,
                );
                doc == outcome.doc && final(c)@ == outcome.ctxt && final(registry)@
                    == outcome.registry
            },
            None => doc is None && final(registry)@ == old(registry)@,
        },
{
    ctxt_read_contents(ctxt, contents, filename, encoding, options, address, registry)
}

/// Parses what was read from a file descriptor through a context into a
/// new document at `address` and hands the document out. `contents` is what
/// reading the descriptor gave, or none where it could not be read. A
/// negative descriptor is refused and changes nothing.
#[allow(non_snake_case)]
pub fn xmlCtxtReadFd(
    ctxt: Option<&mut xmlParserCtxt>,
    fd: i32,
    contents: Option<&[u8]>,
    url: Option<&[u8]>,
    encoding: Option<&[u8]>,
    options: i32,
    address: usize,
    registry: &mut HandleRegistry,
) -> (doc: Option<xmlDoc>)
    ensures
        match ctxt {
            Some(c) => {
                let outcome = spec_ctxt_read_sized(
                    c@,
                    old(registry)@,
                    spec_slice_view(contents),
                    if fd < 0 {
                        None
                    } else {
                        spec_contents_size(spec_slice_view(contents))
                    },
                    spec_slice_view(url),
                    spec_slice_view(encoding),
                    options,
                    address,
                );
                doc == outcome.doc && final(c)@ == outcome.ctxt && final(registry)@
                    == outcome.registry
            },
            None => doc is None && final(registry)@ == old(registry)@,
        },
{
    if fd < 0 {
        return None;
    }
    ctxt_read_contents(ctxt, contents, url, encoding, options, address, registry)
}

/// Parses what a byte stream gave through a context into a new document at
/// `address` and hands the document out. `contents` is what reading the
/// stream to its end gave, or none where reading failed.
#[allow(non_snake_case)]
pub fn xmlCtxtReadIO(
    ctxt: Option<&mut xmlParserCtxt>,
    contents: Option<&[u8]>,
    url: Option<&[u8]>,
    encoding: Option<&[u8]>,
    options: i32,
    address: usize,
    registry: &mut HandleRegistry,
) -> (doc: Option<xmlDoc>)
    ensures
        match ctxt {
            Some(c) => {
                let outcome = spec_ctxt_read_sized(
                    c@,
                    old(registry)@,
                    spec_slice_view(contents),
                    spec_contents_size(spec_slice_view(contents)),
                    spec_slice_view(url),
                    spec_slice_view(encoding),
                    options,
                    address,
                );
                doc == outcome.doc && final(c)@ == outcome.ctxt && final(registry)@
                    == outcome.registry
            },
            None => doc is None && final(registry)@ == old(registry)@,
        },
{
    ctxt_read_contents(ctxt, contents, url, encoding, options, address, registry)
}

} // verus!
