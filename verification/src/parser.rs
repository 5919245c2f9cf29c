//! The parser engine: one pass over a byte buffer that fills a document and
//! accepts the buffer only where it is well formed.
//!
//! What the parser does is stated as a function on states: `spec_parse` says
//! which document a buffer gives, `spec_step` what one construct does to the
//! document under construction, and the executable parser is proved to
//! compute them.

use crate::ascii::{
    bytes_equal, BANG, EQUALS, GREATER_THAN, HYPHEN, LESS_THAN, QUESTION, SLASH,
};
use crate::doc::{spec_slice_view, Document, XmlDocument};
use crate::entities::{decode_entities, spec_decode_entities, spec_find_byte};
use crate::extras::{c_string_bytes, spec_c_string_bytes, Extras};
use crate::grammar::{
    is_name_char, is_name_start, is_whitespace, lemma_find_pattern, lemma_name_value,
    lemma_parse_attributes, lemma_skip_whitespace, spec_find_pattern, spec_name_end,
    spec_name_value, spec_parse_attributes, spec_parse_name, spec_quoted_value,
    spec_skip_whitespace, spec_starts_with, spec_strip_utf8_bom, strip_utf8_bom,
};
use crate::links::{
    lemma_chain_extend, lemma_chain_push, lemma_tail_is, spec_attr_links, spec_chain_ends,
    spec_chain_fuel, spec_chain_tail, spec_tail,
};
use crate::shape::{
    lemma_attach_child_linked, lemma_attached_top_elements, lemma_attr_value_shape,
    lemma_kept_top_elements, lemma_push_attr_shape, lemma_push_linked,
    lemma_attached_tops_listed, lemma_kept_tops_listed, lemma_same_links_detached,
    lemma_same_links_linked, lemma_same_properties_shape, spec_attr_points_to,
    spec_attr_unlinked, spec_kept, spec_same_links, spec_top_elements, spec_tops_listed,
};
use crate::tree::{xmlAttr, xmlDoc, xmlElementType, xmlNode};
use vstd::prelude::*;

verus! {

/// The bytes of `<!--`.
pub open spec fn spec_comment_open() -> Seq<u8> {
    seq![LESS_THAN, BANG, HYPHEN, HYPHEN]
}

/// The bytes of `-->`.
pub open spec fn spec_comment_close() -> Seq<u8> {
    seq![HYPHEN, HYPHEN, GREATER_THAN]
}

/// The bytes of `<?`.
pub open spec fn spec_instruction_open() -> Seq<u8> {
    seq![LESS_THAN, QUESTION]
}

/// The bytes of `?>`.
pub open spec fn spec_instruction_close() -> Seq<u8> {
    seq![QUESTION, GREATER_THAN]
}

/// The bytes of `</`.
pub open spec fn spec_end_tag_open() -> Seq<u8> {
    seq![LESS_THAN, SLASH]
}

/// The bytes of `<?xml`.
pub open spec fn spec_declaration_open() -> Seq<u8> {
    seq![LESS_THAN, QUESTION, 0x78u8, 0x6Du8, 0x6Cu8]
}

/// The bytes of `version`.
pub open spec fn spec_name_version() -> Seq<u8> {
    seq![0x76u8, 0x65u8, 0x72u8, 0x73u8, 0x69u8, 0x6Fu8, 0x6Eu8]
}

/// The bytes of `encoding`.
pub open spec fn spec_name_encoding() -> Seq<u8> {
    seq![0x65u8, 0x6Eu8, 0x63u8, 0x6Fu8, 0x64u8, 0x69u8, 0x6Eu8, 0x67u8]
}

/// The state of a parse: the position in the buffer, the document built so
/// far, the open elements from the outermost to the innermost, and the
/// number of top-level elements seen.
pub struct ParseState {
    pub pos: int,
    pub doc: Document,
    pub stack: Seq<usize>,
    pub root_count: nat,
}

/// The innermost open element, if any.
pub open spec fn spec_top(stack: Seq<usize>) -> Option<usize> {
    if stack.len() > 0 {
        Some(stack.last())
    } else {
        None
    }
}

/// The name of a node as read back from its stored, terminated name; empty
/// for an absent node and for a node without a name.
pub open spec fn spec_node_name_bytes(doc: Document, node: Option<usize>) -> Seq<u8> {
    match node {
        None => Seq::empty(),
        Some(slot) => match doc.arena().nodes[slot as int].name {
            None => Seq::empty(),
            Some(name) => spec_c_string_bytes(doc.arena().strings[name as int]),
        },
    }
}

/// The document after one attribute with the given name and decoded value
/// was allocated and appended to `element`. A value that is not empty is
/// kept in a text node of its own, which becomes the only child of the
/// attribute.
pub open spec fn spec_attach_attribute(
    doc: Document,
    element: usize,
    name: Seq<u8>,
    value: Seq<u8>,
) -> Document {
    let attr = doc.arena().attrs.len() as usize;
    let named = doc.spec_alloc_attribute(name);
    let valued = if value.len() > 0 {
        let child = named.arena().nodes.len() as usize;
        let stored = named.spec_alloc_text_node(value, xmlElementType::TextNode);
        let alone = stored.with_nodes(
            stored.arena().nodes.update(
                child as int,
                xmlNode { parent: None, next: None, prev: None, ..stored.arena().nodes[child as int] },
            ),
        );
        alone.with_arena(
            Extras {
                attrs: alone.arena().attrs.update(
                    attr as int,
                    xmlAttr {
                        children: Some(child),
                        last: Some(child),
                        ..alone.arena().attrs[attr as int]
                    },
                ),
                ..alone.arena()
            },
        )
    } else {
        named
    };
    valued.spec_append_attribute(element, attr)
}

/// The document after the attributes from index `from` on were allocated
/// and appended to `element`, in their order.
pub open spec fn spec_attach_attributes(
    doc: Document,
    element: usize,
    attrs: Seq<(Seq<u8>, Seq<u8>)>,
    from: int,
) -> Document
    decreases attrs.len() - from,
{
    if from < 0 || from >= attrs.len() {
        doc
    } else {
        spec_attach_attributes(
            spec_attach_attribute(doc, element, attrs[from].0, attrs[from].1),
            element,
            attrs,
            from + 1,
        )
    }
}

/// The document after one pseudo-attribute of the XML declaration was seen:
/// `version` and `encoding` are declared, any other name is ignored.
pub open spec fn spec_declare(doc: Document, name: Seq<u8>, value: Seq<u8>) -> Document {
    if name == spec_name_version() {
        doc.spec_set_version_bytes(value)
    } else if name == spec_name_encoding() {
        doc.spec_set_encoding_bytes(value)
    } else {
        doc
    }
}

/// The document after the pseudo-attributes of the XML declaration from
/// `pos` on, and the position behind the `?>` that ends them.
pub open spec fn spec_declaration_attributes(data: Seq<u8>, pos: int, doc: Document) -> Option<
    (Document, int),
>
    decreases data.len() - pos,
{
    let at = spec_skip_whitespace(data, pos);
    if pos < 0 {
        None
    } else if spec_starts_with(data, at, spec_instruction_close()) {
        Some((doc, at + 2))
    } else {
        match spec_name_value(data, at) {
            None => None,
            Some(pair) => if pair.next > pos {
                spec_declaration_attributes(data, pair.next, spec_declare(doc, pair.name, pair.value))
            } else {
                None
            },
        }
    }
}

/// The document after the XML declaration at `pos`, if there is one, and
/// the position behind it. Input that does not start with `<?xml` has no
/// declaration and is left where it is.
pub open spec fn spec_parse_xml_declaration(data: Seq<u8>, pos: int, doc: Document) -> Option<
    (Document, int),
> {
    if spec_starts_with(data, pos, spec_declaration_open()) {
        spec_declaration_attributes(data, pos + 5, doc)
    } else {
        Some((doc, pos))
    }
}

/// The state after the comment at the position of `st`: the text between
/// `<!--` and the first `-->` behind it becomes, undecoded, a comment node
/// under the innermost open element. `None` where the comment does not end.
pub open spec fn spec_parse_comment(data: Seq<u8>, st: ParseState) -> Option<ParseState> {
    if !spec_starts_with(data, st.pos, spec_comment_open()) {
        None
    } else {
        let start = st.pos + 4;
        let end = spec_find_pattern(data, start, spec_comment_close());
        if end >= data.len() {
            None
        } else {
            let node = st.doc.arena().nodes.len() as usize;
            Some(
                ParseState {
                    pos: end + 3,
                    doc: st.doc.spec_alloc_text_node(
                        data.subrange(start, end),
                        xmlElementType::CommentNode,
                    ).spec_attach_child(spec_top(st.stack), node),
                    ..st
                },
            )
        }
    }
}

/// The state after the processing instruction at the position of `st`: the
/// input up to the first `?>` behind the `<?` is passed over and the
/// document stays as it is. `None` where the instruction does not end.
pub open spec fn spec_parse_processing_instruction(data: Seq<u8>, st: ParseState) -> Option<
    ParseState,
> {
    if !spec_starts_with(data, st.pos, spec_instruction_open()) {
        None
    } else {
        let end = spec_find_pattern(data, st.pos + 2, spec_instruction_close());
        if end >= data.len() {
            None
        } else {
            Some(ParseState { pos: end + 2, ..st })
        }
    }
}

/// The state after the end-tag at the position of `st`: `</`, a name,
/// optional white space and `>`. The innermost open element is closed.
/// `None` where the tag is malformed, where no element is open, or where
/// the name differs from the name of the innermost open element.
pub open spec fn spec_parse_end_element(data: Seq<u8>, st: ParseState) -> Option<ParseState> {
    if !spec_starts_with(data, st.pos, spec_end_tag_open()) {
        None
    } else {
        match spec_parse_name(data, st.pos + 2) {
            None => None,
            Some((name, after_name)) => {
                let close = spec_skip_whitespace(data, after_name);
                if close < data.len() && data[close] == GREATER_THAN && st.stack.len() > 0
                    && spec_node_name_bytes(st.doc, Some(st.stack.last())) == name {
                    Some(ParseState { pos: close + 1, stack: st.stack.drop_last(), ..st })
                } else {
                    None
                }
            },
        }
    }
}

/// The state after the start-tag at the position of `st`: `<`, a name,
/// attributes, and `>` or `/>`. The element is allocated, gets its
/// attributes and becomes the last child of the innermost open element, or
/// a top-level node where none is open; unless the tag ends in `/>` the
/// element is then the innermost open element. `None` where the tag is
/// malformed and where the element would be the second top-level element.
pub open spec fn spec_parse_start_element(data: Seq<u8>, st: ParseState) -> Option<ParseState> {
    if !(0 <= st.pos < data.len() && data[st.pos] == LESS_THAN) {
        None
    } else {
        match spec_parse_name(data, st.pos + 1) {
            None => None,
            Some((name, after_name)) => match spec_parse_attributes(data, after_name) {
                None => None,
                Some((attrs, at)) => {
                    let empty = data[at] == SLASH;
                    let close = if empty {
                        at + 1
                    } else {
                        at
                    };
                    let parent = spec_top(st.stack);
                    let root_count = if parent is None {
                        st.root_count + 1
                    } else {
                        st.root_count
                    };
                    if !(close < data.len() && data[close] == GREATER_THAN) || root_count > 1 {
                        None
                    } else {
                        let node = st.doc.arena().nodes.len() as usize;
                        Some(
                            ParseState {
                                pos: close + 1,
                                doc: spec_attach_attributes(
                                    st.doc.spec_alloc_element(name),
                                    node,
                                    attrs,
                                    0,
                                ).spec_attach_child(parent, node),
                                stack: if empty {
                                    st.stack
                                } else {
                                    st.stack.push(node)
                                },
                                root_count,
                            },
                        )
                    }
                },
            },
        }
    }
}

/// The state after the text run at the position of `st`: the input up to
/// the next `<`, with its entity references decoded, becomes a text node
/// under the innermost open element; a run that decodes to nothing leaves
/// no node. `None` where the run does not decode.
pub open spec fn spec_parse_text_node(data: Seq<u8>, st: ParseState) -> Option<ParseState> {
    let end = spec_find_byte(data, st.pos, LESS_THAN);
    if end <= st.pos {
        Some(st)
    } else {
        match spec_decode_entities(data.subrange(st.pos, end)) {
            None => None,
            Some(decoded) => if decoded.len() == 0 {
                Some(ParseState { pos: end, ..st })
            } else {
                let node = st.doc.arena().nodes.len() as usize;
                Some(
                    ParseState {
                        pos: end,
                        doc: st.doc.spec_alloc_text_node(
                            decoded,
                            xmlElementType::TextNode,
                        ).spec_attach_child(spec_top(st.stack), node),
                        ..st
                    },
                )
            },
        }
    }
}

/// The state after the construct at the position of `st`, chosen by what
/// the input holds there: a comment at `<!--`, a processing instruction at
/// `<?`, an end-tag at `</`, a start-tag at any other `<`, and a text run
/// elsewhere.
#[verifier::opaque]
pub open spec fn spec_step(data: Seq<u8>, st: ParseState) -> Option<ParseState> {
    if spec_starts_with(data, st.pos, spec_comment_open()) {
        spec_parse_comment(data, st)
    } else if spec_starts_with(data, st.pos, spec_instruction_open()) {
        spec_parse_processing_instruction(data, st)
    } else if spec_starts_with(data, st.pos, spec_end_tag_open()) {
        spec_parse_end_element(data, st)
    } else if 0 <= st.pos < data.len() && data[st.pos] == LESS_THAN {
        spec_parse_start_element(data, st)
    } else {
        spec_parse_text_node(data, st)
    }
}

/// The state at the end of the input, reached from `st` by passing over
/// white space and taking one construct after the other. `None` where a
/// construct is refused.
#[verifier::opaque]
pub open spec fn spec_run(data: Seq<u8>, st: ParseState) -> Option<ParseState>
    decreases data.len() - st.pos,
{
    let at = spec_skip_whitespace(data, st.pos);
    if st.pos < 0 || st.pos >= data.len() || at >= data.len() {
        Some(ParseState { pos: data.len() as int, ..st })
    } else {
        match spec_step(data, ParseState { pos: at, ..st }) {
            None => None,
            Some(next) => if st.pos < next.pos <= data.len() {
                spec_run(data, next)
            } else {
                None
            },
        }
    }
}

/// A run from a state with nothing but white space ahead ends in that state,
/// moved to the end of the input.
pub proof fn lemma_run_end(data: Seq<u8>, st: ParseState)
    requires
        0 <= st.pos <= data.len(),
        spec_skip_whitespace(data, st.pos) >= data.len(),
    ensures
        spec_run(data, st) == Some(ParseState { pos: data.len() as int, ..st }),
{
    reveal(spec_run);
}

/// A run from a state with a construct ahead takes the construct and goes
/// on from the state behind it, or is refused with the construct.
pub proof fn lemma_run_step(data: Seq<u8>, st: ParseState)
    requires
        0 <= st.pos <= data.len(),
        spec_skip_whitespace(data, st.pos) < data.len(),
    ensures
        spec_run(data, st) == match spec_step(
            data,
            ParseState { pos: spec_skip_whitespace(data, st.pos), ..st },
        ) {
            None => None,
            Some(next) => if st.pos < next.pos <= data.len() {
                spec_run(data, next)
            } else {
                None
            },
        },
{
    reveal(spec_run);
    lemma_skip_whitespace(data, st.pos);
}

/// The document of a run that was not refused, where exactly one top-level
/// element was seen and no element is left open.
pub open spec fn spec_accept(end: Option<ParseState>) -> Option<Document> {
    match end {
        None => None,
        Some(state) => if state.root_count == 1 && state.stack.len() == 0 {
            Some(state.doc)
        } else {
            None
        },
    }
}

/// The document that the buffer `bytes` gives when it is parsed into `doc`.
///
/// A leading byte-order mark is dropped and the tree of `doc` is cleared.
/// After optional white space and an optional XML declaration the
/// constructs are taken one after the other. The buffer is accepted where
/// none of them is refused, exactly one top-level element was seen and no
/// element is left open.
pub open spec fn spec_parse(bytes: Seq<u8>, doc: Document) -> Option<Document> {
    let data = spec_strip_utf8_bom(bytes);
    match spec_parse_xml_declaration(data, spec_skip_whitespace(data, 0), doc.spec_clear_tree()) {
        None => None,
        Some((declared, pos)) => spec_accept(
            spec_run(data, ParseState { pos, doc: declared, stack: Seq::empty(), root_count: 0 }),
        ),
    }
}


/// A name and a decoded value, as read from a start-tag.
pub type AttributeRecord = (Vec<u8>, Vec<u8>);

/// The names and values of a list of attribute records.
pub open spec fn spec_records(records: Seq<AttributeRecord>) -> Seq<(Seq<u8>, Seq<u8>)> {
    records.map_values(|record: AttributeRecord| (record.0@, record.1@))
}

/// Whether a document can be built on while the elements of `stack` are
/// open: it has its arenas, is well formed and in shape, and the open
/// elements are nodes of it.
pub open spec fn spec_building(doc: Document, stack: Seq<usize>) -> bool {
    &&& spec_sound(doc)
    &&& forall|i: int| 0 <= i < stack.len() ==> (#[trigger] stack[i]) < doc.arena().nodes.len()
}

/// `prefix` followed by the attributes that are still to come, where they
/// parse.
pub open spec fn spec_prepend_attributes(
    prefix: Seq<(Seq<u8>, Seq<u8>)>,
    rest: Option<(Seq<(Seq<u8>, Seq<u8>)>, int)>,
) -> Option<(Seq<(Seq<u8>, Seq<u8>)>, int)> {
    match rest {
        Some((attrs, end)) => Some((prefix + attrs, end)),
        None => None,
    }
}

/// The cursor of one parse: the input, the position in it, the open
/// elements and the number of top-level elements seen.
pub struct SimpleParser<'a> {
    data: &'a [u8],
    pos: usize,
    stack: Vec<usize>,
    root_count: usize,
}

impl<'a> SimpleParser<'a> {
    /// The input.
    pub closed spec fn input(&self) -> Seq<u8> {
        self.data@
    }

    /// The state of the parse, with `doc` as the document built so far.
    pub closed spec fn state(&self, doc: Document) -> ParseState {
        ParseState {
            pos: self.pos as int,
            doc,
            stack: self.stack@,
            root_count: self.root_count as nat,
        }
    }

    /// Whether the cursor lies inside the input and at most one top-level
    /// element was seen.
    pub closed spec fn wf(&self) -> bool {
        self.pos <= self.data@.len() <= usize::MAX && self.root_count <= 1
    }

    /// Whether `self` differs from `before` in its position only.
    spec fn moved_from(&self, before: &Self) -> bool {
        &&& self.data@ == before.data@
        &&& self.stack@ == before.stack@
        &&& self.root_count == before.root_count
        &&& self.wf()
    }

    /// Whether `self` and `doc` are what a construct leaves that takes the
    /// state `before` to `expected`, and `result` says whether it was
    /// accepted.
    spec fn outcome(
        &self,
        doc: Document,
        before: &Self,
        expected: Option<ParseState>,
        result: Result<(), ()>,
    ) -> bool {
        &&& self.data@ == before.data@
        &&& doc.wf()
        &&& match expected {
            Some(st) => {
                &&& result is Ok
                &&& self.wf()
                &&& self.state(doc) == st
                &&& self.pos >= before.pos
                &&& spec_building(doc, self.stack@)
                &&& spec_top_elements(doc.arena().nodes, self.root_count as nat, None)
                &&& spec_tops_listed(doc.arena().nodes, doc.record.children, None)
            },
            None => result is Err,
        }
    }

    /// Moves the cursor over white space.
    fn skip_whitespace(&mut self)
        requires
            old(self).wf(),
        ensures
            final(self).moved_from(old(self)),
            final(self).pos == spec_skip_whitespace(old(self).data@, old(self).pos as int),
            old(self).pos <= final(self).pos,
    {
        let ghost start = self.pos as int;
        while self.pos < self.data.len() && is_whitespace(self.data[self.pos])
            invariant
                start <= self.pos <= self.data@.len() <= usize::MAX,
                self.data@ == old(self).data@,
                self.stack@ == old(self).stack@,
                self.root_count == old(self).root_count,
                self.root_count <= 1,
                spec_skip_whitespace(self.data@, self.pos as int) == spec_skip_whitespace(
                    self.data@,
                    start,
                ),
            decreases self.data@.len() - self.pos,
        {
            self.pos = self.pos + 1;
        }
    }

    /// Whether the input holds `pattern` at the cursor.
    fn starts_with(&self, pattern: &[u8]) -> (found: bool)
        requires
            self.wf(),
        ensures
            found == spec_starts_with(self.data@, self.pos as int, pattern@),
    {
        if pattern.len() > self.data.len() - self.pos {
            return false;
        }
        let mut i: usize = 0;
        while i < pattern.len()
            invariant
                i <= pattern@.len(),
                self.pos + pattern@.len() <= self.data@.len() <= usize::MAX,
                forall|j: int| 0 <= j < i ==> self.data@[self.pos + j] == pattern@[j],
            decreases pattern@.len() - i,
        {
            if self.data[self.pos + i] != pattern[i] {
                assert(self.data@.subrange(self.pos as int, self.pos + pattern@.len())[i as int]
                    != pattern@[i as int]);
                return false;
            }
            i = i + 1;
        }
        assert(self.data@.subrange(self.pos as int, self.pos + pattern@.len()) =~= pattern@);
        true
    }

    /// Reads a name at the cursor. Where there is none the cursor stays.
    fn parse_name(&mut self) -> (result: Result<Vec<u8>, ()>)
        requires
            old(self).wf(),
        ensures
            final(self).moved_from(old(self)),
            match spec_parse_name(old(self).data@, old(self).pos as int) {
                Some((name, next)) => result is Ok && result.unwrap()@ == name && final(self).pos
                    == next && old(self).pos < next,
                None => result is Err && final(self).pos == old(self).pos,
            },
    {
        if self.pos >= self.data.len() {
            return Err(());
        }
        let start = self.pos;
        if !is_name_start(self.data[self.pos]) {
            return Err(());
        }
        self.pos = self.pos + 1;
        while self.pos < self.data.len() && is_name_char(self.data[self.pos])
            invariant
                start < self.pos <= self.data@.len() <= usize::MAX,
                self.data@ == old(self).data@,
                self.stack@ == old(self).stack@,
                self.root_count == old(self).root_count,
                self.root_count <= 1,
                spec_name_end(self.data@, self.pos as int) == spec_name_end(self.data@, start + 1),
            decreases self.data@.len() - self.pos,
        {
            self.pos = self.pos + 1;
        }
        Ok(vstd::slice::slice_to_vec(vstd::slice::slice_subrange(self.data, start, self.pos)))
    }

    /// Moves the cursor over `expected`, or refuses what is there instead.
    fn expect_char(&mut self, expected: u8) -> (result: Result<(), ()>)
        requires
            old(self).wf(),
        ensures
            final(self).moved_from(old(self)),
            result is Ok <==> old(self).pos < old(self).data@.len() && old(self).data@[old(
                self,
            ).pos as int] == expected,
            result is Ok ==> final(self).pos == old(self).pos + 1,
            result is Err ==> final(self).pos == old(self).pos,
    {
        if self.pos >= self.data.len() || self.data[self.pos] != expected {
            return Err(());
        }
        self.pos = self.pos + 1;
        Ok(())
    }

    /// Moves the cursor over `seq`, or refuses what is there instead.
    fn expect_sequence(&mut self, seq: &[u8]) -> (result: Result<(), ()>)
        requires
            old(self).wf(),
        ensures
            final(self).moved_from(old(self)),
            result is Ok <==> spec_starts_with(old(self).data@, old(self).pos as int, seq@),
            result is Ok ==> final(self).pos == old(self).pos + seq@.len(),
            result is Err ==> final(self).pos == old(self).pos,
    {
        if !self.starts_with(seq) {
            return Err(());
        }
        self.pos = self.pos + seq.len();
        Ok(())
    }

    /// Moves the cursor over `ch` if it is there, and says whether it was.
    fn consume_char(&mut self, ch: u8) -> (consumed: bool)
        requires
            old(self).wf(),
        ensures
            final(self).moved_from(old(self)),
            consumed == (old(self).pos < old(self).data@.len() && old(self).data@[old(self).pos as int]
                == ch),
            final(self).pos == if consumed {
                old(self).pos + 1
            } else {
                old(self).pos as int
            },
    {
        if self.pos < self.data.len() && self.data[self.pos] == ch {
            self.pos = self.pos + 1;
            true
        } else {
            false
        }
    }

    /// The byte at the cursor, if the input has not ended.
    fn next_byte(&self) -> (result: Result<u8, ()>)
        requires
            self.wf(),
        ensures
            result is Ok <==> self.pos < self.data@.len(),
            result matches Ok(byte) ==> byte == self.data@[self.pos as int],
    {
        if self.pos < self.data.len() {
            Ok(self.data[self.pos])
        } else {
            Err(())
        }
    }

    /// Reads a quoted value at the cursor and returns it as written.
    fn parse_quoted(&mut self) -> (result: Result<&'a [u8], ()>)
        requires
            old(self).wf(),
        ensures
            final(self).moved_from(old(self)),
            match spec_quoted_value(old(self).data@, old(self).pos as int) {
                Some((value, next)) => result is Ok && result.unwrap()@ == value && final(self).pos
                    == next,
                None => result is Err,
            },
    {
        let quote = match self.next_byte() {
            Ok(byte) => byte,
            Err(()) => {
                return Err(());
            },
        };
        if quote != crate::ascii::QUOTE && quote != crate::ascii::APOSTROPHE {
            return Err(());
        }
        self.pos = self.pos + 1;
        let start = self.pos;
        while self.pos < self.data.len() && self.data[self.pos] != quote
            invariant
                start <= self.pos <= self.data@.len() <= usize::MAX,
                self.data@ == old(self).data@,
                self.stack@ == old(self).stack@,
                self.root_count == old(self).root_count,
                self.root_count <= 1,
                spec_find_byte(self.data@, self.pos as int, quote) == spec_find_byte(
                    self.data@,
                    start as int,
                    quote,
                ),
            decreases self.data@.len() - self.pos,
        {
            self.pos = self.pos + 1;
        }
        if self.pos >= self.data.len() {
            return Err(());
        }
        let value = vstd::slice::slice_subrange(self.data, start, self.pos);
        self.pos = self.pos + 1;
        Ok(value)
    }

    /// Reads a name, `=` and a quoted value at the cursor, with optional
    /// white space around the `=`, and returns the name and the value as
    /// written.
    fn parse_name_value(&mut self) -> (result: Result<(Vec<u8>, &'a [u8]), ()>)
        requires
            old(self).wf(),
        ensures
            final(self).moved_from(old(self)),
            match spec_name_value(old(self).data@, old(self).pos as int) {
                Some(pair) => result is Ok && result.unwrap().0@ == pair.name && result.unwrap().1@
                    == pair.value && final(self).pos == pair.next && old(self).pos < pair.next,
                None => result is Err,
            },
    {
        proof {
            if spec_name_value(self.data@, self.pos as int) is Some {
                lemma_name_value(self.data@, self.pos as int);
            }
        }
        let name = match self.parse_name() {
            Ok(name) => name,
            Err(()) => {
                return Err(());
            },
        };
        self.skip_whitespace();
        match self.expect_char(EQUALS) {
            Ok(()) => {},
            Err(()) => {
                return Err(());
            },
        }
        self.skip_whitespace();
        match self.parse_quoted() {
            Ok(value) => Ok((name, value)),
            Err(()) => Err(()),
        }
    }

    /// Reads the XML declaration at the cursor, if there is one, and
    /// declares the version and the encoding that it gives.
    fn parse_xml_declaration(&mut self, doc: &mut XmlDocument) -> (result: Result<(), ()>)
        requires
            old(self).wf(),
            old(doc)@.wf(),
        ensures
            final(self).moved_from(old(self)),
            final(doc)@.wf(),
            match spec_parse_xml_declaration(old(self).data@, old(self).pos as int, old(doc)@) {
                Some((declared, next)) => {
                    &&& result is Ok
                    &&& final(doc)@ == declared
                    &&& final(self).pos == next
                    &&& final(doc)@.arena().nodes == old(doc)@.arena().nodes
                    &&& final(doc)@.arena().attrs == old(doc)@.arena().attrs
                    &&& final(doc)@.record == old(doc)@.record
                },
                None => result is Err,
            },
    {
        let open: [u8; 5] = [LESS_THAN, QUESTION, 0x78, 0x6D, 0x6C];
        let close: [u8; 2] = [QUESTION, GREATER_THAN];
        let version: [u8; 7] = [0x76, 0x65, 0x72, 0x73, 0x69, 0x6F, 0x6E];
        let encoding: [u8; 8] = [0x65, 0x6E, 0x63, 0x6F, 0x64, 0x69, 0x6E, 0x67];
        assert(open@ =~= spec_declaration_open());
        assert(close@ =~= spec_instruction_close());
        assert(version@ =~= spec_name_version());
        assert(encoding@ =~= spec_name_encoding());
        if !self.starts_with(open.as_slice()) {
            return Ok(());
        }
        self.pos = self.pos + 5;
        let ghost start = self.pos as int;
        loop
            invariant
                self.moved_from(old(self)),
                start == old(self).pos + 5,
                spec_starts_with(self.data@, old(self).pos as int, spec_declaration_open()),
                doc@.wf(),
                close@ == spec_instruction_close(),
                version@ == spec_name_version(),
                encoding@ == spec_name_encoding(),
                spec_declaration_attributes(self.data@, self.pos as int, doc@)
                    == spec_declaration_attributes(self.data@, start, old(doc)@),
                doc@.arena().nodes == old(doc)@.arena().nodes,
                doc@.arena().attrs == old(doc)@.arena().attrs,
                doc@.record == old(doc)@.record,
            decreases self.data@.len() - self.pos,
        {
            let ghost before = self.pos as int;
            self.skip_whitespace();
            if self.starts_with(close.as_slice()) {
                self.pos = self.pos + 2;
                return Ok(());
            }
            let (name, value) = match self.parse_name_value() {
                Ok(pair) => pair,
                Err(()) => {
                    return Err(());
                },
            };
            if bytes_equal(name.as_slice(), version.as_slice()) {
                doc.set_version_bytes(value);
            } else if bytes_equal(name.as_slice(), encoding.as_slice()) {
                doc.set_encoding_bytes(value);
            }
        }
    }

    /// Reads the attributes of a start-tag up to the `/` or `>` that ends
    /// them, and decodes their values.
    fn parse_attributes(&mut self) -> (result: Result<Vec<AttributeRecord>, ()>)
        requires
            old(self).wf(),
        ensures
            final(self).moved_from(old(self)),
            match spec_parse_attributes(old(self).data@, old(self).pos as int) {
                Some((attrs, at)) => result is Ok && spec_records(result.unwrap()@) == attrs
                    && final(self).pos == at,
                None => result is Err,
            },
    {
        let mut attrs: Vec<AttributeRecord> = Vec::new();
        let ghost start = self.pos as int;
        assert(spec_records(attrs@) =~= Seq::empty());
        loop
            invariant
                self.moved_from(old(self)),
                start == old(self).pos,
                spec_parse_attributes(self.data@, start) == spec_prepend_attributes(
                    spec_records(attrs@),
                    spec_parse_attributes(self.data@, self.pos as int),
                ),
            decreases self.data@.len() - self.pos,
        {
            let ghost before = self.pos as int;
            let ghost seen = spec_records(attrs@);
            self.skip_whitespace();
            if self.pos >= self.data.len() {
                return Err(());
            }
            let byte = self.data[self.pos];
            if byte == SLASH || byte == GREATER_THAN {
                proof {
                    assert(seen + Seq::<(Seq<u8>, Seq<u8>)>::empty() =~= seen);
                }
                return Ok(attrs);
            }
            let (name, value) = match self.parse_name_value() {
                Ok(pair) => pair,
                Err(()) => {
                    return Err(());
                },
            };
            let decoded = match decode_entities(value) {
                Ok(decoded) => decoded,
                Err(()) => {
                    return Err(());
                },
            };
            proof {
                let rest = spec_parse_attributes(self.data@, self.pos as int);
                assert(spec_records(attrs@.push((name, decoded))) =~= seen.push((name@, decoded@)));
                if rest is Some {
                    assert(seen + (seq![(name@, decoded@)] + rest.unwrap().0) =~= seen.push(
                        (name@, decoded@),
                    ) + rest.unwrap().0);
                }
            }
            attrs.push((name, decoded));
        }
    }
}


/// Whether a document has its arenas, is well formed and is in shape.
pub open spec fn spec_sound(doc: Document) -> bool {
    &&& doc.wf()
    &&& doc.spec_linked()
    &&& doc.spec_attrs_linked()
}

/// Whether `element` is an element under construction: a detached node
/// whose attribute list, if it has one, ends.
pub open spec fn spec_under_construction(doc: Document, element: usize) -> bool {
    &&& doc.spec_detached(element)
    &&& match doc.arena().nodes[element as int].properties {
        Some(first) => spec_chain_ends(spec_attr_links(doc.arena().attrs), first),
        None => true,
    }
}

/// Reads the name of a node back from its stored, terminated name. An
/// absent node and a node without a name have the empty name.
pub fn node_name_bytes(doc: &XmlDocument, node: Option<usize>) -> (name: Vec<u8>)
    requires
        doc@.wf(),
        node matches Some(slot) ==> doc@.has_node(slot),
    ensures
        name@ == spec_node_name_bytes(doc@, node),
{
    match node {
        None => Vec::new(),
        Some(slot) => {
            let record = doc.node(slot).unwrap();
            assert(doc@.arena().node_ok(doc@.arena().nodes[slot as int]));
            match record.name {
                None => Vec::new(),
                Some(name) => c_string_bytes(doc.string(name).unwrap()),
            }
        },
    }
}

/// Allocates one attribute with the given name and decoded value and
/// appends it to the element under construction.
fn attach_attribute(doc: &mut XmlDocument, element: usize, name: &[u8], value: &[u8])
    requires
        spec_sound(old(doc)@),
        spec_under_construction(old(doc)@, element),
    ensures
        final(doc)@ == spec_attach_attribute(old(doc)@, element, name@, value@),
        spec_sound(final(doc)@),
        spec_under_construction(final(doc)@, element),
        final(doc)@.arena().nodes.len() >= old(doc)@.arena().nodes.len(),
        final(doc)@.record == old(doc)@.record,
        spec_kept(old(doc)@.arena().nodes, final(doc)@.arena().nodes),
{
    let ghost before = doc@;
    let ghost links0 = spec_attr_links(before.arena().attrs);
    let ghost first = before.arena().nodes[element as int].properties;
    let attr = doc.alloc_attribute(name);
    let ghost named = doc@;
    let ghost links1 = spec_attr_links(named.arena().attrs);
    proof {
        assert(links1 =~= links0.push(None));
        assert(spec_same_links(before.arena().nodes, named.arena().nodes));
        lemma_same_links_linked(before, named);
        lemma_same_links_detached(before, named, element);
        if first is Some {
            let fuel = spec_chain_fuel(links0, first.unwrap());
            lemma_tail_is(links0, first.unwrap(), fuel);
            lemma_chain_push(links0, first.unwrap(), fuel, None);
            lemma_tail_is(links1, first.unwrap(), fuel);
        }
        assert forall|i: usize| i < before.arena().attrs.len() implies !#[trigger] spec_attr_points_to(
            before.arena().attrs,
            i,
            attr,
        ) by {
            assert(before.arena().attr_ok(before.arena().attrs[i as int]));
        }
        assert forall|e: usize| e < before.arena().nodes.len() implies (
        #[trigger] before.arena().nodes[e as int]).properties != Some(attr) by {
            assert(before.arena().node_ok(before.arena().nodes[e as int]));
        }
        lemma_push_attr_shape(
            before.arena().nodes,
            before.arena().attrs,
            named.arena().attrs[attr as int],
            attr,
        );
    }
    if value.len() > 0 {
        let child = doc.alloc_text_node(value, xmlElementType::TextNode);
        let ghost stored = doc@;
        proof {
            lemma_push_linked(named, stored, stored.arena().nodes[child as int], child);
            lemma_same_properties_shape(
                named.arena().nodes,
                stored.arena().nodes,
                named.arena().attrs,
            );
        }
        let mut text = doc.node(child).unwrap();
        text.parent = None;
        text.next = None;
        text.prev = None;
        doc.set_node(child, text);
        let ghost alone = doc@;
        proof {
            assert(alone.arena().nodes =~= stored.arena().nodes);
        }
        let mut valued = doc.attribute(attr).unwrap();
        valued.children = Some(child);
        valued.last = Some(child);
        doc.set_attribute(attr, valued);
        proof {
            lemma_attr_value_shape(
                alone.arena().nodes,
                alone.arena().attrs,
                doc@.arena().attrs,
                attr,
                child,
            );
        }
    }
    let ghost valued = doc@;
    proof {
        let own = valued.spec_own_attribute(element, attr);
        assert(spec_attr_links(valued.arena().attrs) == links1);
        assert(spec_attr_links(own.arena().attrs) =~= links1);
        assert(valued.arena().nodes[element as int].properties == first);
        assert(spec_attr_unlinked(valued.arena().nodes, valued.arena().attrs, attr));
    }
    doc.append_attribute(element, attr);
    proof {
        let after = doc@;
        let links2 = spec_attr_links(after.arena().attrs);
        assert(spec_same_links(valued.arena().nodes, after.arena().nodes));
        lemma_same_links_linked(valued, after);
        lemma_same_links_detached(valued, after, element);
        match first {
            Some(head) => {
                let fuel = spec_chain_fuel(links1, head);
                lemma_tail_is(links1, head, fuel);
                let end = spec_tail(links1, head);
                assert(links2 =~= links1.update(end as int, Some(attr)));
                lemma_chain_extend(links1, head, fuel, end, attr);
                lemma_tail_is(links2, head, fuel + 1);
            },
            None => {
                assert(links2 =~= links1);
                assert(spec_chain_tail(links2, attr, 0) == Some(attr));
                lemma_tail_is(links2, attr, 0);
            },
        }
    }
}

impl<'a> SimpleParser<'a> {
    /// Allocates the attributes of a start-tag and appends them, in their
    /// order, to the element under construction.
    fn attach_attributes(&self, doc: &mut XmlDocument, element: usize, attrs: Vec<AttributeRecord>) -> (result:
        Result<(), ()>)
        requires
            spec_sound(old(doc)@),
            spec_under_construction(old(doc)@, element),
        ensures
            result is Ok,
            final(doc)@ == spec_attach_attributes(old(doc)@, element, spec_records(attrs@), 0),
            spec_sound(final(doc)@),
            spec_under_construction(final(doc)@, element),
            final(doc)@.arena().nodes.len() >= old(doc)@.arena().nodes.len(),
            final(doc)@.record == old(doc)@.record,
            spec_kept(old(doc)@.arena().nodes, final(doc)@.arena().nodes),
    {
        let ghost records = spec_records(attrs@);
        let mut i: usize = 0;
        while i < attrs.len()
            invariant
                i <= attrs@.len(),
                records == spec_records(attrs@),
                spec_sound(doc@),
                spec_under_construction(doc@, element),
                doc@.arena().nodes.len() >= old(doc)@.arena().nodes.len(),
                doc@.record == old(doc)@.record,
                spec_kept(old(doc)@.arena().nodes, doc@.arena().nodes),
                spec_attach_attributes(doc@, element, records, i as int) == spec_attach_attributes(
                    old(doc)@,
                    element,
                    records,
                    0,
                ),
            decreases attrs@.len() - i,
        {
            attach_attribute(doc, element, attrs[i].0.as_slice(), attrs[i].1.as_slice());
            i = i + 1;
        }
        Ok(())
    }
}


impl<'a> SimpleParser<'a> {
    /// The innermost open element, if any.
    fn top(&self) -> (parent: Option<usize>)
        ensures
            parent == spec_top(self.stack@),
    {
        if self.stack.len() > 0 {
            Some(self.stack[self.stack.len() - 1])
        } else {
            None
        }
    }

    /// Allocates a node of kind `node_type` with the given content and makes
    /// it the last child of the innermost open element, or the last
    /// top-level node where no element is open.
    fn attach_text(&self, doc: &mut XmlDocument, content: &[u8], node_type: xmlElementType)
        requires
            spec_building(old(doc)@, self.stack@),
            spec_top_elements(old(doc)@.arena().nodes, self.root_count as nat, None),
            spec_tops_listed(old(doc)@.arena().nodes, old(doc)@.record.children, None),
            node_type != xmlElementType::ElementNode,
        ensures
            final(doc)@ == old(doc)@.spec_alloc_text_node(content@, node_type).spec_attach_child(
                spec_top(self.stack@),
                old(doc)@.arena().nodes.len() as usize,
            ),
            spec_building(final(doc)@, self.stack@),
            spec_top_elements(final(doc)@.arena().nodes, self.root_count as nat, None),
            spec_tops_listed(final(doc)@.arena().nodes, final(doc)@.record.children, None),
            final(doc)@.address() == old(doc)@.address(),
    {
        let ghost before = doc@;
        let node = doc.alloc_text_node(content, node_type);
        let parent = self.top();
        let ghost stored = doc@;
        proof {
            lemma_push_linked(before, stored, stored.arena().nodes[node as int], node);
            lemma_attach_child_linked(stored, parent, node);
            lemma_kept_top_elements(
                before.arena().nodes,
                stored.arena().nodes,
                self.root_count as nat,
                Some(node),
            );
            lemma_attached_top_elements(
                stored.arena().nodes,
                stored.spec_attach_child(parent, node).arena().nodes,
                parent,
                node,
                self.root_count as nat,
            );
            lemma_same_properties_shape(
                before.arena().nodes,
                stored.arena().nodes,
                before.arena().attrs,
            );
            lemma_same_properties_shape(
                stored.arena().nodes,
                stored.spec_attach_child(parent, node).arena().nodes,
                stored.arena().attrs,
            );
            lemma_kept_tops_listed(
                before.arena().nodes,
                stored.arena().nodes,
                before.record.children,
                Some(node),
            );
            lemma_attached_tops_listed(
                stored.arena().nodes,
                stored.spec_attach_child(parent, node).arena().nodes,
                stored.record.children,
                stored.spec_attach_child(parent, node).record.children,
                parent,
                node,
            );
        }
        doc.attach_child(parent, node);
    }

    /// Takes the start-tag at the cursor.
    fn parse_start_element(&mut self, doc: &mut XmlDocument) -> (result: Result<(), ()>)
        requires
            old(self).wf(),
            spec_building(old(doc)@, old(self).stack@),
            spec_top_elements(old(doc)@.arena().nodes, old(self).root_count as nat, None),
            spec_tops_listed(old(doc)@.arena().nodes, old(doc)@.record.children, None),
        ensures
            final(self).outcome(
                final(doc)@,
                old(self),
                spec_parse_start_element(old(self).data@, old(self).state(old(doc)@)),
                result,
            ),
            result is Ok ==> final(self).pos > old(self).pos,
            result is Ok ==> final(doc)@.address() == old(doc)@.address(),
    {
        let ghost before = doc@;
        let ghost start = self.pos as int;
        match self.expect_char(LESS_THAN) {
            Ok(()) => {},
            Err(()) => {
                return Err(());
            },
        }
        let name = match self.parse_name() {
            Ok(name) => name,
            Err(()) => {
                return Err(());
            },
        };
        proof {
            if spec_parse_attributes(self.data@, self.pos as int) is Some {
                lemma_parse_attributes(self.data@, self.pos as int);
            }
        }
        let attrs = match self.parse_attributes() {
            Ok(attrs) => attrs,
            Err(()) => {
                return Err(());
            },
        };
        let empty = self.consume_char(SLASH);
        match self.expect_char(GREATER_THAN) {
            Ok(()) => {},
            Err(()) => {
                return Err(());
            },
        }
        let node = doc.alloc_element(name.as_slice());
        let ghost named = doc@;
        proof {
            lemma_push_linked(before, named, named.arena().nodes[node as int], node);
            lemma_kept_top_elements(
                before.arena().nodes,
                named.arena().nodes,
                self.root_count as nat,
                Some(node),
            );
            lemma_same_properties_shape(
                before.arena().nodes,
                named.arena().nodes,
                before.arena().attrs,
            );
            lemma_kept_tops_listed(
                before.arena().nodes,
                named.arena().nodes,
                before.record.children,
                Some(node),
            );
        }
        match self.attach_attributes(doc, node, attrs) {
            Ok(()) => {},
            Err(()) => {
                return Err(());
            },
        }
        let ghost dressed = doc@;
        let ghost seen = self.root_count as nat;
        proof {
            lemma_kept_top_elements(
                named.arena().nodes,
                dressed.arena().nodes,
                seen,
                Some(node),
            );
            lemma_kept_tops_listed(
                named.arena().nodes,
                dressed.arena().nodes,
                named.record.children,
                Some(node),
            );
        }
        let parent = self.top();
        if parent.is_none() {
            self.root_count = self.root_count + 1;
            if self.root_count > 1 {
                return Err(());
            }
        }
        proof {
            lemma_attach_child_linked(dressed, parent, node);
            lemma_attached_top_elements(
                dressed.arena().nodes,
                dressed.spec_attach_child(parent, node).arena().nodes,
                parent,
                node,
                seen,
            );
            lemma_same_properties_shape(
                dressed.arena().nodes,
                dressed.spec_attach_child(parent, node).arena().nodes,
                dressed.arena().attrs,
            );
            lemma_attached_tops_listed(
                dressed.arena().nodes,
                dressed.spec_attach_child(parent, node).arena().nodes,
                dressed.record.children,
                dressed.spec_attach_child(parent, node).record.children,
                parent,
                node,
            );
        }
        doc.attach_child(parent, node);
        if !empty {
            self.stack.push(node);
        }
        Ok(())
    }

    /// Takes the end-tag at the cursor.
    fn parse_end_element(&mut self, doc: &mut XmlDocument) -> (result: Result<(), ()>)
        requires
            old(self).wf(),
            spec_building(old(doc)@, old(self).stack@),
            spec_top_elements(old(doc)@.arena().nodes, old(self).root_count as nat, None),
            spec_tops_listed(old(doc)@.arena().nodes, old(doc)@.record.children, None),
        ensures
            final(doc)@ == old(doc)@,
            final(self).outcome(
                final(doc)@,
                old(self),
                spec_parse_end_element(old(self).data@, old(self).state(old(doc)@)),
                result,
            ),
            result is Ok ==> final(self).pos > old(self).pos,
    {
        let open: [u8; 2] = [LESS_THAN, SLASH];
        assert(open@ =~= spec_end_tag_open());
        match self.expect_sequence(open.as_slice()) {
            Ok(()) => {},
            Err(()) => {
                return Err(());
            },
        }
        let name = match self.parse_name() {
            Ok(name) => name,
            Err(()) => {
                return Err(());
            },
        };
        self.skip_whitespace();
        match self.expect_char(GREATER_THAN) {
            Ok(()) => {},
            Err(()) => {
                return Err(());
            },
        }
        let node = match self.stack.pop() {
            Some(node) => node,
            None => {
                return Err(());
            },
        };
        assert(node == old(self).stack@.last());
        assert(self.stack@ =~= old(self).stack@.drop_last());
        let node_name = node_name_bytes(doc, Some(node));
        if !bytes_equal(node_name.as_slice(), name.as_slice()) {
            return Err(());
        }
        Ok(())
    }

    /// Takes the text run at the cursor.
    fn parse_text_node(&mut self, doc: &mut XmlDocument) -> (result: Result<(), ()>)
        requires
            old(self).wf(),
            spec_building(old(doc)@, old(self).stack@),
            spec_top_elements(old(doc)@.arena().nodes, old(self).root_count as nat, None),
            spec_tops_listed(old(doc)@.arena().nodes, old(doc)@.record.children, None),
        ensures
            final(self).outcome(
                final(doc)@,
                old(self),
                spec_parse_text_node(old(self).data@, old(self).state(old(doc)@)),
                result,
            ),
            result is Ok ==> final(doc)@.address() == old(doc)@.address(),
            result is Ok && old(self).pos < old(self).data@.len() && old(self).data@[old(self).pos as int]
                != LESS_THAN ==> final(self).pos > old(self).pos,
    {
        let start = self.pos;
        while self.pos < self.data.len() && self.data[self.pos] != LESS_THAN
            invariant
                start <= self.pos <= self.data@.len() <= usize::MAX,
                self.data@ == old(self).data@,
                self.stack@ == old(self).stack@,
                self.root_count == old(self).root_count,
                self.root_count <= 1,
                spec_find_byte(self.data@, self.pos as int, LESS_THAN) == spec_find_byte(
                    self.data@,
                    start as int,
                    LESS_THAN,
                ),
            decreases self.data@.len() - self.pos,
        {
            self.pos = self.pos + 1;
        }
        let text = vstd::slice::slice_subrange(self.data, start, self.pos);
        if text.len() == 0 {
            return Ok(());
        }
        let decoded = match decode_entities(text) {
            Ok(decoded) => decoded,
            Err(()) => {
                return Err(());
            },
        };
        if decoded.len() == 0 {
            return Ok(());
        }
        self.attach_text(doc, decoded.as_slice(), xmlElementType::TextNode);
        Ok(())
    }

    /// Takes the comment at the cursor.
    fn parse_comment(&mut self, doc: &mut XmlDocument) -> (result: Result<(), ()>)
        requires
            old(self).wf(),
            spec_building(old(doc)@, old(self).stack@),
            spec_top_elements(old(doc)@.arena().nodes, old(self).root_count as nat, None),
            spec_tops_listed(old(doc)@.arena().nodes, old(doc)@.record.children, None),
        ensures
            final(self).outcome(
                final(doc)@,
                old(self),
                spec_parse_comment(old(self).data@, old(self).state(old(doc)@)),
                result,
            ),
            result is Ok ==> final(self).pos > old(self).pos,
            result is Ok ==> final(doc)@.address() == old(doc)@.address(),
    {
        let open: [u8; 4] = [LESS_THAN, BANG, HYPHEN, HYPHEN];
        let close: [u8; 3] = [HYPHEN, HYPHEN, GREATER_THAN];
        assert(open@ =~= spec_comment_open());
        assert(close@ =~= spec_comment_close());
        match self.expect_sequence(open.as_slice()) {
            Ok(()) => {},
            Err(()) => {
                return Err(());
            },
        }
        let start = self.pos;
        while self.data.len() - self.pos > 2 && !self.starts_with(close.as_slice())
            invariant
                start <= self.pos <= self.data@.len() <= usize::MAX,
                self.data@ == old(self).data@,
                self.stack@ == old(self).stack@,
                self.root_count == old(self).root_count,
                self.root_count <= 1,
                close@ == spec_comment_close(),
                spec_find_pattern(self.data@, self.pos as int, spec_comment_close())
                    == spec_find_pattern(self.data@, start as int, spec_comment_close()),
            decreases self.data@.len() - self.pos,
        {
            self.pos = self.pos + 1;
        }
        proof {
            lemma_find_pattern(self.data@, self.pos as int, spec_comment_close());
        }
        if self.data.len() - self.pos <= 2 {
            return Err(());
        }
        let comment = vstd::slice::slice_subrange(self.data, start, self.pos);
        self.pos = self.pos + 3;
        self.attach_text(doc, comment, xmlElementType::CommentNode);
        Ok(())
    }

    /// Takes the processing instruction at the cursor and passes it over.
    fn parse_processing_instruction(&mut self, doc: &mut XmlDocument) -> (result: Result<(), ()>)
        requires
            old(self).wf(),
            spec_building(old(doc)@, old(self).stack@),
            spec_top_elements(old(doc)@.arena().nodes, old(self).root_count as nat, None),
            spec_tops_listed(old(doc)@.arena().nodes, old(doc)@.record.children, None),
        ensures
            final(doc)@ == old(doc)@,
            final(self).outcome(
                final(doc)@,
                old(self),
                spec_parse_processing_instruction(old(self).data@, old(self).state(old(doc)@)),
                result,
            ),
            result is Ok ==> final(self).pos > old(self).pos,
    {
        let open: [u8; 2] = [LESS_THAN, QUESTION];
        let close: [u8; 2] = [QUESTION, GREATER_THAN];
        assert(open@ =~= spec_instruction_open());
        assert(close@ =~= spec_instruction_close());
        match self.expect_sequence(open.as_slice()) {
            Ok(()) => {},
            Err(()) => {
                return Err(());
            },
        }
        let ghost start = self.pos as int;
        while self.data.len() - self.pos > 1 && !self.starts_with(close.as_slice())
            invariant
                start <= self.pos <= self.data@.len() <= usize::MAX,
                self.data@ == old(self).data@,
                self.stack@ == old(self).stack@,
                self.root_count == old(self).root_count,
                self.root_count <= 1,
                close@ == spec_instruction_close(),
                spec_find_pattern(self.data@, self.pos as int, spec_instruction_close())
                    == spec_find_pattern(self.data@, start, spec_instruction_close()),
            decreases self.data@.len() - self.pos,
        {
            self.pos = self.pos + 1;
        }
        proof {
            lemma_find_pattern(self.data@, self.pos as int, spec_instruction_close());
        }
        if self.data.len() - self.pos <= 1 {
            return Err(());
        }
        self.pos = self.pos + 2;
        Ok(())
    }
}


impl<'a> SimpleParser<'a> {
    /// Takes the construct at the cursor, chosen by what the input holds
    /// there.
    fn parse_construct(&mut self, doc: &mut XmlDocument) -> (result: Result<(), ()>)
        requires
            old(self).wf(),
            old(self).pos < old(self).data@.len(),
            spec_building(old(doc)@, old(self).stack@),
            spec_top_elements(old(doc)@.arena().nodes, old(self).root_count as nat, None),
            spec_tops_listed(old(doc)@.arena().nodes, old(doc)@.record.children, None),
        ensures
            final(self).outcome(
                final(doc)@,
                old(self),
                spec_step(old(self).data@, old(self).state(old(doc)@)),
                result,
            ),
            result is Ok ==> final(self).pos > old(self).pos,
            result is Ok ==> final(doc)@.address() == old(doc)@.address(),
    {
        let comment: [u8; 4] = [LESS_THAN, BANG, HYPHEN, HYPHEN];
        let instruction: [u8; 2] = [LESS_THAN, QUESTION];
        let end_tag: [u8; 2] = [LESS_THAN, SLASH];
        assert(comment@ =~= spec_comment_open());
        assert(instruction@ =~= spec_instruction_open());
        assert(end_tag@ =~= spec_end_tag_open());
        reveal(spec_step);
        if self.starts_with(comment.as_slice()) {
            self.parse_comment(doc)
        } else if self.starts_with(instruction.as_slice()) {
            self.parse_processing_instruction(doc)
        } else if self.starts_with(end_tag.as_slice()) {
            self.parse_end_element(doc)
        } else if self.data[self.pos] == LESS_THAN {
            self.parse_start_element(doc)
        } else {
            self.parse_text_node(doc)
        }
    }

    /// Parses `bytes` into `doc`, whose former tree is dropped first.
    ///
    /// The buffer is accepted exactly where `spec_parse` gives a document,
    /// and `doc` is then that document: its tree and its attribute lists
    /// are in shape, it has exactly one top-level element, and its address
    /// is what it was. Where the buffer is refused, `doc` is left with
    /// whatever was built of it and is still well formed.
    pub fn parse_into(doc: &mut XmlDocument, bytes: &[u8]) -> (result: Result<(), ()>)
        requires
            old(doc)@.arena().spec_metadata_ok(),
        ensures
            final(doc)@.wf(),
            match spec_parse(bytes@, old(doc)@) {
                Some(parsed) => result is Ok && final(doc)@ == parsed && parsed.spec_linked()
                    && parsed.spec_attrs_linked() && parsed.spec_single_root()
                    && parsed.address() == old(doc)@.address(),
                None => result is Err,
            },
    {
        let data = strip_utf8_bom(bytes);
        assert(data@.len() == data.len());
        let mut parser = SimpleParser { data, pos: 0, stack: Vec::new(), root_count: 0 };
        doc.clear_tree();
        parser.skip_whitespace();
        match parser.parse_xml_declaration(doc) {
            Ok(()) => {},
            Err(()) => {
                return Err(());
            },
        }
        let ghost begin = parser.state(doc@);
        while parser.pos < parser.data.len()
            invariant
                parser.wf(),
                parser.data@ == data@,
                spec_building(doc@, parser.stack@),
                spec_top_elements(doc@.arena().nodes, parser.root_count as nat, None),
                spec_tops_listed(doc@.arena().nodes, doc@.record.children, None),
                doc@.address() == old(doc)@.address(),
                spec_run(data@, parser.state(doc@)) == spec_run(data@, begin),
                spec_parse(bytes@, old(doc)@) == spec_accept(spec_run(data@, begin)),
            ensures
                parser.wf(),
                parser.data@ == data@,
                parser.pos >= data@.len(),
                spec_building(doc@, parser.stack@),
                spec_top_elements(doc@.arena().nodes, parser.root_count as nat, None),
                spec_tops_listed(doc@.arena().nodes, doc@.record.children, None),
                doc@.address() == old(doc)@.address(),
                spec_run(data@, parser.state(doc@)) == spec_run(data@, begin),
            decreases parser.data@.len() - parser.pos,
        {
            let ghost before = parser.state(doc@);
            parser.skip_whitespace();
            if parser.pos >= parser.data.len() {
                proof {
                    lemma_skip_whitespace(data@, parser.pos as int);
                    lemma_run_end(data@, before);
                    lemma_run_end(data@, parser.state(doc@));
                }
                break ;
            }
            let step = parser.parse_construct(doc);
            proof {
                lemma_run_step(data@, before);
            }
            match step {
                Ok(()) => {},
                Err(()) => {
                    return Err(());
                },
            }
        }
        proof {
            lemma_skip_whitespace(data@, parser.pos as int);
            lemma_run_end(data@, parser.state(doc@));
        }
        if parser.root_count == 1 && parser.stack.len() == 0 {
            Ok(())
        } else {
            Err(())
        }
    }
}

/// Parses `bytes` into a new document at `address`, created with the given
/// parse options, source URL and encoding.
///
/// Succeeds exactly where `spec_parse` gives a document for the buffer
/// and the empty document, and returns that document. A refused buffer
/// leaves no document behind.
pub fn parse_document_from_bytes(
    address: usize,
    bytes: &[u8],
    options: i32,
    url: Option<&[u8]>,
    encoding: Option<&[u8]>,
) -> (result: Result<XmlDocument, ()>)
    ensures
        match spec_parse(
            bytes@,
            Document::spec_new(address, options, spec_slice_view(url), spec_slice_view(encoding)),
        ) {
            Some(parsed) => result is Ok && result.unwrap()@ == parsed && parsed.wf()
                && parsed.spec_linked() && parsed.spec_attrs_linked() && parsed.spec_single_root()
                && parsed.address() == address,
            None => result is Err,
        },
{
    let mut doc = XmlDocument::new(address, options, url, encoding);
    match SimpleParser::parse_into(&mut doc, bytes) {
        Ok(()) => Ok(doc),
        Err(()) => Err(()),
    }
}


/// A parse shows nothing of the tree that the document held before: it
/// gives what it gives for the document without its tree, which has no
/// top-level nodes and empty arenas, and so what it gives for any other
/// document with the same root record and the same metadata.
pub proof fn lemma_parse_forgets_prior_tree(bytes: Seq<u8>, doc: Document, other: Document)
    requires
        doc.spec_clear_tree() == other.spec_clear_tree(),
    ensures
        spec_parse(bytes, doc) == spec_parse(bytes, doc.spec_clear_tree()),
        spec_parse(bytes, doc) == spec_parse(bytes, other),
        doc.spec_clear_tree().record.children is None,
        doc.spec_clear_tree().record.last is None,
        doc.spec_clear_tree().arena().nodes.len() == 0,
        doc.spec_clear_tree().arena().attrs.len() == 0,
        doc.spec_clear_tree().arena().strings.len() == 0,
        doc.spec_clear_tree().arena().namespaces.len() == 0,
        doc.spec_clear_tree().arena().xml_namespace is None,
{
    assert(doc.spec_clear_tree().spec_clear_tree() == doc.spec_clear_tree());
}

/// Whether `after` is `before` as far as a parse leaves a document alone:
/// the same root record but for the ends of the list of top-level nodes,
/// and so the same address and the same parse options, and the same source
/// URL.
pub open spec fn spec_same_document(before: Document, after: Document) -> bool {
    &&& after.record == (xmlDoc {
        children: after.record.children,
        last: after.record.last,
        ..before.record
    })
    &&& after.arena().url == before.arena().url
}

/// Whether `after` is `before` as far as building the tree leaves a document
/// alone: as `spec_same_document` says, with the same declared version and
/// encoding.
pub open spec fn spec_same_metadata(before: Document, after: Document) -> bool {
    &&& spec_same_document(before, after)
    &&& after.arena().version == before.arena().version
    &&& after.arena().encoding == before.arena().encoding
}

/// Attaching a node changes nothing of a document but its tree.
pub proof fn lemma_attach_child_same(doc: Document, parent: Option<usize>, child: usize)
    ensures
        spec_same_metadata(doc, doc.spec_attach_child(parent, child)),
{
}

/// Appending one attribute changes nothing of a document but its tree.
pub proof fn lemma_attach_attribute_same(
    doc: Document,
    element: usize,
    name: Seq<u8>,
    value: Seq<u8>,
)
    ensures
        spec_same_metadata(doc, spec_attach_attribute(doc, element, name, value)),
{
}

/// Appending attributes changes nothing of a document but its tree.
pub proof fn lemma_attach_attributes_same(
    doc: Document,
    element: usize,
    attrs: Seq<(Seq<u8>, Seq<u8>)>,
    from: int,
)
    ensures
        spec_same_metadata(doc, spec_attach_attributes(doc, element, attrs, from)),
    decreases attrs.len() - from,
{
    if 0 <= from < attrs.len() {
        let next = spec_attach_attribute(doc, element, attrs[from].0, attrs[from].1);
        lemma_attach_attribute_same(doc, element, attrs[from].0, attrs[from].1);
        lemma_attach_attributes_same(next, element, attrs, from + 1);
    }
}

/// One construct changes nothing of a document but its tree.
pub proof fn lemma_step_same(data: Seq<u8>, st: ParseState)
    requires
        spec_step(data, st) is Some,
    ensures
        spec_same_metadata(st.doc, spec_step(data, st).unwrap().doc),
{
    reveal(spec_step);
    let node = st.doc.arena().nodes.len() as usize;
    if spec_starts_with(data, st.pos, spec_comment_open()) {
        let end = spec_find_pattern(data, st.pos + 4, spec_comment_close());
        let stored = st.doc.spec_alloc_text_node(
            data.subrange(st.pos + 4, end),
            xmlElementType::CommentNode,
        );
        lemma_attach_child_same(stored, spec_top(st.stack), node);
    } else if spec_starts_with(data, st.pos, spec_instruction_open()) {
    } else if spec_starts_with(data, st.pos, spec_end_tag_open()) {
    } else if 0 <= st.pos < data.len() && data[st.pos] == LESS_THAN {
        let (name, after_name) = spec_parse_name(data, st.pos + 1).unwrap();
        let (attrs, at) = spec_parse_attributes(data, after_name).unwrap();
        let named = st.doc.spec_alloc_element(name);
        let dressed = spec_attach_attributes(named, node, attrs, 0);
        lemma_attach_attributes_same(named, node, attrs, 0);
        lemma_attach_child_same(dressed, spec_top(st.stack), node);
    } else {
        let end = spec_find_byte(data, st.pos, LESS_THAN);
        if end > st.pos {
            let decoded = spec_decode_entities(data.subrange(st.pos, end)).unwrap();
            if decoded.len() > 0 {
                let stored = st.doc.spec_alloc_text_node(decoded, xmlElementType::TextNode);
                lemma_attach_child_same(stored, spec_top(st.stack), node);
            }
        }
    }
}

/// A run changes nothing of a document but its tree.
pub proof fn lemma_run_same(data: Seq<u8>, st: ParseState)
    requires
        spec_run(data, st) is Some,
    ensures
        spec_same_metadata(st.doc, spec_run(data, st).unwrap().doc),
    decreases data.len() - st.pos,
{
    reveal(spec_run);
    let at = spec_skip_whitespace(data, st.pos);
    if st.pos < 0 || st.pos >= data.len() || at >= data.len() {
    } else {
        let here = ParseState { pos: at, ..st };
        let next = spec_step(data, here).unwrap();
        lemma_step_same(data, here);
        lemma_run_same(data, next);
    }
}

/// The XML declaration changes nothing of a document but the declared
/// version and encoding.
pub proof fn lemma_declaration_same(data: Seq<u8>, pos: int, doc: Document)
    requires
        spec_declaration_attributes(data, pos, doc) is Some,
    ensures
        spec_same_document(doc, spec_declaration_attributes(data, pos, doc).unwrap().0),
        spec_declaration_attributes(data, pos, doc).unwrap().0.arena().nodes == doc.arena().nodes,
    decreases data.len() - pos,
{
    let at = spec_skip_whitespace(data, pos);
    if spec_starts_with(data, at, spec_instruction_close()) {
    } else {
        let pair = spec_name_value(data, at).unwrap();
        lemma_declaration_same(data, pair.next, spec_declare(doc, pair.name, pair.value));
    }
}

/// A parse keeps the document that it fills: the document that it gives
/// has the address, the parse options and every other field of the root
/// record of the document that it was given, but for the ends of the list
/// of top-level nodes, and it has the same source URL. Its version and its
/// encoding are those that the document had, unless the input declares
/// others.
pub proof fn lemma_parse_keeps_document(bytes: Seq<u8>, doc: Document)
    requires
        spec_parse(bytes, doc) is Some,
    ensures
        spec_same_document(doc, spec_parse(bytes, doc).unwrap()),
        spec_parse(bytes, doc).unwrap().record.doc == doc.record.doc,
        spec_parse(bytes, doc).unwrap().record.parseFlags == doc.record.parseFlags,
        spec_parse(bytes, doc).unwrap().arena().url == doc.arena().url,
        !spec_starts_with(
            spec_strip_utf8_bom(bytes),
            spec_skip_whitespace(spec_strip_utf8_bom(bytes), 0),
            spec_declaration_open(),
        ) ==> spec_same_metadata(doc, spec_parse(bytes, doc).unwrap()),
{
    let data = spec_strip_utf8_bom(bytes);
    let start = spec_skip_whitespace(data, 0);
    let cleared = doc.spec_clear_tree();
    let (declared, pos) = spec_parse_xml_declaration(data, start, cleared).unwrap();
    if spec_starts_with(data, start, spec_declaration_open()) {
        lemma_declaration_same(data, start + 5, cleared);
    }
    let begin = ParseState { pos, doc: declared, stack: Seq::empty(), root_count: 0 };
    lemma_run_same(data, begin);
}

/// The empty input is refused: it has no top-level element.
pub proof fn lemma_empty_input_is_refused(doc: Document)
    ensures
        spec_parse(Seq::<u8>::empty(), doc) is None,
{
    reveal(spec_run);
    let data = spec_strip_utf8_bom(Seq::<u8>::empty());
    assert(data.len() == 0);
    assert(spec_skip_whitespace(data, 0) == 0);
    assert(!spec_starts_with(data, 0, spec_declaration_open()));
}

} // verus!
