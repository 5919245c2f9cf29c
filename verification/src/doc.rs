//! The document store: the owner of one document, with the operations that
//! allocate records, link them into the tree, and hand the document across
//! the boundary by its address.

use crate::extras::{
    duplicate_null_terminated, lemma_bounded, spec_c_string_bytes, spec_default_encoding,
    spec_default_version, spec_slot_ok, Extras, XmlDocExtras,
};
use crate::links::{
    lemma_tail_is, spec_attr_links, spec_chain_ends, spec_chain_fuel, spec_chain_tail,
    spec_node_links, spec_ns_links, spec_tail,
};
use crate::registry::{register_extras, take_extras, HandleRegistry};
use crate::shape::{
    lemma_append_attribute_linked, lemma_attach_child_linked, lemma_push_linked,
    spec_attr_unlinked,
};
use crate::tree::{xmlAttr, xmlDoc, xmlElementType, xmlNode, xmlNs};
use vstd::prelude::*;

verus! {

/// The copy that a document keeps of a terminated string: its text and the
/// terminator.
pub open spec fn spec_duplicate(text: Option<Seq<u8>>) -> Option<Seq<u8>> {
    match text {
        Some(bytes) => Some(spec_c_string_bytes(bytes).push(0u8)),
        None => None,
    }
}

/// The view of an optional byte slice.
pub open spec fn spec_slice_view(text: Option<&[u8]>) -> Option<Seq<u8>> {
    match text {
        Some(bytes) => Some(bytes@),
        None => None,
    }
}

/// The nodes after `child` was linked behind `tail`: first the child's
/// `prev` is set to the tail, then the tail's `next` to the child.
pub open spec fn spec_splice(nodes: Seq<xmlNode>, tail: usize, child: usize) -> Seq<xmlNode> {
    let back = nodes.update(child as int, xmlNode { prev: Some(tail), ..nodes[child as int] });
    back.update(tail as int, xmlNode { next: Some(child), ..back[tail as int] })
}

/// One document: its root record, and its metadata and arenas.
pub struct Document {
    pub record: xmlDoc,
    pub extras: Extras,
}

impl Document {
    /// The metadata and arenas of the document.
    pub open spec fn arena(self) -> Extras {
        self.extras
    }

    /// The address of the document.
    pub open spec fn address(self) -> usize {
        self.record.doc
    }

    /// The document with other arenas.
    pub open spec fn with_arena(self, arena: Extras) -> Document {
        Document { extras: arena, ..self }
    }

    /// The document with other nodes.
    pub open spec fn with_nodes(self, nodes: Seq<xmlNode>) -> Document {
        self.with_arena(Extras { nodes, ..self.arena() })
    }

    /// Well-formedness: the arenas are well formed, their records all name
    /// the document as their owner, and the ends of its list of top-level
    /// nodes are slots that exist.
    pub open spec fn wf(self) -> bool {
        &&& self.extras.wf()
        &&& self.extras.owned_by(self.record.doc)
        &&& spec_slot_ok(self.record.children, self.extras.nodes.len())
        &&& spec_slot_ok(self.record.last, self.extras.nodes.len())
    }

    /// Whether `slot` holds a node of the document.
    pub open spec fn has_node(self, slot: usize) -> bool {
        slot < self.arena().nodes.len()
    }

    /// Whether `slot` holds an attribute of the document.
    pub open spec fn has_attr(self, slot: usize) -> bool {
        slot < self.arena().attrs.len()
    }

    /// Whether `slot` holds a namespace declaration of the document.
    pub open spec fn has_ns(self, slot: usize) -> bool {
        slot < self.arena().namespaces.len()
    }

    /// An empty document at `address` with the given parse options, source
    /// URL and encoding.
    pub open spec fn spec_new(
        address: usize,
        options: i32,
        url: Option<Seq<u8>>,
        encoding: Option<Seq<u8>>,
    ) -> Document {
        Document {
            record: xmlDoc::spec_new(address, options),
            extras: Extras::spec_new(None, spec_duplicate(encoding), spec_duplicate(url)),
        }
    }

    /// An empty document at `address` with the given version.
    pub open spec fn spec_with_version(address: usize, version: Option<Seq<u8>>) -> Document {
        Document {
            record: xmlDoc::spec_new(address, 0),
            extras: Extras::spec_new(spec_duplicate(version), None, None),
        }
    }

    /// The document without its tree: no top-level nodes, empty arenas, the
    /// metadata as it was.
    pub open spec fn spec_clear_tree(self) -> Document {
        Document {
            record: xmlDoc { children: None, last: None, ..self.record },
            extras: self.arena().spec_clear_tree_storage(),
        }
    }

    /// The document with `version` declared.
    pub open spec fn spec_set_version_bytes(self, version: Seq<u8>) -> Document {
        self.with_arena(Extras { version: Some(version.push(0u8)), ..self.arena() })
    }

    /// The document with `encoding` declared.
    pub open spec fn spec_set_encoding_bytes(self, encoding: Seq<u8>) -> Document {
        self.with_arena(Extras { encoding: Some(encoding.push(0u8)), ..self.arena() })
    }

    /// The document after an element named `name` was allocated: the name
    /// is stored as a new string and the element, linked to nothing, as a new
    /// node. The element has the slot `self.arena().nodes.len()`.
    pub open spec fn spec_alloc_element(self, name: Seq<u8>) -> Document {
        let name_ptr = self.arena().strings.len() as usize;
        self.with_arena(
            self.arena().spec_alloc_string(name).spec_alloc_node(
                xmlNode::spec_new(xmlElementType::ElementNode, Some(name_ptr), None, self.record.doc),
            ),
        )
    }

    /// The document after a node of kind `node_type` with the given content
    /// and no name was allocated. The node has the slot
    /// `self.arena().nodes.len()`.
    pub open spec fn spec_alloc_text_node(self, content: Seq<u8>, node_type: xmlElementType) -> Document {
        let content_ptr = self.arena().strings.len() as usize;
        self.with_arena(
            self.arena().spec_alloc_string(content).spec_alloc_node(
                xmlNode::spec_new(node_type, None, Some(content_ptr), self.record.doc),
            ),
        )
    }

    /// The document after a processing instruction with the given target
    /// was allocated; empty content is not stored. The node has the slot
    /// `self.arena().nodes.len()`.
    pub open spec fn spec_alloc_processing_instruction(
        self,
        target: Seq<u8>,
        content: Seq<u8>,
    ) -> Document {
        let name_ptr = self.arena().strings.len() as usize;
        let named = self.arena().spec_alloc_string(target);
        if content.len() == 0 {
            self.with_arena(
                named.spec_alloc_node(
                    xmlNode::spec_new(xmlElementType::PiNode, Some(name_ptr), None, self.record.doc),
                ),
            )
        } else {
            let content_ptr = named.strings.len() as usize;
            self.with_arena(
                named.spec_alloc_string(content).spec_alloc_node(
                    xmlNode::spec_new(
                        xmlElementType::PiNode,
                        Some(name_ptr),
                        Some(content_ptr),
                        self.record.doc,
                    ),
                ),
            )
        }
    }

    /// The document after an attribute named `name`, without a value and
    /// linked to nothing, was allocated. The attribute has the slot
    /// `self.arena().attrs.len()`.
    pub open spec fn spec_alloc_attribute(self, name: Seq<u8>) -> Document {
        let name_ptr = self.arena().strings.len() as usize;
        self.with_arena(
            self.arena().spec_alloc_string(name).spec_alloc_attr(
                xmlAttr::spec_new(Some(name_ptr), self.record.doc),
            ),
        )
    }

    /// The document after a namespace declaration was allocated; an absent
    /// or empty name or prefix is not stored. The declaration has the slot
    /// `self.arena().namespaces.len()`.
    pub open spec fn spec_alloc_namespace(
        self,
        href: Option<Seq<u8>>,
        prefix: Option<Seq<u8>>,
    ) -> Document {
        let with_href = match href {
            Some(value) => if value.len() > 0 {
                self.arena().spec_alloc_string(value)
            } else {
                self.arena()
            },
            None => self.arena(),
        };
        let href_ptr = match href {
            Some(value) => if value.len() > 0 {
                Some(self.arena().strings.len() as usize)
            } else {
                None
            },
            None => None,
        };
        let with_prefix = match prefix {
            Some(value) => if value.len() > 0 {
                with_href.spec_alloc_string(value)
            } else {
                with_href
            },
            None => with_href,
        };
        let prefix_ptr = match prefix {
            Some(value) => if value.len() > 0 {
                Some(with_href.strings.len() as usize)
            } else {
                None
            },
            None => None,
        };
        self.with_arena(with_prefix.spec_alloc_ns(xmlNs::spec_new(href_ptr, prefix_ptr, self.record.doc)))
    }

    /// The document after its `xml` namespace was asked for.
    pub open spec fn spec_ensure_xml_namespace(self) -> Document {
        self.with_arena(self.arena().spec_ensure_xml_namespace(self.record.doc))
    }

    /// The head of the child list of `parent`, or of the list of top-level
    /// nodes where `parent` is absent.
    pub open spec fn spec_first_child(self, parent: Option<usize>) -> Option<usize> {
        match parent {
            Some(p) => self.arena().nodes[p as int].children,
            None => self.record.children,
        }
    }

    /// The cached tail of the child list of `parent`, or of the list of
    /// top-level nodes where `parent` is absent.
    pub open spec fn spec_last_child(self, parent: Option<usize>) -> Option<usize> {
        match parent {
            Some(p) => self.arena().nodes[p as int].last,
            None => self.record.last,
        }
    }

    /// The document with the ends of the child list of `parent`, or of the
    /// list of top-level nodes, set to `first` and `last`.
    pub open spec fn spec_set_children(
        self,
        parent: Option<usize>,
        first: Option<usize>,
        last: Option<usize>,
    ) -> Document {
        match parent {
            Some(p) => self.with_nodes(
                self.arena().nodes.update(
                    p as int,
                    xmlNode { children: first, last, ..self.arena().nodes[p as int] },
                ),
            ),
            None => Document { record: xmlDoc { children: first, last, ..self.record }, ..self },
        }
    }

    /// The tail onto which a node is spliced in a list of children with head
    /// `first`: the cached tail where there is one, else the slot where the
    /// list from `first` ends.
    pub open spec fn spec_splice_tail(self, first: usize, cached: Option<usize>) -> usize {
        match cached {
            Some(last) => last,
            None => spec_tail(spec_node_links(self.arena().nodes), first),
        }
    }

    /// Whether `child` can be attached under `parent`: both are nodes of the
    /// document, and where the list has a head but no cached tail, the list
    /// ends.
    pub open spec fn spec_can_attach(self, parent: Option<usize>, child: usize) -> bool {
        &&& self.has_node(child)
        &&& parent matches Some(p) ==> self.has_node(p)
        &&& match self.spec_first_child(parent) {
            Some(first) => self.spec_last_child(parent) is None ==> spec_chain_ends(
                spec_node_links(self.spec_detach(parent, child).arena().nodes),
                first,
            ),
            None => true,
        }
    }

    /// The document after `child` was cut off from its siblings and told its
    /// new parent.
    pub open spec fn spec_detach(self, parent: Option<usize>, child: usize) -> Document {
        self.with_nodes(
            self.arena().nodes.update(
                child as int,
                xmlNode { next: None, prev: None, parent, ..self.arena().nodes[child as int] },
            ),
        )
    }

    /// The document after `child` was spliced onto the tail of the child
    /// list of `parent`, or of the list of top-level nodes where `parent` is
    /// absent.
    ///
    /// The child forgets its siblings and learns its parent. Into an empty
    /// list it goes as head and tail. Otherwise it goes behind the tail: the
    /// child's `prev` is the tail, the tail's `next` is the child, and the
    /// child is the new cached tail.
    pub open spec fn spec_attach_child(self, parent: Option<usize>, child: usize) -> Document {
        let cut = self.spec_detach(parent, child);
        match cut.spec_first_child(parent) {
            None => cut.spec_set_children(parent, Some(child), Some(child)),
            Some(first) => {
                let tail = cut.spec_splice_tail(first, cut.spec_last_child(parent));
                let spliced = cut.with_nodes(spec_splice(cut.arena().nodes, tail, child));
                spliced.spec_set_children(parent, spliced.spec_first_child(parent), Some(child))
            },
        }
    }

    /// Whether `attr` can be appended to the attributes of `element`: both
    /// are records of the document, and the attribute list of the element
    /// ends.
    pub open spec fn spec_can_append_attribute(self, element: usize, attr: usize) -> bool {
        &&& self.has_node(element)
        &&& self.has_attr(attr)
        &&& self.arena().nodes[element as int].properties matches Some(first) ==> spec_chain_ends(
            spec_attr_links(self.spec_own_attribute(element, attr).arena().attrs),
            first,
        )
    }

    /// The document after `attr` was cut off from its siblings and told its
    /// element.
    pub open spec fn spec_own_attribute(self, element: usize, attr: usize) -> Document {
        self.with_arena(
            Extras {
                attrs: self.arena().attrs.update(
                    attr as int,
                    xmlAttr {
                        parent: Some(element),
                        next: None,
                        prev: None,
                        ..self.arena().attrs[attr as int]
                    },
                ),
                ..self.arena()
            },
        )
    }

    /// The document after `attr` was spliced onto the tail of the attribute
    /// list of `element`: as its head where the list was empty, else behind
    /// the slot where the list ends.
    pub open spec fn spec_append_attribute(self, element: usize, attr: usize) -> Document {
        let own = self.spec_own_attribute(element, attr);
        match own.arena().nodes[element as int].properties {
            None => own.with_nodes(
                own.arena().nodes.update(
                    element as int,
                    xmlNode { properties: Some(attr), ..own.arena().nodes[element as int] },
                ),
            ),
            Some(first) => {
                let tail = spec_tail(spec_attr_links(own.arena().attrs), first);
                let forth = own.arena().attrs.update(
                    tail as int,
                    xmlAttr { next: Some(attr), ..own.arena().attrs[tail as int] },
                );
                let back = forth.update(
                    attr as int,
                    xmlAttr { prev: Some(tail), ..forth[attr as int] },
                );
                own.with_arena(Extras { attrs: back, ..own.arena() })
            },
        }
    }

    /// Whether `ns` can be appended to the declarations of `element`: where
    /// both are given, both are records of the document and the declaration
    /// list of the element ends.
    pub open spec fn spec_can_append_namespace(self, element: Option<usize>, ns: Option<usize>) -> bool {
        match (element, ns) {
            (Some(e), Some(n)) => {
                &&& self.has_node(e)
                &&& self.has_ns(n)
                &&& self.arena().nodes[e as int].nsDef matches Some(first) ==> spec_chain_ends(
                    spec_ns_links(self.spec_cut_namespace(n).arena().namespaces),
                    first,
                )
            },
            _ => true,
        }
    }

    /// The document after the declaration `ns` was cut off from what
    /// followed it.
    pub open spec fn spec_cut_namespace(self, ns: usize) -> Document {
        self.with_arena(
            Extras {
                namespaces: self.arena().namespaces.update(
                    ns as int,
                    xmlNs { next: None, ..self.arena().namespaces[ns as int] },
                ),
                ..self.arena()
            },
        )
    }

    /// The document after `ns` was spliced onto the tail of the declaration
    /// list of `element`; unchanged where either is absent.
    pub open spec fn spec_append_namespace(self, element: Option<usize>, ns: Option<usize>) -> Document {
        match (element, ns) {
            (Some(e), Some(n)) => {
                let cut = self.spec_cut_namespace(n);
                match cut.arena().nodes[e as int].nsDef {
                    None => cut.with_nodes(
                        cut.arena().nodes.update(
                            e as int,
                            xmlNode { nsDef: Some(n), ..cut.arena().nodes[e as int] },
                        ),
                    ),
                    Some(first) => {
                        let tail = spec_tail(spec_ns_links(cut.arena().namespaces), first);
                        cut.with_arena(
                            Extras {
                                namespaces: cut.arena().namespaces.update(
                                    tail as int,
                                    xmlNs { next: Some(n), ..cut.arena().namespaces[tail as int] },
                                ),
                                ..cut.arena()
                            },
                        )
                    },
                }
            },
            _ => self,
        }
    }

    /// The document after the namespace of `element` was set to `ns`, or
    /// cleared where `ns` is absent; unchanged where `element` is absent.
    pub open spec fn spec_set_node_namespace(self, element: Option<usize>, ns: Option<usize>) -> Document {
        match element {
            Some(e) => self.with_nodes(
                self.arena().nodes.update(e as int, xmlNode { ns, ..self.arena().nodes[e as int] }),
            ),
            None => self,
        }
    }

    /// What is left to the caller after an export: the root record.
    pub open spec fn spec_into_raw(self) -> xmlDoc {
        self.record
    }

    /// The registry after the document was exported: its metadata is
    /// entered under its address.
    pub open spec fn spec_export(self, registry: Map<usize, Extras>) -> Map<usize, Extras> {
        registry.insert(self.record.doc, self.extras)
    }

    /// The document that an import makes of the root record `raw`: the
    /// record with the metadata that the registry holds under its address,
    /// and with empty metadata where it holds none: nothing declared and
    /// empty arenas.
    pub open spec fn spec_from_raw(raw: xmlDoc, registry: Map<usize, Extras>) -> Document {
        Document {
            record: raw,
            extras: if registry.contains_key(raw.doc) {
                registry[raw.doc]
            } else {
                Extras::spec_new(None, None, None)
            },
        }
    }
}


/// The owner of one document: the root record, the metadata and the arenas.
pub struct XmlDocument {
    inner: xmlDoc,
    extras: XmlDocExtras,
}

impl View for XmlDocument {
    type V = Document;

    closed spec fn view(&self) -> Document {
        Document { record: self.inner, extras: self.extras@ }
    }
}

/// The slot where the list of nodes through `first` ends, found by walking
/// the list.
fn node_list_tail(extras: &XmlDocExtras, first: usize) -> (tail: usize)
    requires
        spec_chain_ends(spec_node_links(extras@.nodes), first),
    ensures
        tail == spec_tail(spec_node_links(extras@.nodes), first),
        tail < extras@.nodes.len(),
{
    let ghost links = spec_node_links(extras@.nodes);
    let ghost mut fuel: nat = spec_chain_fuel(links, first);
    let mut last: usize = first;
    proof {
        lemma_tail_is(links, first, fuel);
    }
    loop
        invariant
            links == spec_node_links(extras@.nodes),
            last < extras@.nodes.len(),
            spec_chain_tail(links, last, fuel) == Some(spec_tail(links, first)),
            spec_tail(links, first) < links.len(),
        decreases fuel,
    {
        match extras.node(last).next {
            None => {
                return last;
            },
            Some(next) => {
                proof {
                    fuel = (fuel - 1) as nat;
                }
                last = next;
            },
        }
    }
}

/// The slot where the list of attributes through `first` ends, found by
/// walking the list.
fn attr_list_tail(extras: &XmlDocExtras, first: usize) -> (tail: usize)
    requires
        spec_chain_ends(spec_attr_links(extras@.attrs), first),
    ensures
        tail == spec_tail(spec_attr_links(extras@.attrs), first),
        tail < extras@.attrs.len(),
{
    let ghost links = spec_attr_links(extras@.attrs);
    let ghost mut fuel: nat = spec_chain_fuel(links, first);
    let mut current: usize = first;
    proof {
        lemma_tail_is(links, first, fuel);
    }
    loop
        invariant
            links == spec_attr_links(extras@.attrs),
            current < extras@.attrs.len(),
            spec_chain_tail(links, current, fuel) == Some(spec_tail(links, first)),
            spec_tail(links, first) < links.len(),
        decreases fuel,
    {
        match extras.attr(current).next {
            None => {
                return current;
            },
            Some(next) => {
                proof {
                    fuel = (fuel - 1) as nat;
                }
                current = next;
            },
        }
    }
}

/// The slot where the list of namespace declarations through `first` ends,
/// found by walking the list.
fn ns_list_tail(extras: &XmlDocExtras, first: usize) -> (tail: usize)
    requires
        spec_chain_ends(spec_ns_links(extras@.namespaces), first),
    ensures
        tail == spec_tail(spec_ns_links(extras@.namespaces), first),
        tail < extras@.namespaces.len(),
{
    let ghost links = spec_ns_links(extras@.namespaces);
    let ghost mut fuel: nat = spec_chain_fuel(links, first);
    let mut current: usize = first;
    proof {
        lemma_tail_is(links, first, fuel);
    }
    loop
        invariant
            links == spec_ns_links(extras@.namespaces),
            current < extras@.namespaces.len(),
            spec_chain_tail(links, current, fuel) == Some(spec_tail(links, first)),
            spec_tail(links, first) < links.len(),
        decreases fuel,
    {
        match extras.ns(current).next {
            None => {
                return current;
            },
            Some(next) => {
                proof {
                    fuel = (fuel - 1) as nat;
                }
                current = next;
            },
        }
    }
}

/// Cuts `child` off from its siblings and tells it its new parent.
fn detach(extras: &mut XmlDocExtras, parent: Option<usize>, child: usize, Ghost(address): Ghost<usize>)
    requires
        old(extras)@.wf(),
        old(extras)@.owned_by(address),
        child < old(extras)@.nodes.len(),
        spec_slot_ok(parent, old(extras)@.nodes.len()),
    ensures
        final(extras)@ == (Extras {
            nodes: old(extras)@.nodes.update(
                child as int,
                xmlNode { next: None, prev: None, parent, ..old(extras)@.nodes[child as int] },
            ),
            ..old(extras)@
        }),
        final(extras)@.wf(),
        final(extras)@.owned_by(address),
{
    let mut node = extras.node(child);
    node.next = None;
    node.prev = None;
    node.parent = parent;
    extras.set_node(child, node);
}

/// Links `child` behind `tail`.
fn splice(extras: &mut XmlDocExtras, tail: usize, child: usize, Ghost(address): Ghost<usize>)
    requires
        old(extras)@.wf(),
        old(extras)@.owned_by(address),
        child < old(extras)@.nodes.len(),
        tail < old(extras)@.nodes.len(),
    ensures
        final(extras)@ == (Extras { nodes: spec_splice(old(extras)@.nodes, tail, child), ..old(extras)@ }),
        final(extras)@.wf(),
        final(extras)@.owned_by(address),
{
    let mut behind = extras.node(child);
    behind.prev = Some(tail);
    extras.set_node(child, behind);
    let mut end = extras.node(tail);
    end.next = Some(child);
    extras.set_node(tail, end);
}

/// Sets the ends of the child list of `parent`.
fn set_children(
    extras: &mut XmlDocExtras,
    parent: usize,
    first: Option<usize>,
    last: Option<usize>,
    Ghost(address): Ghost<usize>,
)
    requires
        old(extras)@.wf(),
        old(extras)@.owned_by(address),
        parent < old(extras)@.nodes.len(),
        spec_slot_ok(first, old(extras)@.nodes.len()),
        spec_slot_ok(last, old(extras)@.nodes.len()),
    ensures
        final(extras)@ == (Extras {
            nodes: old(extras)@.nodes.update(
                parent as int,
                xmlNode { children: first, last, ..old(extras)@.nodes[parent as int] },
            ),
            ..old(extras)@
        }),
        final(extras)@.wf(),
        final(extras)@.owned_by(address),
{
    let mut above = extras.node(parent);
    above.children = first;
    above.last = last;
    extras.set_node(parent, above);
}

impl XmlDocument {
    /// Allocates an empty document at `address` with the given parse
    /// options, source URL and encoding. The URL and the encoding are
    /// terminated strings, read up to their terminator.
    pub fn new(address: usize, options: i32, url: Option<&[u8]>, encoding: Option<&[u8]>) -> (doc:
        XmlDocument)
        ensures
            doc@ == Document::spec_new(address, options, spec_slice_view(url), spec_slice_view(encoding)),
            doc@.wf(),
    {
        let extras = XmlDocExtras::new(
            None,
            duplicate_null_terminated(encoding),
            duplicate_null_terminated(url),
        );
        XmlDocument::from_extras(address, options, extras)
    }

    /// Allocates an empty document at `address` with the given version, a
    /// terminated string read up to its terminator.
    pub fn with_version(address: usize, version: Option<&[u8]>) -> (doc: XmlDocument)
        ensures
            doc@ == Document::spec_with_version(address, spec_slice_view(version)),
            doc@.wf(),
    {
        let extras = XmlDocExtras::new(duplicate_null_terminated(version), None, None);
        XmlDocument::from_extras(address, 0, extras)
    }

    /// Makes the root record of an empty document at `address` and joins
    /// the metadata to it.
    pub fn from_extras(address: usize, options: i32, extras: XmlDocExtras) -> (doc: XmlDocument)
        ensures
            doc@ == (Document { record: xmlDoc::spec_new(address, options), extras: extras@ }),
    {
        XmlDocument { inner: xmlDoc::new(address, options), extras }
    }

    /// The address of the document.
    pub fn as_ptr(&self) -> (address: usize)
        ensures
            address == self@.address(),
    {
        self.inner.doc
    }

    /// The address of the document.
    pub fn as_mut_ptr(&mut self) -> (address: usize)
        ensures
            address == old(self)@.address(),
            final(self)@ == old(self)@,
    {
        self.inner.doc
    }

    /// Hands the document over to the caller: what the caller keeps is the
    /// root record, and the metadata is entered in the registry under the
    /// document's address.
    pub fn into_raw(self, registry: &mut HandleRegistry) -> (raw: xmlDoc)
        ensures
            raw == self@.spec_into_raw(),
            final(registry)@ == self@.spec_export(old(registry)@),
    {
        let XmlDocument { inner, extras } = self;
        register_extras(registry, inner.doc, extras);
        inner
    }

    /// Takes a document back from the caller. An absent record gives no
    /// document. Otherwise the metadata that the registry holds under the
    /// record's address is removed from the registry and joined to the
    /// record; where the registry holds none, the document gets empty
    /// metadata: nothing declared and empty arenas.
    ///
    /// The document is well formed where the record and the registered
    /// metadata were a well-formed document, and, where nothing was
    /// registered, where the record has no top-level nodes.
    pub fn from_raw(doc: Option<xmlDoc>, registry: &mut HandleRegistry) -> (owner: Option<XmlDocument>)
        ensures
            doc is None <==> owner is None,
            doc is None ==> final(registry)@ == old(registry)@,
            doc matches Some(raw) ==> {
                &&& owner.unwrap()@ == Document::spec_from_raw(raw, old(registry)@)
                &&& final(registry)@ == old(registry)@.remove(raw.doc)
                &&& owner.unwrap()@.address() == raw.doc
                &&& old(registry)@.contains_key(raw.doc) && (Document {
                    record: raw,
                    extras: old(registry)@[raw.doc],
                }).wf() ==> owner.unwrap()@.wf()
                &&& !old(registry)@.contains_key(raw.doc) && raw.children is None && raw.last is None
                    ==> owner.unwrap()@.wf()
            },
    {
        match doc {
            None => None,
            Some(inner) => {
                let extras = match take_extras(registry, inner.doc) {
                    Some(extras) => extras,
                    None => XmlDocExtras::new(None, None, None),
                };
                proof {
                    lemma_bounded(extras);
                }
                Some(XmlDocument { inner, extras })
            },
        }
    }

    /// Destroys the document with its arenas. What the registry still holds
    /// under the document's address is removed.
    pub fn release(self, registry: &mut HandleRegistry)
        ensures
            final(registry)@ == old(registry)@.remove(self@.address()),
            !final(registry)@.contains_key(self@.address()),
    {
        let _ = take_extras(registry, self.inner.doc);
    }

    /// The root record.
    pub fn record(&self) -> (record: xmlDoc)
        ensures
            record == self@.record,
    {
        self.inner
    }

    /// The metadata and arenas of the document.
    fn extras_mut(&mut self) -> (extras: &mut XmlDocExtras)
        ensures
            extras@ == old(self)@.arena(),
            final(self)@ == old(self)@.with_arena(final(extras)@),
            final(extras)@.spec_bounded(),
    {
        let extras = &mut self.extras;
        proof {
            lemma_bounded(*final(extras));
        }
        extras
    }

    /// The node in `slot`, if the document has one there.
    pub fn node(&self, slot: usize) -> (node: Option<xmlNode>)
        ensures
            node is Some <==> self@.has_node(slot),
            node matches Some(found) ==> found == self@.arena().nodes[slot as int],
    {
        if self.extras.has_node(slot) {
            Some(self.extras.node(slot))
        } else {
            None
        }
    }

    /// The attribute in `slot`, if the document has one there.
    pub fn attribute(&self, slot: usize) -> (attr: Option<xmlAttr>)
        ensures
            attr is Some <==> self@.has_attr(slot),
            attr matches Some(found) ==> found == self@.arena().attrs[slot as int],
    {
        if self.extras.has_attr(slot) {
            Some(self.extras.attr(slot))
        } else {
            None
        }
    }

    /// The namespace declaration in `slot`, if the document has one there.
    pub fn namespace(&self, slot: usize) -> (ns: Option<xmlNs>)
        ensures
            ns is Some <==> self@.has_ns(slot),
            ns matches Some(found) ==> found == self@.arena().namespaces[slot as int],
    {
        if self.extras.has_ns(slot) {
            Some(self.extras.ns(slot))
        } else {
            None
        }
    }

    /// The string in `slot`, terminator included, if the document has one
    /// there.
    pub fn string(&self, slot: usize) -> (bytes: Option<&[u8]>)
        ensures
            bytes is Some <==> slot < self@.arena().strings.len(),
            bytes matches Some(found) ==> found@ == self@.arena().strings[slot as int],
    {
        if self.extras.has_string(slot) {
            Some(self.extras.string(slot))
        } else {
            None
        }
    }

    /// The version that the root record shows, terminator included: the
    /// declared one, or `1.0`.
    pub fn version(&self) -> (bytes: Vec<u8>)
        ensures
            bytes@ == self@.arena().spec_version(),
    {
        self.extras.version_ptr()
    }

    /// The encoding that the root record shows, terminator included: the
    /// declared one, or `UTF-8`.
    pub fn encoding(&self) -> (bytes: Vec<u8>)
        ensures
            bytes@ == self@.arena().spec_encoding(),
    {
        self.extras.encoding_ptr()
    }

    /// The source URL that the root record shows, terminator included, if
    /// the document has one.
    pub fn url(&self) -> (bytes: Option<Vec<u8>>)
        ensures
            bytes is Some <==> self@.arena().url is Some,
            bytes matches Some(found) ==> found@ == self@.arena().url.unwrap(),
    {
        self.extras.url_ptr()
    }

    /// Drops the whole tree at once: the list of top-level nodes becomes
    /// empty and the arenas are emptied in bulk. Every slot handed out
    /// before is void afterwards.
    pub fn clear_tree(&mut self)
        ensures
            final(self)@ == old(self)@.spec_clear_tree(),
            old(self)@.arena().spec_metadata_ok() ==> final(self)@.wf(),
    {
        self.inner.children = None;
        self.inner.last = None;
        self.extras_mut().clear_tree_storage();
    }

    /// Declares the version of the document.
    pub fn set_version_bytes(&mut self, version: &[u8])
        requires
            old(self)@.wf(),
        ensures
            final(self)@ == old(self)@.spec_set_version_bytes(version@),
            final(self)@.wf(),
    {
        let _ = self.extras_mut().set_version(version);
    }

    /// Declares the encoding of the document.
    pub fn set_encoding_bytes(&mut self, encoding: &[u8])
        requires
            old(self)@.wf(),
        ensures
            final(self)@ == old(self)@.spec_set_encoding_bytes(encoding@),
            final(self)@.wf(),
    {
        let _ = self.extras_mut().set_encoding(encoding);
    }

    /// Allocates an element named `name`, linked to nothing, and returns
    /// its slot.
    pub fn alloc_element(&mut self, name: &[u8]) -> (slot: usize)
        requires
            old(self)@.wf(),
        ensures
            final(self)@ == old(self)@.spec_alloc_element(name@),
            slot == old(self)@.arena().nodes.len(),
            final(self)@.wf(),
            old(self)@.spec_linked() ==> final(self)@.spec_linked() && final(self)@.spec_detached(
                slot,
            ),
    {
        let doc_ptr = self.inner.doc;
        let extras = self.extras_mut();
        let name_ptr = extras.alloc_const_string(name);
        let slot = extras.alloc_node(
            xmlNode::new(xmlElementType::ElementNode, Some(name_ptr), None, doc_ptr),
        );
        proof {
            if old(self)@.spec_linked() {
                lemma_push_linked(old(self)@, self@, self@.arena().nodes[slot as int], slot);
            }
        }
        slot
    }

    /// Allocates a node of kind `node_type` with the given content and no
    /// name, linked to nothing, and returns its slot.
    pub fn alloc_text_node(&mut self, content: &[u8], node_type: xmlElementType) -> (slot: usize)
        requires
            old(self)@.wf(),
        ensures
            final(self)@ == old(self)@.spec_alloc_text_node(content@, node_type),
            slot == old(self)@.arena().nodes.len(),
            final(self)@.wf(),
            old(self)@.spec_linked() ==> final(self)@.spec_linked() && final(self)@.spec_detached(
                slot,
            ),
    {
        let doc_ptr = self.inner.doc;
        let extras = self.extras_mut();
        let content_ptr = extras.alloc_string(content);
        let slot = extras.alloc_node(xmlNode::new(node_type, None, Some(content_ptr), doc_ptr));
        proof {
            if old(self)@.spec_linked() {
                lemma_push_linked(old(self)@, self@, self@.arena().nodes[slot as int], slot);
            }
        }
        slot
    }

    /// Allocates a processing instruction with the given target and
    /// content, linked to nothing, and returns its slot. Empty content is
    /// not stored.
    pub fn alloc_processing_instruction(&mut self, target: &[u8], content: &[u8]) -> (slot: usize)
        requires
            old(self)@.wf(),
        ensures
            final(self)@ == old(self)@.spec_alloc_processing_instruction(target@, content@),
            slot == old(self)@.arena().nodes.len(),
            final(self)@.wf(),
            old(self)@.spec_linked() ==> final(self)@.spec_linked() && final(self)@.spec_detached(
                slot,
            ),
    {
        let doc_ptr = self.inner.doc;
        let extras = self.extras_mut();
        let name_ptr = extras.alloc_const_string(target);
        let content_ptr = if content.len() == 0 {
            None
        } else {
            Some(extras.alloc_string(content))
        };
        let slot = extras.alloc_node(
            xmlNode::new(xmlElementType::PiNode, Some(name_ptr), content_ptr, doc_ptr),
        );
        proof {
            if old(self)@.spec_linked() {
                lemma_push_linked(old(self)@, self@, self@.arena().nodes[slot as int], slot);
            }
        }
        slot
    }

    /// Allocates an attribute named `name`, without a value and linked to
    /// nothing, and returns its slot.
    pub fn alloc_attribute(&mut self, name: &[u8]) -> (slot: usize)
        requires
            old(self)@.wf(),
        ensures
            final(self)@ == old(self)@.spec_alloc_attribute(name@),
            slot == old(self)@.arena().attrs.len(),
            final(self)@.wf(),
    {
        let doc_ptr = self.inner.doc;
        let extras = self.extras_mut();
        let name_ptr = extras.alloc_const_string(name);
        extras.alloc_attr(xmlAttr::new(Some(name_ptr), doc_ptr))
    }

    /// Allocates a namespace declaration, linked to nothing, and returns
    /// its slot. An absent or empty name or prefix is not stored.
    pub fn alloc_namespace(&mut self, href: Option<&[u8]>, prefix: Option<&[u8]>) -> (slot: usize)
        requires
            old(self)@.wf(),
        ensures
            final(self)@ == old(self)@.spec_alloc_namespace(spec_slice_view(href), spec_slice_view(prefix)),
            slot == old(self)@.arena().namespaces.len(),
            final(self)@.wf(),
    {
        let doc_ptr = self.inner.doc;
        let extras = self.extras_mut();
        let href_ptr = match href {
            Some(value) => if value.len() > 0 {
                Some(extras.alloc_const_string(value))
            } else {
                None
            },
            None => None,
        };
        let prefix_ptr = match prefix {
            Some(value) => if value.len() > 0 {
                Some(extras.alloc_const_string(value))
            } else {
                None
            },
            None => None,
        };
        extras.alloc_ns(xmlNs::new(href_ptr, prefix_ptr, doc_ptr))
    }

    /// Returns the slot of the `xml` namespace of the document, creating
    /// and caching the declaration on first use. Where the cache was in
    /// order, which it is in a new and in a cleared document and stays by
    /// this call, the slot holds the declaration of the `xml` namespace,
    /// and a second call returns the same slot and changes nothing.
    pub fn ensure_xml_namespace(&mut self) -> (slot: usize)
        requires
            old(self)@.wf(),
        ensures
            final(self)@ == old(self)@.spec_ensure_xml_namespace(),
            slot == old(self)@.arena().spec_xml_namespace_slot(),
            final(self)@.wf(),
            final(self)@.arena().xml_namespace == Some(slot),
            old(self)@.arena().spec_xml_cache_ok() ==> final(self)@.arena().spec_is_xml_namespace(
                slot,
            ) && final(self)@.arena().spec_xml_cache_ok(),
    {
        let doc_ptr = self.inner.doc;
        let extras = self.extras_mut();
        extras.ensure_xml_namespace(doc_ptr)
    }
}


impl XmlDocument {
    /// Overwrites the node in `slot` with a record whose pointers designate
    /// slots of this document.
    pub fn set_node(&mut self, slot: usize, node: xmlNode)
        requires
            old(self)@.wf(),
            old(self)@.has_node(slot),
            old(self)@.arena().node_ok(node),
            node.doc == old(self)@.address(),
        ensures
            final(self)@ == old(self)@.with_nodes(old(self)@.arena().nodes.update(slot as int, node)),
            final(self)@.wf(),
    {
        self.extras_mut().set_node(slot, node);
    }

    /// Overwrites the attribute in `slot` with a record whose pointers
    /// designate slots of this document.
    pub fn set_attribute(&mut self, slot: usize, attr: xmlAttr)
        requires
            old(self)@.wf(),
            old(self)@.has_attr(slot),
            old(self)@.arena().attr_ok(attr),
            attr.doc == old(self)@.address(),
        ensures
            final(self)@ == old(self)@.with_arena(
                Extras { attrs: old(self)@.arena().attrs.update(slot as int, attr), ..old(self)@.arena() },
            ),
            final(self)@.wf(),
    {
        self.extras_mut().set_attr(slot, attr);
    }

    /// Overwrites the namespace declaration in `slot` with a record whose
    /// pointers designate slots of this document.
    pub fn set_namespace(&mut self, slot: usize, ns: xmlNs)
        requires
            old(self)@.wf(),
            old(self)@.has_ns(slot),
            old(self)@.arena().ns_ok(ns),
            ns.context == old(self)@.address(),
        ensures
            final(self)@ == old(self)@.with_arena(
                Extras {
                    namespaces: old(self)@.arena().namespaces.update(slot as int, ns),
                    ..old(self)@.arena()
                },
            ),
            final(self)@.wf(),
    {
        self.extras_mut().set_ns(slot, ns);
    }

    /// Splices `child` onto the tail of the child list of `parent`, or of
    /// the list of top-level nodes where `parent` is absent.
    ///
    /// The cached tail of the list is used where there is one; where the
    /// list has a head and no cached tail, the tail is found by walking the
    /// list.
    pub fn attach_child(&mut self, parent: Option<usize>, child: usize)
        requires
            old(self)@.wf(),
            old(self)@.spec_can_attach(parent, child),
        ensures
            final(self)@ == old(self)@.spec_attach_child(parent, child),
            final(self)@.wf(),
            final(self)@.address() == old(self)@.address(),
            old(self)@.spec_linked() && old(self)@.spec_detached(child) && parent != Some(child)
                ==> final(self)@.spec_linked(),
    {
        proof {
            if old(self)@.spec_linked() && old(self)@.spec_detached(child) && parent != Some(child) {
                lemma_attach_child_linked(old(self)@, parent, child);
            }
        }
        let top_first = self.inner.children;
        let top_last = self.inner.last;
        let address = self.inner.doc;
        let extras = self.extras_mut();
        detach(extras, parent, child, Ghost(address));
        match parent {
            Some(parent_ptr) => {
                let parent_node = extras.node(parent_ptr);
                match parent_node.children {
                    None => {
                        set_children(extras, parent_ptr, Some(child), Some(child), Ghost(address));
                    },
                    Some(first) => {
                        let last = match parent_node.last {
                            Some(cached) => cached,
                            None => node_list_tail(extras, first),
                        };
                        splice(extras, last, child, Ghost(address));
                        let above = extras.node(parent_ptr);
                        set_children(extras, parent_ptr, above.children, Some(child), Ghost(address));
                    },
                }
            },
            None => {
                match top_first {
                    None => {
                        self.inner.children = Some(child);
                        self.inner.last = Some(child);
                    },
                    Some(first) => {
                        let last = match top_last {
                            Some(cached) => cached,
                            None => node_list_tail(extras, first),
                        };
                        splice(extras, last, child, Ghost(address));
                        self.inner.last = Some(child);
                    },
                }
            },
        }
    }

    /// Splices `attr` onto the tail of the attribute list of `element`. The
    /// tail is found by walking the list, so the cost grows with the number
    /// of attributes that the element has.
    pub fn append_attribute(&mut self, element: usize, attr: usize)
        requires
            old(self)@.wf(),
            old(self)@.spec_can_append_attribute(element, attr),
        ensures
            final(self)@ == old(self)@.spec_append_attribute(element, attr),
            final(self)@.wf(),
            old(self)@.spec_attrs_linked() && spec_attr_unlinked(
                old(self)@.arena().nodes,
                old(self)@.arena().attrs,
                attr,
            ) ==> final(self)@.spec_attrs_linked(),
    {
        proof {
            if old(self)@.spec_attrs_linked() && spec_attr_unlinked(
                old(self)@.arena().nodes,
                old(self)@.arena().attrs,
                attr,
            ) {
                lemma_append_attribute_linked(old(self)@, element, attr);
            }
        }
        let extras = self.extras_mut();
        let mut own = extras.attr(attr);
        own.parent = Some(element);
        own.next = None;
        own.prev = None;
        extras.set_attr(attr, own);
        let mut owner = extras.node(element);
        match owner.properties {
            None => {
                owner.properties = Some(attr);
                extras.set_node(element, owner);
            },
            Some(first) => {
                let current = attr_list_tail(extras, first);
                let mut tail = extras.attr(current);
                tail.next = Some(attr);
                extras.set_attr(current, tail);
                let mut behind = extras.attr(attr);
                behind.prev = Some(current);
                extras.set_attr(attr, behind);
            },
        }
    }

    /// Splices the declaration `ns` onto the tail of the declaration list
    /// of `element`; does nothing where either is absent. The tail is found
    /// by walking the list.
    pub fn append_namespace(&mut self, element: Option<usize>, ns: Option<usize>)
        requires
            old(self)@.wf(),
            old(self)@.spec_can_append_namespace(element, ns),
        ensures
            final(self)@ == old(self)@.spec_append_namespace(element, ns),
            final(self)@.wf(),
    {
        match (element, ns) {
            (Some(element_ptr), Some(ns_ptr)) => {
                let extras = self.extras_mut();
                let mut cut = extras.ns(ns_ptr);
                cut.next = None;
                extras.set_ns(ns_ptr, cut);
                let mut owner = extras.node(element_ptr);
                match owner.nsDef {
                    None => {
                        owner.nsDef = Some(ns_ptr);
                        extras.set_node(element_ptr, owner);
                    },
                    Some(first) => {
                        let current = ns_list_tail(extras, first);
                        let mut tail = extras.ns(current);
                        tail.next = Some(ns_ptr);
                        extras.set_ns(current, tail);
                    },
                }
            },
            _ => {
                assert(self@ == old(self)@.with_arena(old(self)@.arena()));
            },
        }
    }

    /// Sets the namespace of `element` to `ns`, or clears it where `ns` is
    /// absent; does nothing where `element` is absent.
    pub fn set_node_namespace(&mut self, element: Option<usize>, ns: Option<usize>)
        requires
            old(self)@.wf(),
            element matches Some(e) ==> old(self)@.has_node(e),
            ns matches Some(n) ==> old(self)@.has_ns(n),
        ensures
            final(self)@ == old(self)@.spec_set_node_namespace(element, ns),
            final(self)@.wf(),
    {
        match element {
            Some(element_ptr) => {
                let extras = self.extras_mut();
                let mut node = extras.node(element_ptr);
                node.ns = ns;
                extras.set_node(element_ptr, node);
            },
            None => {},
        }
    }
}

/// Allocates an empty document at `address` with the given version and
/// exports it at once: the caller keeps the root record, the registry the
/// metadata.
#[allow(non_snake_case)]
pub fn xmlNewDoc(address: usize, version: Option<&[u8]>, registry: &mut HandleRegistry) -> (raw: xmlDoc)
    ensures
        raw == xmlDoc::spec_new(address, 0),
        final(registry)@ == old(registry)@.insert(
            address,
            Document::spec_with_version(address, spec_slice_view(version)).arena(),
        ),
{
    let doc = XmlDocument::with_version(address, version);
    doc.into_raw(registry)
}

/// Releases an exported document: takes it back from the caller and
/// destroys it with its metadata. Afterwards the registry holds no entry
/// under the document's address. An absent record is ignored.
#[allow(non_snake_case)]
pub fn xmlFreeDoc(doc: Option<xmlDoc>, registry: &mut HandleRegistry)
    ensures
        doc is None ==> final(registry)@ == old(registry)@,
        doc matches Some(raw) ==> final(registry)@ == old(registry)@.remove(raw.doc),
        doc matches Some(raw) ==> !final(registry)@.contains_key(raw.doc),
{
    if let Some(owner) = XmlDocument::from_raw(doc, registry) {
        owner.release(registry);
    }
}


/// A document that is exported and then imported by the record that the
/// export left comes back as it was: with its version, its encoding, its
/// source URL and its whole tree. The registry is then as if the export had
/// not been, but for an older entry under the same address, which is gone.
pub proof fn lemma_export_then_import(doc: Document, registry: Map<usize, Extras>)
    ensures
        Document::spec_from_raw(doc.spec_into_raw(), doc.spec_export(registry)) == doc,
        Document::spec_from_raw(doc.spec_into_raw(), doc.spec_export(registry)).arena().spec_version()
            == doc.arena().spec_version(),
        Document::spec_from_raw(
            doc.spec_into_raw(),
            doc.spec_export(registry),
        ).arena().spec_encoding() == doc.arena().spec_encoding(),
        Document::spec_from_raw(doc.spec_into_raw(), doc.spec_export(registry)).arena().url
            == doc.arena().url,
        doc.spec_export(registry).remove(doc.address()) == registry.remove(doc.address()),
        !doc.spec_export(registry).remove(doc.address()).contains_key(doc.address()),
{
    assert(doc.spec_export(registry).remove(doc.address()) =~= registry.remove(doc.address()));
}

/// A record that is imported while the registry holds nothing under its
/// address gives a document with empty metadata: the default version and
/// encoding, no source URL and empty arenas. The registry stays as it was.
pub proof fn lemma_import_unregistered(raw: xmlDoc, registry: Map<usize, Extras>)
    requires
        !registry.contains_key(raw.doc),
    ensures
        Document::spec_from_raw(raw, registry).record == raw,
        Document::spec_from_raw(raw, registry).arena() == Extras::spec_new(None, None, None),
        Document::spec_from_raw(raw, registry).arena().spec_version() == spec_default_version(),
        Document::spec_from_raw(raw, registry).arena().spec_encoding() == spec_default_encoding(),
        Document::spec_from_raw(raw, registry).arena().url is None,
        Document::spec_from_raw(raw, registry).arena().nodes.len() == 0,
        Document::spec_from_raw(raw, registry).arena().spec_metadata_ok(),
        registry.remove(raw.doc) == registry,
{
    assert(registry.remove(raw.doc) =~= registry);
}

} // verus!
