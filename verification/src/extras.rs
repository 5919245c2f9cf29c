//! What a document keeps beside its root record: the declared version,
//! encoding and source URL, and the arenas that own its records and strings.

use crate::tree::{xmlAttr, xmlNode, xmlNs};
use vstd::prelude::*;

verus! {

/// The version that a document has where none was declared: `1.0` and the
/// terminator.
pub open spec fn spec_default_version() -> Seq<u8> {
    seq![0x31u8, 0x2Eu8, 0x30u8, 0u8]
}

/// The encoding that a document has where none was declared: `UTF-8` and the
/// terminator.
pub open spec fn spec_default_encoding() -> Seq<u8> {
    seq![0x55u8, 0x54u8, 0x46u8, 0x2Du8, 0x38u8, 0u8]
}

/// The prefix of the namespace that every document has: `xml`.
pub open spec fn spec_xml_namespace_prefix() -> Seq<u8> {
    seq![0x78u8, 0x6Du8, 0x6Cu8]
}

/// The name of the namespace that every document has:
/// `http://www.w3.org/XML/1998/namespace`.
pub open spec fn spec_xml_namespace_uri() -> Seq<u8> {
    seq![
        0x68u8, 0x74u8, 0x74u8, 0x70u8, 0x3Au8, 0x2Fu8, 0x2Fu8, 0x77u8, 0x77u8, 0x77u8, 0x2Eu8,
        0x77u8, 0x33u8, 0x2Eu8, 0x6Fu8, 0x72u8, 0x67u8, 0x2Fu8, 0x58u8, 0x4Du8, 0x4Cu8, 0x2Fu8,
        0x31u8, 0x39u8, 0x39u8, 0x38u8, 0x2Fu8, 0x6Eu8, 0x61u8, 0x6Du8, 0x65u8, 0x73u8, 0x70u8,
        0x61u8, 0x63u8, 0x65u8,
    ]
}

/// The first position of `bytes` that holds the terminator, or the length of
/// `bytes` if none does.
pub open spec fn spec_terminator(bytes: Seq<u8>, from: int) -> int
    decreases bytes.len() - from,
{
    if from < 0 || from >= bytes.len() {
        bytes.len() as int
    } else if bytes[from] == 0 {
        from
    } else {
        spec_terminator(bytes, from + 1)
    }
}

/// The text of a terminated string: the bytes before the first terminator,
/// or all of them where there is none.
pub open spec fn spec_c_string_bytes(bytes: Seq<u8>) -> Seq<u8> {
    bytes.subrange(0, spec_terminator(bytes, 0))
}

/// Whether `bytes` ends in the terminator.
pub open spec fn spec_terminated(bytes: Seq<u8>) -> bool {
    bytes.len() > 0 && bytes.last() == 0
}

/// Whether a pointer is absent or designates a slot of an arena of `len`
/// records.
pub open spec fn spec_slot_ok(pointer: Option<usize>, len: nat) -> bool {
    pointer matches Some(slot) ==> slot < len
}

/// The terminator lies between `from` and the end; before it, from `from`
/// on, no byte is the terminator.
pub proof fn lemma_terminator(bytes: Seq<u8>, from: int)
    requires
        0 <= from <= bytes.len(),
    ensures
        from <= spec_terminator(bytes, from) <= bytes.len(),
        spec_terminator(bytes, from) < bytes.len() ==> bytes[spec_terminator(bytes, from)] == 0,
        forall|i: int| from <= i < spec_terminator(bytes, from) ==> bytes[i] != 0,
    decreases bytes.len() - from,
{
    if from < bytes.len() && bytes[from] != 0 {
        lemma_terminator(bytes, from + 1);
    }
}

/// A text without the terminator in it that is stored with a terminator is
/// read back as it was.
pub proof fn lemma_c_string_round_trip(text: Seq<u8>)
    requires
        forall|i: int| 0 <= i < text.len() ==> text[i] != 0,
    ensures
        spec_c_string_bytes(text.push(0u8)) == text,
{
    let stored = text.push(0u8);
    lemma_terminator(stored, 0);
    let end = spec_terminator(stored, 0);
    if end < text.len() {
        assert(stored[end] == text[end]);
    }
    if end > text.len() {
        assert(stored[text.len() as int] == 0);
    }
    assert(end == text.len());
    assert(stored.subrange(0, end) =~= text);
}

/// Copies `data` and appends the terminator.
pub fn to_c_string(data: &[u8]) -> (owned: Vec<u8>)
    ensures
        owned@ == data@.push(0u8),
        spec_terminated(owned@),
{
    let mut owned: Vec<u8> = Vec::with_capacity(data.len());
    owned.extend_from_slice(data);
    owned.push(0);
    owned
}

/// The text of a terminated string: the bytes of `stored` before the first
/// terminator.
pub fn c_string_bytes(stored: &[u8]) -> (text: Vec<u8>)
    ensures
        text@ == spec_c_string_bytes(stored@),
        text@.len() <= stored@.len(),
        forall|i: int| 0 <= i < text@.len() ==> text@[i] != 0,
        text@.len() < stored@.len() ==> stored@[text@.len() as int] == 0,
{
    proof {
        lemma_terminator(stored@, 0);
    }
    let mut len: usize = 0;
    while len < stored.len() && stored[len] != 0
        invariant
            len <= stored@.len(),
            spec_terminator(stored@, 0) == spec_terminator(stored@, len as int),
        decreases stored@.len() - len,
    {
        len = len + 1;
    }
    let mut text: Vec<u8> = Vec::with_capacity(len);
    text.extend_from_slice(vstd::slice::slice_subrange(stored, 0, len));
    assert(text@ =~= spec_c_string_bytes(stored@));
    text
}

/// Copies the terminated string that starts at `text`: its bytes up to the
/// first terminator, and the terminator. An absent string stays absent.
pub fn duplicate_null_terminated(text: Option<&[u8]>) -> (copy: Option<Vec<u8>>)
    ensures
        text is None <==> copy is None,
        copy matches Some(owned) ==> owned@ == spec_c_string_bytes(text.unwrap()@).push(0u8)
            && spec_terminated(owned@),
{
    match text {
        None => None,
        Some(bytes) => {
            let prefix = c_string_bytes(bytes);
            Some(to_c_string(prefix.as_slice()))
        },
    }
}

/// What a document keeps beside its root record: the declared version,
/// encoding and source URL, the four arenas and the cached slot of the `xml`
/// namespace.
pub struct Extras {
    pub version: Option<Seq<u8>>,
    pub encoding: Option<Seq<u8>>,
    pub url: Option<Seq<u8>>,
    pub nodes: Seq<xmlNode>,
    pub attrs: Seq<xmlAttr>,
    pub strings: Seq<Seq<u8>>,
    pub namespaces: Seq<xmlNs>,
    pub xml_namespace: Option<usize>,
}

impl Extras {
    /// Metadata without a tree.
    pub open spec fn spec_new(
        version: Option<Seq<u8>>,
        encoding: Option<Seq<u8>>,
        url: Option<Seq<u8>>,
    ) -> Extras {
        Extras {
            version,
            encoding,
            url,
            nodes: Seq::empty(),
            attrs: Seq::empty(),
            strings: Seq::empty(),
            namespaces: Seq::empty(),
            xml_namespace: None,
        }
    }

    /// The version that the root record shows: the declared one, or `1.0`.
    pub open spec fn spec_version(self) -> Seq<u8> {
        match self.version {
            Some(bytes) => bytes,
            None => spec_default_version(),
        }
    }

    /// The encoding that the root record shows: the declared one, or `UTF-8`.
    pub open spec fn spec_encoding(self) -> Seq<u8> {
        match self.encoding {
            Some(bytes) => bytes,
            None => spec_default_encoding(),
        }
    }

    /// Whether every pointer of `node` designates a slot of its arena.
    pub open spec fn node_ok(self, node: xmlNode) -> bool {
        &&& spec_slot_ok(node.name, self.strings.len())
        &&& spec_slot_ok(node.content, self.strings.len())
        &&& spec_slot_ok(node.children, self.nodes.len())
        &&& spec_slot_ok(node.last, self.nodes.len())
        &&& spec_slot_ok(node.parent, self.nodes.len())
        &&& spec_slot_ok(node.next, self.nodes.len())
        &&& spec_slot_ok(node.prev, self.nodes.len())
        &&& spec_slot_ok(node.ns, self.namespaces.len())
        &&& spec_slot_ok(node.nsDef, self.namespaces.len())
        &&& spec_slot_ok(node.properties, self.attrs.len())
    }

    /// Whether every pointer of `attr` designates a slot of its arena.
    pub open spec fn attr_ok(self, attr: xmlAttr) -> bool {
        &&& spec_slot_ok(attr.name, self.strings.len())
        &&& spec_slot_ok(attr.children, self.nodes.len())
        &&& spec_slot_ok(attr.last, self.nodes.len())
        &&& spec_slot_ok(attr.parent, self.nodes.len())
        &&& spec_slot_ok(attr.next, self.attrs.len())
        &&& spec_slot_ok(attr.prev, self.attrs.len())
        &&& spec_slot_ok(attr.ns, self.namespaces.len())
    }

    /// Whether every pointer of `ns` designates a slot of its arena.
    pub open spec fn ns_ok(self, ns: xmlNs) -> bool {
        &&& spec_slot_ok(ns.next, self.namespaces.len())
        &&& spec_slot_ok(ns.href, self.strings.len())
        &&& spec_slot_ok(ns.prefix, self.strings.len())
    }

    /// Whether every slot of the arenas can be pointed to: no arena has more
    /// slots than there are pointers.
    pub open spec fn spec_bounded(self) -> bool {
        &&& self.nodes.len() <= usize::MAX
        &&& self.attrs.len() <= usize::MAX
        &&& self.strings.len() <= usize::MAX
        &&& self.namespaces.len() <= usize::MAX
    }

    /// Well-formedness of the arenas: every pointer inside a record
    /// designates a slot that exists, and every string ends in the
    /// terminator.
    pub open spec fn wf(self) -> bool {
        &&& self.spec_bounded()
        &&& forall|i: int| 0 <= i < self.nodes.len() ==> self.node_ok(#[trigger] self.nodes[i])
        &&& forall|i: int| 0 <= i < self.attrs.len() ==> self.attr_ok(#[trigger] self.attrs[i])
        &&& forall|i: int|
            0 <= i < self.namespaces.len() ==> self.ns_ok(#[trigger] self.namespaces[i])
        &&& forall|i: int|
            0 <= i < self.strings.len() ==> spec_terminated(#[trigger] self.strings[i])
        &&& spec_slot_ok(self.xml_namespace, self.namespaces.len())
        &&& self.spec_metadata_ok()
    }

    /// Whether the declared version, encoding and source URL, where there
    /// are any, end in the terminator.
    pub open spec fn spec_metadata_ok(self) -> bool {
        &&& self.version matches Some(bytes) ==> spec_terminated(bytes)
        &&& self.encoding matches Some(bytes) ==> spec_terminated(bytes)
        &&& self.url matches Some(bytes) ==> spec_terminated(bytes)
    }

    /// Whether every record names `address` as its owning document.
    pub open spec fn owned_by(self, address: usize) -> bool {
        &&& forall|i: int| 0 <= i < self.nodes.len() ==> (#[trigger] self.nodes[i]).doc == address
        &&& forall|i: int| 0 <= i < self.attrs.len() ==> (#[trigger] self.attrs[i]).doc == address
        &&& forall|i: int|
            0 <= i < self.namespaces.len() ==> (#[trigger] self.namespaces[i]).context == address
    }

    /// The arenas after `data` and the terminator were stored as a new
    /// string. The new string has the slot `self.strings.len()`.
    pub open spec fn spec_alloc_string(self, data: Seq<u8>) -> Extras {
        Extras { strings: self.strings.push(data.push(0u8)), ..self }
    }

    /// The arenas after `node` was stored. It has the slot `self.nodes.len()`.
    pub open spec fn spec_alloc_node(self, node: xmlNode) -> Extras {
        Extras { nodes: self.nodes.push(node), ..self }
    }

    /// The arenas after `attr` was stored. It has the slot `self.attrs.len()`.
    pub open spec fn spec_alloc_attr(self, attr: xmlAttr) -> Extras {
        Extras { attrs: self.attrs.push(attr), ..self }
    }

    /// The arenas after `ns` was stored. It has the slot
    /// `self.namespaces.len()`.
    pub open spec fn spec_alloc_ns(self, ns: xmlNs) -> Extras {
        Extras { namespaces: self.namespaces.push(ns), ..self }
    }

    /// The metadata with empty arenas and no cached namespace.
    pub open spec fn spec_clear_tree_storage(self) -> Extras {
        Extras {
            nodes: Seq::empty(),
            attrs: Seq::empty(),
            strings: Seq::empty(),
            namespaces: Seq::empty(),
            xml_namespace: None,
            ..self
        }
    }

    /// The arenas after the `xml` namespace was asked for on behalf of the
    /// document at `address`: unchanged where it is cached, else with its
    /// name, its prefix and its declaration stored, and the declaration
    /// cached.
    pub open spec fn spec_ensure_xml_namespace(self, address: usize) -> Extras {
        if self.xml_namespace is Some {
            self
        } else {
            let href = self.strings.len() as usize;
            let prefix = (self.strings.len() + 1) as usize;
            let stored = self.spec_alloc_string(spec_xml_namespace_uri()).spec_alloc_string(
                spec_xml_namespace_prefix(),
            ).spec_alloc_ns(xmlNs::spec_new(Some(href), Some(prefix), address));
            Extras { xml_namespace: Some(self.namespaces.len() as usize), ..stored }
        }
    }

    /// Whether the string that `pointer` designates holds `text` and the
    /// terminator.
    pub open spec fn spec_holds(self, pointer: Option<usize>, text: Seq<u8>) -> bool {
        match pointer {
            Some(slot) => slot < self.strings.len() && self.strings[slot as int] == text.push(0u8),
            None => false,
        }
    }

    /// Whether `slot` holds a declaration of the `xml` namespace: its prefix
    /// is `xml` and its name is the name of that namespace.
    pub open spec fn spec_is_xml_namespace(self, slot: usize) -> bool {
        &&& slot < self.namespaces.len()
        &&& self.spec_holds(self.namespaces[slot as int].href, spec_xml_namespace_uri())
        &&& self.spec_holds(self.namespaces[slot as int].prefix, spec_xml_namespace_prefix())
    }

    /// Whether the cached slot, where there is one, holds a declaration of
    /// the `xml` namespace.
    pub open spec fn spec_xml_cache_ok(self) -> bool {
        match self.xml_namespace {
            Some(slot) => self.spec_is_xml_namespace(slot),
            None => true,
        }
    }

    /// The slot of the `xml` namespace after it was asked for.
    pub open spec fn spec_xml_namespace_slot(self) -> usize {
        match self.xml_namespace {
            Some(slot) => slot,
            None => self.namespaces.len() as usize,
        }
    }
}

/// The `xml` namespace of a document is one: asking for it a second time
/// returns the slot that the first time returned and changes nothing, and
/// the first time stores at most one declaration.
pub proof fn lemma_xml_namespace_once(extras: Extras, address: usize)
    ensures
        extras.spec_ensure_xml_namespace(address).spec_ensure_xml_namespace(address)
            == extras.spec_ensure_xml_namespace(address),
        extras.spec_ensure_xml_namespace(address).spec_xml_namespace_slot()
            == extras.spec_xml_namespace_slot(),
        extras.spec_ensure_xml_namespace(address).xml_namespace == Some(
            extras.spec_xml_namespace_slot(),
        ),
        extras.spec_ensure_xml_namespace(address).namespaces.len() <= extras.namespaces.len() + 1,
        extras.xml_namespace is Some ==> extras.spec_ensure_xml_namespace(address) == extras,
{
}

/// The views of the strings of an arena.
pub open spec fn spec_strings_view(strings: Seq<Vec<u8>>) -> Seq<Seq<u8>> {
    strings.map_values(|s: Vec<u8>| s@)
}

/// The view of an optional string.
pub open spec fn spec_option_view(text: Option<Vec<u8>>) -> Option<Seq<u8>> {
    match text {
        Some(bytes) => Some(bytes@),
        None => None,
    }
}

/// What a document keeps beside its root record. While the document is
/// exported, this is what the registry holds for it.
pub struct XmlDocExtras {
    version: Option<Vec<u8>>,
    encoding: Option<Vec<u8>>,
    url: Option<Vec<u8>>,
    node_storage: Vec<xmlNode>,
    attr_storage: Vec<xmlAttr>,
    string_storage: Vec<Vec<u8>>,
    ns_storage: Vec<xmlNs>,
    xml_namespace: Option<usize>,
}

impl View for XmlDocExtras {
    type V = Extras;

    closed spec fn view(&self) -> Extras {
        Extras {
            version: spec_option_view(self.version),
            encoding: spec_option_view(self.encoding),
            url: spec_option_view(self.url),
            nodes: self.node_storage@,
            attrs: self.attr_storage@,
            strings: spec_strings_view(self.string_storage@),
            namespaces: self.ns_storage@,
            xml_namespace: self.xml_namespace,
        }
    }
}

/// The bytes of `1.0` and the terminator.
fn default_version() -> (bytes: Vec<u8>)
    ensures
        bytes@ == spec_default_version(),
{
    let mut bytes: Vec<u8> = Vec::new();
    bytes.push(0x31);
    bytes.push(0x2E);
    bytes.push(0x30);
    bytes.push(0);
    assert(bytes@ =~= spec_default_version());
    bytes
}

/// The bytes of `UTF-8` and the terminator.
fn default_encoding() -> (bytes: Vec<u8>)
    ensures
        bytes@ == spec_default_encoding(),
{
    let mut bytes: Vec<u8> = Vec::new();
    bytes.push(0x55);
    bytes.push(0x54);
    bytes.push(0x46);
    bytes.push(0x2D);
    bytes.push(0x38);
    bytes.push(0);
    assert(bytes@ =~= spec_default_encoding());
    bytes
}

/// The bytes of `xml`.
fn xml_namespace_prefix() -> (bytes: Vec<u8>)
    ensures
        bytes@ == spec_xml_namespace_prefix(),
{
    let mut bytes: Vec<u8> = Vec::new();
    bytes.push(0x78);
    bytes.push(0x6D);
    bytes.push(0x6C);
    assert(bytes@ =~= spec_xml_namespace_prefix());
    bytes
}

/// The bytes of `http://www.w3.org/XML/1998/namespace`.
fn xml_namespace_uri() -> (bytes: Vec<u8>)
    ensures
        bytes@ == spec_xml_namespace_uri(),
{
    let text: [u8; 36] = [
        0x68, 0x74, 0x74, 0x70, 0x3A, 0x2F, 0x2F, 0x77, 0x77, 0x77, 0x2E, 0x77, 0x33, 0x2E, 0x6F,
        0x72, 0x67, 0x2F, 0x58, 0x4D, 0x4C, 0x2F, 0x31, 0x39, 0x39, 0x38, 0x2F, 0x6E, 0x61, 0x6D,
        0x65, 0x73, 0x70, 0x61, 0x63, 0x65,
    ];
    let mut bytes: Vec<u8> = Vec::new();
    bytes.extend_from_slice(text.as_slice());
    assert(bytes@ =~= spec_xml_namespace_uri());
    bytes
}

/// The arenas of a document never have more slots than there are pointers.
pub proof fn lemma_bounded(extras: XmlDocExtras)
    ensures
        extras@.spec_bounded(),
{
    assert(extras.node_storage.len() == extras@.nodes.len());
    assert(extras.attr_storage.len() == extras@.attrs.len());
    assert(extras.string_storage.len() == extras@.strings.len());
    assert(extras.ns_storage.len() == extras@.namespaces.len());
}

impl XmlDocExtras {
    /// Well-formedness of the arenas.
    pub open spec fn wf(&self) -> bool {
        self@.wf()
    }

    /// Metadata without a tree.
    pub fn new(version: Option<Vec<u8>>, encoding: Option<Vec<u8>>, url: Option<Vec<u8>>) -> (extras:
        XmlDocExtras)
        ensures
            extras@ == Extras::spec_new(
                spec_option_view(version),
                spec_option_view(encoding),
                spec_option_view(url),
            ),
    {
        let extras = XmlDocExtras {
            version,
            encoding,
            url,
            node_storage: Vec::new(),
            attr_storage: Vec::new(),
            string_storage: Vec::new(),
            ns_storage: Vec::new(),
            xml_namespace: None,
        };
        assert(spec_strings_view(extras.string_storage@) =~= Seq::<Seq<u8>>::empty());
        extras
    }

    /// The version that the root record shows: the declared one, or `1.0`,
    /// with the terminator.
    pub fn version_ptr(&self) -> (bytes: Vec<u8>)
        ensures
            bytes@ == self@.spec_version(),
    {
        match &self.version {
            Some(owned) => owned.clone(),
            None => default_version(),
        }
    }

    /// The encoding that the root record shows: the declared one, or
    /// `UTF-8`, with the terminator.
    pub fn encoding_ptr(&self) -> (bytes: Vec<u8>)
        ensures
            bytes@ == self@.spec_encoding(),
    {
        match &self.encoding {
            Some(owned) => owned.clone(),
            None => default_encoding(),
        }
    }

    /// The source URL that the root record shows, with the terminator, if
    /// the document has one.
    pub fn url_ptr(&self) -> (bytes: Option<Vec<u8>>)
        ensures
            spec_option_view(bytes) == self@.url,
    {
        match &self.url {
            Some(owned) => Some(owned.clone()),
            None => None,
        }
    }

    /// Stores `data` and the terminator as a new string and returns its
    /// slot. Data without the terminator in it is read back as it is.
    pub fn alloc_string(&mut self, data: &[u8]) -> (slot: usize)
        ensures
            final(self)@ == old(self)@.spec_alloc_string(data@),
            slot == old(self)@.strings.len(),
            (forall|i: int| 0 <= i < data@.len() ==> data@[i] != 0) ==> spec_c_string_bytes(
                final(self)@.strings[slot as int],
            ) == data@,
    {
        proof {
            if forall|i: int| 0 <= i < data@.len() ==> data@[i] != 0 {
                lemma_c_string_round_trip(data@);
            }
        }
        let owned = to_c_string(data);
        let slot = self.string_storage.len();
        self.string_storage.push(owned);
        assert(spec_strings_view(self.string_storage@) =~= spec_strings_view(
            old(self).string_storage@,
        ).push(data@.push(0u8)));
        slot
    }

    /// Stores `data` and the terminator as a new string that is not written
    /// to again, and returns its slot.
    pub fn alloc_const_string(&mut self, data: &[u8]) -> (slot: usize)
        ensures
            final(self)@ == old(self)@.spec_alloc_string(data@),
            slot == old(self)@.strings.len(),
    {
        self.alloc_string(data)
    }

    /// Stores `node` and returns its slot.
    pub fn alloc_node(&mut self, node: xmlNode) -> (slot: usize)
        ensures
            final(self)@ == old(self)@.spec_alloc_node(node),
            slot == old(self)@.nodes.len(),
    {
        let slot = self.node_storage.len();
        self.node_storage.push(node);
        slot
    }

    /// Stores `attr` and returns its slot.
    pub fn alloc_attr(&mut self, attr: xmlAttr) -> (slot: usize)
        ensures
            final(self)@ == old(self)@.spec_alloc_attr(attr),
            slot == old(self)@.attrs.len(),
    {
        let slot = self.attr_storage.len();
        self.attr_storage.push(attr);
        slot
    }

    /// Stores `ns` and returns its slot.
    pub fn alloc_ns(&mut self, ns: xmlNs) -> (slot: usize)
        ensures
            final(self)@ == old(self)@.spec_alloc_ns(ns),
            slot == old(self)@.namespaces.len(),
    {
        let slot = self.ns_storage.len();
        self.ns_storage.push(ns);
        slot
    }

    /// Empties the four arenas at once and forgets the cached namespace.
    pub fn clear_tree_storage(&mut self)
        ensures
            final(self)@ == old(self)@.spec_clear_tree_storage(),
    {
        self.node_storage.clear();
        self.attr_storage.clear();
        self.string_storage.clear();
        self.ns_storage.clear();
        self.xml_namespace = None;
        assert(spec_strings_view(self.string_storage@) =~= Seq::<Seq<u8>>::empty());
    }

    /// Returns the slot of the `xml` namespace of the document at
    /// `doc_ptr`, storing and caching it on first use.
    pub fn ensure_xml_namespace(&mut self, doc_ptr: usize) -> (slot: usize)
        ensures
            final(self)@ == old(self)@.spec_ensure_xml_namespace(doc_ptr),
            slot == old(self)@.spec_xml_namespace_slot(),
            final(self)@.xml_namespace == Some(slot),
            old(self)@.spec_xml_cache_ok() ==> final(self)@.spec_is_xml_namespace(slot) && final(self)@.spec_xml_cache_ok(),
    {
        if let Some(ns) = self.xml_namespace {
            return ns;
        }
        let uri = xml_namespace_uri();
        let prefix = xml_namespace_prefix();
        let href_ptr = self.alloc_const_string(uri.as_slice());
        let prefix_ptr = self.alloc_const_string(prefix.as_slice());
        let ns_ptr = self.alloc_ns(xmlNs::new(Some(href_ptr), Some(prefix_ptr), doc_ptr));
        self.xml_namespace = Some(ns_ptr);
        ns_ptr
    }

    /// Whether `slot` holds a node.
    pub fn has_node(&self, slot: usize) -> (present: bool)
        ensures
            present == (slot < self@.nodes.len()),
    {
        slot < self.node_storage.len()
    }

    /// Whether `slot` holds an attribute.
    pub fn has_attr(&self, slot: usize) -> (present: bool)
        ensures
            present == (slot < self@.attrs.len()),
    {
        slot < self.attr_storage.len()
    }

    /// Whether `slot` holds a namespace declaration.
    pub fn has_ns(&self, slot: usize) -> (present: bool)
        ensures
            present == (slot < self@.namespaces.len()),
    {
        slot < self.ns_storage.len()
    }

    /// Whether `slot` holds a string.
    pub fn has_string(&self, slot: usize) -> (present: bool)
        ensures
            present == (slot < self@.strings.len()),
    {
        slot < self.string_storage.len()
    }

    /// The node in `slot`.
    pub fn node(&self, slot: usize) -> (node: xmlNode)
        requires
            slot < self@.nodes.len(),
        ensures
            node == self@.nodes[slot as int],
    {
        self.node_storage[slot]
    }

    /// The attribute in `slot`.
    pub fn attr(&self, slot: usize) -> (attr: xmlAttr)
        requires
            slot < self@.attrs.len(),
        ensures
            attr == self@.attrs[slot as int],
    {
        self.attr_storage[slot]
    }

    /// The namespace declaration in `slot`.
    pub fn ns(&self, slot: usize) -> (ns: xmlNs)
        requires
            slot < self@.namespaces.len(),
        ensures
            ns == self@.namespaces[slot as int],
    {
        self.ns_storage[slot]
    }

    /// The string in `slot`, terminator included.
    pub fn string(&self, slot: usize) -> (bytes: &[u8])
        requires
            slot < self@.strings.len(),
        ensures
            bytes@ == self@.strings[slot as int],
    {
        self.string_storage[slot].as_slice()
    }

    /// Overwrites the node in `slot`.
    pub fn set_node(&mut self, slot: usize, node: xmlNode)
        requires
            slot < old(self)@.nodes.len(),
        ensures
            final(self)@ == (Extras { nodes: old(self)@.nodes.update(slot as int, node), ..old(self)@ }),
    {
        self.node_storage.set(slot, node);
    }

    /// Overwrites the attribute in `slot`.
    pub fn set_attr(&mut self, slot: usize, attr: xmlAttr)
        requires
            slot < old(self)@.attrs.len(),
        ensures
            final(self)@ == (Extras { attrs: old(self)@.attrs.update(slot as int, attr), ..old(self)@ }),
    {
        self.attr_storage.set(slot, attr);
    }

    /// Overwrites the namespace declaration in `slot`.
    pub fn set_ns(&mut self, slot: usize, ns: xmlNs)
        requires
            slot < old(self)@.namespaces.len(),
        ensures
            final(self)@ == (Extras {
                namespaces: old(self)@.namespaces.update(slot as int, ns),
                ..old(self)@
            }),
    {
        self.ns_storage.set(slot, ns);
    }

    /// Declares the version: stores `version` and the terminator, and
    /// returns what the root record shows from now on.
    pub fn set_version(&mut self, version: &[u8]) -> (bytes: Vec<u8>)
        ensures
            final(self)@ == (Extras { version: Some(version@.push(0u8)), ..old(self)@ }),
            bytes@ == version@.push(0u8),
    {
        self.version = Some(to_c_string(version));
        self.version_ptr()
    }

    /// Declares the encoding: stores `encoding` and the terminator, and
    /// returns what the root record shows from now on.
    pub fn set_encoding(&mut self, encoding: &[u8]) -> (bytes: Vec<u8>)
        ensures
            final(self)@ == (Extras { encoding: Some(encoding@.push(0u8)), ..old(self)@ }),
            bytes@ == encoding@.push(0u8),
    {
        self.encoding = Some(to_c_string(encoding));
        self.encoding_ptr()
    }
}

} // verus!
