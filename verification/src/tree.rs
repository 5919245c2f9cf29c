//! Record types of the document tree.
//!
//! A document keeps its records in arenas, one per record type. Inside a
//! record a pointer to another record is the slot that record occupies in
//! its arena, and a pointer to a string is the slot of the string in the
//! string arena; an absent pointer is `None`. A document is pointed to by
//! its address, a plain number chosen when the document is created.

use vstd::prelude::*;

verus! {

/// The kind of a tree record.
#[allow(non_camel_case_types)]
#[derive(Debug, PartialEq, Eq, Clone, Copy, Structural)]
pub enum xmlElementType {
    ElementNode,
    AttributeNode,
    TextNode,
    CdataSectionNode,
    EntityRefNode,
    EntityNode,
    PiNode,
    CommentNode,
    DocumentNode,
    DocumentTypeNode,
    DocumentFragNode,
    NotationNode,
    HtmlDocumentNode,
    DtdNode,
    ElementDecl,
    AttributeDecl,
    EntityDecl,
    NamespaceDecl,
    XincludeStart,
    XincludeEnd,
}

impl xmlElementType {
    /// The number that stands for this kind in the fixed binary layout.
    pub open spec fn spec_code(self) -> int {
        match self {
            xmlElementType::ElementNode => 1,
            xmlElementType::AttributeNode => 2,
            xmlElementType::TextNode => 3,
            xmlElementType::CdataSectionNode => 4,
            xmlElementType::EntityRefNode => 5,
            xmlElementType::EntityNode => 6,
            xmlElementType::PiNode => 7,
            xmlElementType::CommentNode => 8,
            xmlElementType::DocumentNode => 9,
            xmlElementType::DocumentTypeNode => 10,
            xmlElementType::DocumentFragNode => 11,
            xmlElementType::NotationNode => 12,
            xmlElementType::HtmlDocumentNode => 13,
            xmlElementType::DtdNode => 14,
            xmlElementType::ElementDecl => 15,
            xmlElementType::AttributeDecl => 16,
            xmlElementType::EntityDecl => 17,
            xmlElementType::NamespaceDecl => 18,
            xmlElementType::XincludeStart => 19,
            xmlElementType::XincludeEnd => 20,
        }
    }

    /// The number that stands for this kind in the fixed binary layout.
    pub fn code(self) -> (c: i32)
        ensures
            c == self.spec_code(),
            1 <= c <= 20,
    {
        match self {
            xmlElementType::ElementNode => 1,
            xmlElementType::AttributeNode => 2,
            xmlElementType::TextNode => 3,
            xmlElementType::CdataSectionNode => 4,
            xmlElementType::EntityRefNode => 5,
            xmlElementType::EntityNode => 6,
            xmlElementType::PiNode => 7,
            xmlElementType::CommentNode => 8,
            xmlElementType::DocumentNode => 9,
            xmlElementType::DocumentTypeNode => 10,
            xmlElementType::DocumentFragNode => 11,
            xmlElementType::NotationNode => 12,
            xmlElementType::HtmlDocumentNode => 13,
            xmlElementType::DtdNode => 14,
            xmlElementType::ElementDecl => 15,
            xmlElementType::AttributeDecl => 16,
            xmlElementType::EntityDecl => 17,
            xmlElementType::NamespaceDecl => 18,
            xmlElementType::XincludeStart => 19,
            xmlElementType::XincludeEnd => 20,
        }
    }

    /// The kind that a number of the fixed binary layout stands for.
    pub fn from_code(code: i32) -> (kind: Option<xmlElementType>)
        ensures
            kind is Some <==> 1 <= code <= 20,
            kind matches Some(k) ==> k.spec_code() == code,
    {
        match code {
            1 => Some(xmlElementType::ElementNode),
            2 => Some(xmlElementType::AttributeNode),
            3 => Some(xmlElementType::TextNode),
            4 => Some(xmlElementType::CdataSectionNode),
            5 => Some(xmlElementType::EntityRefNode),
            6 => Some(xmlElementType::EntityNode),
            7 => Some(xmlElementType::PiNode),
            8 => Some(xmlElementType::CommentNode),
            9 => Some(xmlElementType::DocumentNode),
            10 => Some(xmlElementType::DocumentTypeNode),
            11 => Some(xmlElementType::DocumentFragNode),
            12 => Some(xmlElementType::NotationNode),
            13 => Some(xmlElementType::HtmlDocumentNode),
            14 => Some(xmlElementType::DtdNode),
            15 => Some(xmlElementType::ElementDecl),
            16 => Some(xmlElementType::AttributeDecl),
            17 => Some(xmlElementType::EntityDecl),
            18 => Some(xmlElementType::NamespaceDecl),
            19 => Some(xmlElementType::XincludeStart),
            20 => Some(xmlElementType::XincludeEnd),
            _ => None,
        }
    }
}

/// The declared type of an attribute.
#[allow(non_camel_case_types)]
#[derive(Debug, PartialEq, Eq, Clone, Copy, Structural)]
pub enum xmlAttributeType {
    AttributeCdata,
    AttributeId,
    AttributeIdref,
    AttributeIdrefs,
    AttributeEntity,
    AttributeEntities,
    AttributeNmtoken,
    AttributeNmtokens,
    AttributeEnumeration,
    AttributeNotation,
}

impl xmlAttributeType {
    /// The number that stands for this attribute type in the fixed binary
    /// layout.
    pub open spec fn spec_code(self) -> int {
        match self {
            xmlAttributeType::AttributeCdata => 1,
            xmlAttributeType::AttributeId => 2,
            xmlAttributeType::AttributeIdref => 3,
            xmlAttributeType::AttributeIdrefs => 4,
            xmlAttributeType::AttributeEntity => 5,
            xmlAttributeType::AttributeEntities => 6,
            xmlAttributeType::AttributeNmtoken => 7,
            xmlAttributeType::AttributeNmtokens => 8,
            xmlAttributeType::AttributeEnumeration => 9,
            xmlAttributeType::AttributeNotation => 10,
        }
    }

    /// The number that stands for this attribute type in the fixed binary
    /// layout.
    pub fn code(self) -> (c: i32)
        ensures
            c == self.spec_code(),
            1 <= c <= 10,
    {
        match self {
            xmlAttributeType::AttributeCdata => 1,
            xmlAttributeType::AttributeId => 2,
            xmlAttributeType::AttributeIdref => 3,
            xmlAttributeType::AttributeIdrefs => 4,
            xmlAttributeType::AttributeEntity => 5,
            xmlAttributeType::AttributeEntities => 6,
            xmlAttributeType::AttributeNmtoken => 7,
            xmlAttributeType::AttributeNmtokens => 8,
            xmlAttributeType::AttributeEnumeration => 9,
            xmlAttributeType::AttributeNotation => 10,
        }
    }

    /// The attribute type that a number of the fixed binary layout stands
    /// for.
    pub fn from_code(code: i32) -> (kind: Option<xmlAttributeType>)
        ensures
            kind is Some <==> 1 <= code <= 10,
            kind matches Some(k) ==> k.spec_code() == code,
    {
        match code {
            1 => Some(xmlAttributeType::AttributeCdata),
            2 => Some(xmlAttributeType::AttributeId),
            3 => Some(xmlAttributeType::AttributeIdref),
            4 => Some(xmlAttributeType::AttributeIdrefs),
            5 => Some(xmlAttributeType::AttributeEntity),
            6 => Some(xmlAttributeType::AttributeEntities),
            7 => Some(xmlAttributeType::AttributeNmtoken),
            8 => Some(xmlAttributeType::AttributeNmtokens),
            9 => Some(xmlAttributeType::AttributeEnumeration),
            10 => Some(xmlAttributeType::AttributeNotation),
            _ => None,
        }
    }
}

/// A member of the tree: an element, a text run, a comment and so on.
///
/// `name` and `content` are slots of the string arena; `children`, `last`,
/// `parent`, `next` and `prev` are slots of the node arena; `ns` and `nsDef`
/// are slots of the namespace arena; `properties` is a slot of the attribute
/// arena; `doc` is the address of the owning document.
#[allow(non_camel_case_types)]
#[allow(non_snake_case)]
#[derive(Debug, Clone, Copy)]
pub struct xmlNode {
    pub type_: xmlElementType,
    pub name: Option<usize>,
    pub children: Option<usize>,
    pub last: Option<usize>,
    pub parent: Option<usize>,
    pub next: Option<usize>,
    pub prev: Option<usize>,
    pub doc: usize,
    pub ns: Option<usize>,
    pub content: Option<usize>,
    pub properties: Option<usize>,
    pub nsDef: Option<usize>,
    pub line: u16,
    pub extra: u16,
}

impl xmlNode {
    /// A node of the given kind that is linked to nothing.
    pub open spec fn spec_new(
        type_: xmlElementType,
        name: Option<usize>,
        content: Option<usize>,
        doc: usize,
    ) -> xmlNode {
        xmlNode {
            type_,
            name,
            children: None,
            last: None,
            parent: None,
            next: None,
            prev: None,
            doc,
            ns: None,
            content,
            properties: None,
            nsDef: None,
            line: 0,
            extra: 0,
        }
    }

    /// A node of the given kind that is linked to nothing.
    pub fn new(
        type_: xmlElementType,
        name: Option<usize>,
        content: Option<usize>,
        doc: usize,
    ) -> (node: xmlNode)
        ensures
            node == xmlNode::spec_new(type_, name, content, doc),
    {
        xmlNode {
            type_,
            name,
            children: None,
            last: None,
            parent: None,
            next: None,
            prev: None,
            doc,
            ns: None,
            content,
            properties: None,
            nsDef: None,
            line: 0,
            extra: 0,
        }
    }
}

/// The root record of one tree.
///
/// `children` and `last` are slots of the node arena and delimit the list of
/// top-level nodes; `doc` is the document's own address. The declared
/// version, encoding and source URL are kept beside the record, in the
/// document's metadata.
#[allow(non_camel_case_types)]
#[allow(non_snake_case)]
#[derive(Debug, Clone, Copy)]
pub struct xmlDoc {
    pub type_: xmlElementType,
    pub children: Option<usize>,
    pub last: Option<usize>,
    pub parent: Option<usize>,
    pub next: Option<usize>,
    pub prev: Option<usize>,
    pub doc: usize,
    pub compression: i32,
    pub standalone: i32,
    pub charset: i32,
    pub parseFlags: i32,
    pub properties: i32,
}

impl xmlDoc {
    /// The record of an empty document at `address`, created with `options`.
    pub open spec fn spec_new(address: usize, options: i32) -> xmlDoc {
        xmlDoc {
            type_: xmlElementType::DocumentNode,
            children: None,
            last: None,
            parent: None,
            next: None,
            prev: None,
            doc: address,
            compression: 0,
            standalone: 1,
            charset: 0,
            parseFlags: options,
            properties: 0,
        }
    }

    /// The record of an empty document at `address`, created with `options`.
    pub fn new(address: usize, options: i32) -> (doc: xmlDoc)
        ensures
            doc == xmlDoc::spec_new(address, options),
    {
        xmlDoc {
            type_: xmlElementType::DocumentNode,
            children: None,
            last: None,
            parent: None,
            next: None,
            prev: None,
            doc: address,
            compression: 0,
            standalone: 1,
            charset: 0,
            parseFlags: options,
            properties: 0,
        }
    }
}

/// A namespace declaration.
///
/// `next` is a slot of the namespace arena; `href` and `prefix` are slots of
/// the string arena; `context` is the address of the owning document.
#[allow(non_camel_case_types)]
#[derive(Debug, Clone, Copy)]
pub struct xmlNs {
    pub next: Option<usize>,
    pub type_: xmlElementType,
    pub href: Option<usize>,
    pub prefix: Option<usize>,
    pub context: usize,
}

impl xmlNs {
    /// A namespace declaration that is linked to nothing.
    pub open spec fn spec_new(href: Option<usize>, prefix: Option<usize>, context: usize) -> xmlNs {
        xmlNs { next: None, type_: xmlElementType::NamespaceDecl, href, prefix, context }
    }

    /// A namespace declaration that is linked to nothing.
    pub fn new(href: Option<usize>, prefix: Option<usize>, context: usize) -> (ns: xmlNs)
        ensures
            ns == xmlNs::spec_new(href, prefix, context),
    {
        xmlNs { next: None, type_: xmlElementType::NamespaceDecl, href, prefix, context }
    }
}

/// An attribute of an element.
///
/// `name` is a slot of the string arena; `children` and `last` are slots of
/// the node arena and hold the text node with the decoded value, if any;
/// `parent` is the slot of the owning element; `next` and `prev` are slots of
/// the attribute arena; `ns` is a slot of the namespace arena; `doc` is the
/// address of the owning document.
#[allow(non_camel_case_types)]
#[derive(Debug, Clone, Copy)]
pub struct xmlAttr {
    pub type_: xmlElementType,
    pub name: Option<usize>,
    pub children: Option<usize>,
    pub last: Option<usize>,
    pub parent: Option<usize>,
    pub next: Option<usize>,
    pub prev: Option<usize>,
    pub doc: usize,
    pub ns: Option<usize>,
    pub atype: xmlAttributeType,
}

impl xmlAttr {
    /// An attribute without a value that is linked to nothing.
    pub open spec fn spec_new(name: Option<usize>, doc: usize) -> xmlAttr {
        xmlAttr {
            type_: xmlElementType::AttributeNode,
            name,
            children: None,
            last: None,
            parent: None,
            next: None,
            prev: None,
            doc,
            ns: None,
            atype: xmlAttributeType::AttributeCdata,
        }
    }

    /// An attribute without a value that is linked to nothing.
    pub fn new(name: Option<usize>, doc: usize) -> (attr: xmlAttr)
        ensures
            attr == xmlAttr::spec_new(name, doc),
    {
        xmlAttr {
            type_: xmlElementType::AttributeNode,
            name,
            children: None,
            last: None,
            parent: None,
            next: None,
            prev: None,
            doc,
            ns: None,
            atype: xmlAttributeType::AttributeCdata,
        }
    }
}

} // verus!
