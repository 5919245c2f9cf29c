//! An XML document store and a well-formedness-checking parser over it.

pub mod ascii;
pub mod context;
pub mod doc;
pub mod entities;
pub mod entry;
pub mod extras;
pub mod grammar;
pub mod io;
pub mod links;
pub mod parser;
pub mod push;
pub mod registry;
pub mod shape;
pub mod tree;
