//! The ASCII bytes that the grammar names.

use vstd::prelude::*;

verus! {

pub const TAB: u8 = 0x09;

pub const LINE_FEED: u8 = 0x0A;

pub const FORM_FEED: u8 = 0x0C;

pub const CARRIAGE_RETURN: u8 = 0x0D;

pub const SPACE: u8 = 0x20;

pub const BANG: u8 = 0x21;

pub const QUOTE: u8 = 0x22;

pub const HASH: u8 = 0x23;

pub const AMPERSAND: u8 = 0x26;

pub const APOSTROPHE: u8 = 0x27;

pub const PLUS: u8 = 0x2B;

pub const HYPHEN: u8 = 0x2D;

pub const DOT: u8 = 0x2E;

pub const SLASH: u8 = 0x2F;

pub const DIGIT_0: u8 = 0x30;

pub const DIGIT_9: u8 = 0x39;

pub const COLON: u8 = 0x3A;

pub const SEMICOLON: u8 = 0x3B;

pub const LESS_THAN: u8 = 0x3C;

pub const EQUALS: u8 = 0x3D;

pub const GREATER_THAN: u8 = 0x3E;

pub const QUESTION: u8 = 0x3F;

pub const UPPER_A: u8 = 0x41;

pub const UPPER_X: u8 = 0x58;

pub const UPPER_Z: u8 = 0x5A;

pub const UNDERSCORE: u8 = 0x5F;

pub const LOWER_A: u8 = 0x61;

pub const LOWER_X: u8 = 0x78;

pub const LOWER_Z: u8 = 0x7A;

/// The bytes of `lt`.
pub open spec fn spec_name_lt() -> Seq<u8> {
    seq![0x6Cu8, 0x74u8]
}

/// The bytes of `gt`.
pub open spec fn spec_name_gt() -> Seq<u8> {
    seq![0x67u8, 0x74u8]
}

/// The bytes of `amp`.
pub open spec fn spec_name_amp() -> Seq<u8> {
    seq![0x61u8, 0x6Du8, 0x70u8]
}

/// The bytes of `apos`.
pub open spec fn spec_name_apos() -> Seq<u8> {
    seq![0x61u8, 0x70u8, 0x6Fu8, 0x73u8]
}

/// The bytes of `quot`.
pub open spec fn spec_name_quot() -> Seq<u8> {
    seq![0x71u8, 0x75u8, 0x6Fu8, 0x74u8]
}

/// Whether the bytes of `data` are exactly those of `name`.
pub fn bytes_equal(data: &[u8], name: &[u8]) -> (same: bool)
    ensures
        same == (data@ == name@),
{
    if data.len() != name.len() {
        return false;
    }
    let mut i: usize = 0;
    while i < data.len()
        invariant
            i <= data@.len(),
            data@.len() == name@.len(),
            forall|j: int| 0 <= j < i ==> data@[j] == name@[j],
        decreases data@.len() - i,
    {
        if data[i] != name[i] {
            return false;
        }
        i = i + 1;
    }
    assert(data@ =~= name@);
    true
}

} // verus!
