//! The lexical grammar: classes of bytes, names, quoted values and the
//! scans that find where a construct ends.
//!
//! Names are ASCII: letters, digits, `_`, `:`, `-` and `.`, the first
//! character a letter, `_` or `:`.

use crate::ascii::{
    APOSTROPHE, CARRIAGE_RETURN, COLON, DIGIT_0, DIGIT_9, DOT, EQUALS, FORM_FEED, GREATER_THAN,
    HYPHEN, LINE_FEED, LOWER_A, LOWER_Z, QUOTE, SLASH, SPACE, TAB, UNDERSCORE, UPPER_A, UPPER_Z,
};
use crate::entities::{spec_decode_entities, spec_find_byte};
use vstd::prelude::*;

verus! {

/// Whether `byte` is white space: a space, a tab, a line feed, a form feed
/// or a carriage return.
pub open spec fn spec_is_whitespace(byte: u8) -> bool {
    byte == SPACE || byte == TAB || byte == LINE_FEED || byte == FORM_FEED || byte
        == CARRIAGE_RETURN
}

/// Whether a name can start with `byte`: a letter, `_` or `:`.
pub open spec fn spec_is_name_start(byte: u8) -> bool {
    (UPPER_A <= byte <= UPPER_Z) || (LOWER_A <= byte <= LOWER_Z) || byte == UNDERSCORE || byte
        == COLON
}

/// Whether a name can go on with `byte`: what can start a name, a digit, `-`
/// or `.`.
pub open spec fn spec_is_name_char(byte: u8) -> bool {
    spec_is_name_start(byte) || (DIGIT_0 <= byte <= DIGIT_9) || byte == HYPHEN || byte == DOT
}

/// Whether `byte` is white space.
pub fn is_whitespace(byte: u8) -> (yes: bool)
    ensures
        yes == spec_is_whitespace(byte),
{
    byte == SPACE || byte == TAB || byte == LINE_FEED || byte == FORM_FEED || byte
        == CARRIAGE_RETURN
}

/// Whether a name can start with `byte`.
pub fn is_name_start(byte: u8) -> (yes: bool)
    ensures
        yes == spec_is_name_start(byte),
{
    (UPPER_A <= byte && byte <= UPPER_Z) || (LOWER_A <= byte && byte <= LOWER_Z) || byte
        == UNDERSCORE || byte == COLON
}

/// Whether a name can go on with `byte`.
pub fn is_name_char(byte: u8) -> (yes: bool)
    ensures
        yes == spec_is_name_char(byte),
{
    is_name_start(byte) || (DIGIT_0 <= byte && byte <= DIGIT_9) || byte == HYPHEN || byte == DOT
}

/// The input without a leading UTF-8 byte-order mark.
pub open spec fn spec_strip_utf8_bom(bytes: Seq<u8>) -> Seq<u8> {
    if bytes.len() >= 3 && bytes[0] == 0xEFu8 && bytes[1] == 0xBBu8 && bytes[2] == 0xBFu8 {
        bytes.subrange(3, bytes.len() as int)
    } else {
        bytes
    }
}

/// Strips a leading UTF-8 byte-order mark.
pub fn strip_utf8_bom(bytes: &[u8]) -> (data: &[u8])
    ensures
        data@ == spec_strip_utf8_bom(bytes@),
{
    if bytes.len() >= 3 && bytes[0] == 0xEF && bytes[1] == 0xBB && bytes[2] == 0xBF {
        vstd::slice::slice_subrange(bytes, 3, bytes.len())
    } else {
        bytes
    }
}

/// The first position at or after `pos` that holds no white space, or the
/// length of `data`.
pub open spec fn spec_skip_whitespace(data: Seq<u8>, pos: int) -> int
    decreases data.len() - pos,
{
    if pos < 0 || pos >= data.len() {
        data.len() as int
    } else if spec_is_whitespace(data[pos]) {
        spec_skip_whitespace(data, pos + 1)
    } else {
        pos
    }
}

/// Whether `data` holds `pattern` at `pos`.
pub open spec fn spec_starts_with(data: Seq<u8>, pos: int, pattern: Seq<u8>) -> bool {
    &&& 0 <= pos
    &&& pos + pattern.len() <= data.len()
    &&& data.subrange(pos, pos + pattern.len()) == pattern
}

/// The first position at or after `pos` where `data` holds `pattern`, or the
/// length of `data` if there is none.
pub open spec fn spec_find_pattern(data: Seq<u8>, pos: int, pattern: Seq<u8>) -> int
    decreases data.len() - pos,
{
    if pos < 0 || pos >= data.len() {
        data.len() as int
    } else if spec_starts_with(data, pos, pattern) {
        pos
    } else {
        spec_find_pattern(data, pos + 1, pattern)
    }
}

/// The first position at or after `pos` that holds no name character, or the
/// length of `data`.
pub open spec fn spec_name_end(data: Seq<u8>, pos: int) -> int
    decreases data.len() - pos,
{
    if pos < 0 || pos >= data.len() {
        data.len() as int
    } else if spec_is_name_char(data[pos]) {
        spec_name_end(data, pos + 1)
    } else {
        pos
    }
}

/// The name at `pos` and the position behind it, where `pos` holds a byte
/// that can start a name.
pub open spec fn spec_parse_name(data: Seq<u8>, pos: int) -> Option<(Seq<u8>, int)> {
    if 0 <= pos < data.len() && spec_is_name_start(data[pos]) {
        Some((data.subrange(pos, spec_name_end(data, pos + 1)), spec_name_end(data, pos + 1)))
    } else {
        None
    }
}

/// The value between quotes at `pos`, as written, and the position behind
/// the closing quote. The opening quote is `"` or `'`, and the value runs to
/// the next occurrence of the same quote.
pub open spec fn spec_quoted_value(data: Seq<u8>, pos: int) -> Option<(Seq<u8>, int)> {
    if 0 <= pos < data.len() && (data[pos] == QUOTE || data[pos] == APOSTROPHE) {
        let end = spec_find_byte(data, pos + 1, data[pos]);
        if end < data.len() {
            Some((data.subrange(pos + 1, end), end + 1))
        } else {
            None
        }
    } else {
        None
    }
}

/// A name, `=` and a quoted value, with optional white space around the
/// `=`.
pub struct NameValue {
    pub name: Seq<u8>,
    pub value: Seq<u8>,
    pub next: int,
}

/// The pair of a name and a quoted value at `pos`: its name, its value as
/// written, and the position behind the closing quote.
pub open spec fn spec_name_value(data: Seq<u8>, pos: int) -> Option<NameValue> {
    match spec_parse_name(data, pos) {
        None => None,
        Some((name, after_name)) => {
            let equals = spec_skip_whitespace(data, after_name);
            if equals < data.len() && data[equals] == EQUALS {
                match spec_quoted_value(data, spec_skip_whitespace(data, equals + 1)) {
                    None => None,
                    Some((value, next)) => Some(NameValue { name, value, next }),
                }
            } else {
                None
            }
        },
    }
}

/// The attributes of a start-tag from `pos` on, each with its decoded
/// value, and the position of the `/` or `>` that ends them. `None` where
/// the input ends first, where a pair is malformed or where a value does not
/// decode.
pub open spec fn spec_parse_attributes(data: Seq<u8>, pos: int) -> Option<(Seq<(Seq<u8>, Seq<u8>)>, int)>
    decreases data.len() - pos,
{
    let at = spec_skip_whitespace(data, pos);
    if pos < 0 || at >= data.len() {
        None
    } else if data[at] == SLASH || data[at] == GREATER_THAN {
        Some((Seq::empty(), at))
    } else {
        match spec_name_value(data, at) {
            None => None,
            Some(pair) => match spec_decode_entities(pair.value) {
                None => None,
                Some(decoded) => if pair.next > pos {
                    match spec_parse_attributes(data, pair.next) {
                        None => None,
                        Some((rest, end)) => Some((seq![(pair.name, decoded)] + rest, end)),
                    }
                } else {
                    None
                },
            },
        }
    }
}

/// Skipping white space stays inside the input and moves forward; what it
/// passes is white space, and where it stops there is none.
pub proof fn lemma_skip_whitespace(data: Seq<u8>, pos: int)
    requires
        0 <= pos <= data.len(),
    ensures
        pos <= spec_skip_whitespace(data, pos) <= data.len(),
        spec_skip_whitespace(data, pos) < data.len() ==> !spec_is_whitespace(
            data[spec_skip_whitespace(data, pos)],
        ),
        forall|i: int| pos <= i < spec_skip_whitespace(data, pos) ==> spec_is_whitespace(data[i]),
    decreases data.len() - pos,
{
    if pos < data.len() && spec_is_whitespace(data[pos]) {
        lemma_skip_whitespace(data, pos + 1);
    }
}

/// The end of a name stays inside the input and moves forward; what it
/// passes are name characters, and where it stops there is none.
pub proof fn lemma_name_end(data: Seq<u8>, pos: int)
    requires
        0 <= pos <= data.len(),
    ensures
        pos <= spec_name_end(data, pos) <= data.len(),
        spec_name_end(data, pos) < data.len() ==> !spec_is_name_char(data[spec_name_end(data, pos)]),
        forall|i: int| pos <= i < spec_name_end(data, pos) ==> spec_is_name_char(data[i]),
    decreases data.len() - pos,
{
    if pos < data.len() && spec_is_name_char(data[pos]) {
        lemma_name_end(data, pos + 1);
    }
}

/// A pattern is found inside the input, at or after the start of the
/// search; where it is found before the end, the input holds it there, and
/// nowhere earlier from the start of the search on.
pub proof fn lemma_find_pattern(data: Seq<u8>, pos: int, pattern: Seq<u8>)
    requires
        0 <= pos <= data.len(),
    ensures
        pos <= spec_find_pattern(data, pos, pattern) <= data.len(),
        spec_find_pattern(data, pos, pattern) < data.len() ==> spec_starts_with(
            data,
            spec_find_pattern(data, pos, pattern),
            pattern,
        ),
        forall|i: int|
            pos <= i < spec_find_pattern(data, pos, pattern) ==> !spec_starts_with(data, i, pattern),
    decreases data.len() - pos,
{
    if pos < data.len() && !spec_starts_with(data, pos, pattern) {
        lemma_find_pattern(data, pos + 1, pattern);
    }
}

/// A pair of a name and a quoted value ends behind where it starts, inside
/// the input.
pub proof fn lemma_name_value(data: Seq<u8>, pos: int)
    requires
        spec_name_value(data, pos) is Some,
    ensures
        pos + 4 <= spec_name_value(data, pos).unwrap().next <= data.len(),
{
    lemma_name_end(data, pos + 1);
    let after_name = spec_name_end(data, pos + 1);
    lemma_skip_whitespace(data, after_name);
    let equals = spec_skip_whitespace(data, after_name);
    lemma_skip_whitespace(data, equals + 1);
    let quote = spec_skip_whitespace(data, equals + 1);
    crate::entities::lemma_find_byte(data, quote + 1, data[quote]);
}

/// The attributes of a start-tag end inside the input, at a `/` or a `>`.
pub proof fn lemma_parse_attributes(data: Seq<u8>, pos: int)
    requires
        0 <= pos <= data.len(),
        spec_parse_attributes(data, pos) is Some,
    ensures
        pos <= spec_parse_attributes(data, pos).unwrap().1 < data.len(),
        data[spec_parse_attributes(data, pos).unwrap().1] == SLASH || data[spec_parse_attributes(
            data,
            pos,
        ).unwrap().1] == GREATER_THAN,
    decreases data.len() - pos,
{
    lemma_skip_whitespace(data, pos);
    let at = spec_skip_whitespace(data, pos);
    if data[at] == SLASH || data[at] == GREATER_THAN {
    } else {
        let pair = spec_name_value(data, at).unwrap();
        lemma_name_value(data, at);
        lemma_parse_attributes(data, pair.next);
    }
}

} // verus!
