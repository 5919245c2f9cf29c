//! Decoding of entity references in text runs and attribute values.

use crate::ascii::bytes_equal;
use vstd::prelude::*;
use vstd::utf8::{encode_scalar, is_scalar};
use crate::ascii::{
    spec_name_amp, spec_name_apos, spec_name_gt, spec_name_lt, spec_name_quot, AMPERSAND,
    APOSTROPHE, DIGIT_0, DIGIT_9, GREATER_THAN, HASH, LESS_THAN, LOWER_A, LOWER_X, LOWER_Z, PLUS,
    QUOTE, SEMICOLON, UPPER_A, UPPER_X, UPPER_Z,
};

verus! {

/// The value of `byte` as a digit in `radix`, if it is one: `0`-`9`, then the
/// letters of either case from ten upwards.
pub open spec fn spec_digit_value(byte: u8, radix: int) -> Option<int> {
    let value: int = if DIGIT_0 <= byte <= DIGIT_9 {
        byte - DIGIT_0
    } else if LOWER_A <= byte <= LOWER_Z {
        byte - LOWER_A + 10
    } else if UPPER_A <= byte <= UPPER_Z {
        byte - UPPER_A + 10
    } else {
        radix
    };
    if value < radix {
        Some(value)
    } else {
        None
    }
}

/// The number that a run of digits in `radix` denotes, most significant digit
/// first; `None` if a byte of the run is no digit. The empty run denotes zero.
pub open spec fn spec_digits_value(digits: Seq<u8>, radix: int) -> Option<int>
    decreases digits.len(),
{
    if digits.len() == 0 {
        Some(0)
    } else {
        match (spec_digits_value(digits.drop_last(), radix), spec_digit_value(digits.last(), radix)) {
            (Some(high), Some(low)) => Some(high * radix + low),
            _ => None,
        }
    }
}

/// The number that a run of at least one digit denotes, where it is at most
/// `u32::MAX`.
pub open spec fn spec_digits_u32(digits: Seq<u8>, radix: int) -> Option<u32> {
    if digits.len() == 0 {
        None
    } else {
        match spec_digits_value(digits, radix) {
            Some(value) => if value <= u32::MAX {
                Some(value as u32)
            } else {
                None
            },
            None => None,
        }
    }
}

/// The unsigned 32-bit number written in `text`: an optional `+`, then at
/// least one digit in `radix`, with a value of at most `u32::MAX`.
pub open spec fn spec_parse_u32(text: Seq<u8>, radix: int) -> Option<u32> {
    let digits = if text.len() > 0 && text[0] == PLUS {
        text.subrange(1, text.len() as int)
    } else {
        text
    };
    spec_digits_u32(digits, radix)
}

/// The bytes that replace the reference `&entity;`.
///
/// A numeric reference (`#` and decimal digits, or `#x` / `#X` and hexadecimal
/// digits) gives the UTF-8 encoding of its code point and is refused where
/// the number is not a Unicode scalar value. The five predefined names give
/// their character. Any other name is kept as written, delimiters included.
/// The empty name is refused.
pub open spec fn spec_entity_bytes(entity: Seq<u8>) -> Option<Seq<u8>> {
    if entity.len() == 0 {
        None
    } else if entity[0] == HASH {
        let codepoint = if entity.len() > 1 && (entity[1] == LOWER_X || entity[1] == UPPER_X) {
            spec_parse_u32(entity.subrange(2, entity.len() as int), 16)
        } else {
            spec_parse_u32(entity.subrange(1, entity.len() as int), 10)
        };
        match codepoint {
            Some(scalar) => if is_scalar(scalar) {
                Some(encode_scalar(scalar))
            } else {
                None
            },
            None => None,
        }
    } else if entity == spec_name_lt() {
        Some(seq![LESS_THAN])
    } else if entity == spec_name_gt() {
        Some(seq![GREATER_THAN])
    } else if entity == spec_name_amp() {
        Some(seq![AMPERSAND])
    } else if entity == spec_name_apos() {
        Some(seq![APOSTROPHE])
    } else if entity == spec_name_quot() {
        Some(seq![QUOTE])
    } else {
        Some(seq![AMPERSAND] + entity + seq![SEMICOLON])
    }
}

/// The first position at or after `from` where `data` holds `byte`, or the
/// length of `data` if there is none.
pub open spec fn spec_find_byte(data: Seq<u8>, from: int, byte: u8) -> int
    decreases data.len() - from,
{
    if from < 0 || from >= data.len() {
        data.len() as int
    } else if data[from] == byte {
        from
    } else {
        spec_find_byte(data, from + 1, byte)
    }
}

/// `prefix` followed by the decoded rest, where the rest decodes.
pub open spec fn spec_prepend(prefix: Seq<u8>, rest: Option<Seq<u8>>) -> Option<Seq<u8>> {
    match rest {
        Some(tail) => Some(prefix + tail),
        None => None,
    }
}

/// The decoding of `data` from position `from` on: every byte stands for
/// itself but `&`, which opens a reference that runs to the next `;` and is
/// replaced as `spec_entity_bytes` says. A `&` without a later `;`, or a
/// refused reference, refuses the whole.
pub open spec fn spec_decode_from(data: Seq<u8>, from: int) -> Option<Seq<u8>>
    decreases data.len() - from,
{
    if from < 0 || from >= data.len() {
        Some(Seq::empty())
    } else if data[from] != AMPERSAND {
        spec_prepend(seq![data[from]], spec_decode_from(data, from + 1))
    } else {
        let end = spec_find_byte(data, from + 1, SEMICOLON);
        if !(from < end < data.len()) {
            None
        } else {
            match spec_entity_bytes(data.subrange(from + 1, end)) {
                Some(bytes) => spec_prepend(bytes, spec_decode_from(data, end + 1)),
                None => None,
            }
        }
    }
}

/// The decoding of a whole text run or attribute value.
pub open spec fn spec_decode_entities(data: Seq<u8>) -> Option<Seq<u8>> {
    spec_decode_from(data, 0)
}

/// What `spec_find_byte` finds lies between `from` and the end, holds `byte`
/// unless it is the end, and no earlier position from `from` on holds `byte`.
pub proof fn lemma_find_byte(data: Seq<u8>, from: int, byte: u8)
    requires
        0 <= from <= data.len(),
    ensures
        from <= spec_find_byte(data, from, byte) <= data.len(),
        spec_find_byte(data, from, byte) < data.len() ==> data[spec_find_byte(data, from, byte)]
            == byte,
        forall|i: int| from <= i < spec_find_byte(data, from, byte) ==> data[i] != byte,
    decreases data.len() - from,
{
    if from < data.len() && data[from] != byte {
        lemma_find_byte(data, from + 1, byte);
    }
}

/// A run whose digits denote a number has prefixes that denote numbers too,
/// none larger than the whole.
pub proof fn lemma_digits_prefix(digits: Seq<u8>, radix: int, k: int)
    requires
        0 <= k <= digits.len(),
        radix > 0,
        spec_digits_value(digits, radix) is Some,
    ensures
        spec_digits_value(digits.subrange(0, k), radix) is Some,
        0 <= spec_digits_value(digits.subrange(0, k), radix).unwrap() <= spec_digits_value(
            digits,
            radix,
        ).unwrap(),
    decreases digits.len() - k,
{
    if k == digits.len() {
        assert(digits.subrange(0, k) =~= digits);
        lemma_digits_nonnegative(digits, radix);
    } else {
        lemma_digits_prefix(digits.drop_last(), radix, k);
        assert(digits.drop_last().subrange(0, k) =~= digits.subrange(0, k));
        let high = spec_digits_value(digits.drop_last(), radix).unwrap();
        let low = spec_digit_value(digits.last(), radix).unwrap();
        lemma_digits_nonnegative(digits.drop_last(), radix);
        assert(high * radix >= high) by (nonlinear_arith)
            requires
                high >= 0,
                radix > 0,
        ;
    }
}

/// The number that a run of digits denotes is not negative.
pub proof fn lemma_digits_nonnegative(digits: Seq<u8>, radix: int)
    requires
        radix > 0,
        spec_digits_value(digits, radix) is Some,
    ensures
        spec_digits_value(digits, radix).unwrap() >= 0,
    decreases digits.len(),
{
    if digits.len() > 0 {
        lemma_digits_nonnegative(digits.drop_last(), radix);
        let high = spec_digits_value(digits.drop_last(), radix).unwrap();
        assert(high * radix >= 0) by (nonlinear_arith)
            requires
                high >= 0,
                radix > 0,
        ;
    }
}

/// Text without a `&` in it decodes to itself.
pub proof fn lemma_decode_plain(data: Seq<u8>, from: int)
    requires
        0 <= from <= data.len(),
        forall|i: int| from <= i < data.len() ==> data[i] != AMPERSAND,
    ensures
        spec_decode_from(data, from) == Some(data.subrange(from, data.len() as int)),
    decreases data.len() - from,
{
    if from < data.len() {
        lemma_decode_plain(data, from + 1);
        assert(seq![data[from]] + data.subrange(from + 1, data.len() as int) =~= data.subrange(
            from,
            data.len() as int,
        ));
    } else {
        assert(data.subrange(from, data.len() as int) =~= Seq::<u8>::empty());
    }
}

/// The value of `byte` as a digit in `radix`.
fn digit_value(byte: u8, radix: u32) -> (value: Option<u32>)
    requires
        2 <= radix <= 36,
    ensures
        match value {
            Some(v) => spec_digit_value(byte, radix as int) == Some(v as int) && v < radix,
            None => spec_digit_value(byte, radix as int) is None,
        },
{
    let value: u32 = if DIGIT_0 <= byte && byte <= DIGIT_9 {
        (byte - DIGIT_0) as u32
    } else if LOWER_A <= byte && byte <= LOWER_Z {
        (byte - LOWER_A) as u32 + 10
    } else if UPPER_A <= byte && byte <= UPPER_Z {
        (byte - UPPER_A) as u32 + 10
    } else {
        radix
    };
    if value < radix {
        Some(value)
    } else {
        None
    }
}

/// Reads an unsigned 32-bit number in `radix` from `text`: an optional `+`
/// and at least one digit. Anything else, and a value above `u32::MAX`, gives
/// `None`.
pub fn parse_u32(text: &[u8], radix: u32) -> (value: Option<u32>)
    requires
        2 <= radix <= 36,
    ensures
        value == spec_parse_u32(text@, radix as int),
{
    let start: usize = if text.len() > 0 && text[0] == PLUS {
        1
    } else {
        0
    };
    if start >= text.len() {
        return None;
    }
    let ghost digits = text@.subrange(start as int, text@.len() as int);
    assert(start == 0 ==> digits =~= text@);
    let mut acc: u64 = 0;
    let mut i: usize = start;
    while i < text.len()
        invariant
            start <= i <= text@.len(),
            2 <= radix <= 36,
            digits == text@.subrange(start as int, text@.len() as int),
            spec_parse_u32(text@, radix as int) == spec_digits_u32(digits, radix as int),
            spec_digits_value(digits.subrange(0, i - start), radix as int) == Some(acc as int),
            acc <= u32::MAX,
        decreases text@.len() - i,
    {
        let ghost prefix = digits.subrange(0, i - start);
        let ghost longer = digits.subrange(0, i + 1 - start);
        proof {
            assert(longer.drop_last() =~= prefix);
            assert(longer.last() == text@[i as int]);
        }
        match digit_value(text[i], radix) {
            None => {
                proof {
                    if spec_digits_value(digits, radix as int) is Some {
                        lemma_digits_prefix(digits, radix as int, i + 1 - start);
                    }
                }
                return None;
            },
            Some(d) => {
                assert(acc * radix + d <= 0xffff_ffff * 36 + 36) by (nonlinear_arith)
                    requires
                        acc <= 0xffff_ffff,
                        radix <= 36,
                        d < radix,
                ;
                let next: u64 = acc * (radix as u64) + (d as u64);
                if next > 0xffff_ffff {
                    proof {
                        if spec_digits_value(digits, radix as int) is Some {
                            lemma_digits_prefix(digits, radix as int, i + 1 - start);
                        }
                    }
                    return None;
                }
                acc = next;
            },
        }
        i = i + 1;
    }
    proof {
        assert(digits.subrange(0, i - start) =~= digits);
    }
    Some(acc as u32)
}

/// Appends the UTF-8 encoding of `codepoint` to `out`, or refuses a number
/// that is no Unicode scalar value and leaves `out` as it was.
pub fn push_codepoint(out: &mut Vec<u8>, codepoint: u32) -> (result: Result<(), ()>)
    ensures
        result is Ok <==> is_scalar(codepoint),
        result is Ok ==> final(out)@ == old(out)@ + encode_scalar(codepoint),
        result is Err ==> final(out)@ == old(out)@,
{
    if codepoint > 0x10FFFF || (0xD800 <= codepoint && codepoint <= 0xDFFF) {
        return Err(());
    }
    if codepoint <= 0x7F {
        out.push((codepoint & 0x7F) as u8);
        assert(out@ =~= old(out)@ + encode_scalar(codepoint));
    } else if codepoint <= 0x7FF {
        out.push(0xC0 | ((codepoint >> 6) & 0x1F) as u8);
        out.push(0x80 | (codepoint & 0x3F) as u8);
        assert(out@ =~= old(out)@ + encode_scalar(codepoint));
    } else if codepoint <= 0xFFFF {
        out.push(0xE0 | ((codepoint >> 12) & 0x0F) as u8);
        out.push(0x80 | ((codepoint >> 6) & 0x3F) as u8);
        out.push(0x80 | (codepoint & 0x3F) as u8);
        assert(out@ =~= old(out)@ + encode_scalar(codepoint));
    } else {
        out.push(0xF0 | ((codepoint >> 18) & 0x7) as u8);
        out.push(0x80 | ((codepoint >> 12) & 0x3F) as u8);
        out.push(0x80 | ((codepoint >> 6) & 0x3F) as u8);
        out.push(0x80 | (codepoint & 0x3F) as u8);
        assert(out@ =~= old(out)@ + encode_scalar(codepoint));
    }
    Ok(())
}

/// Appends to `out` the bytes that replace the reference `&entity;`, or
/// refuses the reference and leaves `out` as it was.
fn push_entity(out: &mut Vec<u8>, entity: &[u8]) -> (result: Result<(), ()>)
    ensures
        result is Ok <==> spec_entity_bytes(entity@) is Some,
        result is Ok ==> final(out)@ == old(out)@ + spec_entity_bytes(entity@).unwrap(),
        result is Err ==> final(out)@ == old(out)@,
{
    if entity.len() == 0 {
        return Err(());
    }
    if entity[0] == HASH {
        let codepoint = if entity.len() > 1 && (entity[1] == LOWER_X || entity[1] == UPPER_X) {
            parse_u32(vstd::slice::slice_subrange(entity, 2, entity.len()), 16)
        } else {
            parse_u32(vstd::slice::slice_subrange(entity, 1, entity.len()), 10)
        };
        match codepoint {
            Some(scalar) => push_codepoint(out, scalar),
            None => Err(()),
        }
    } else {
        let lt: [u8; 2] = [0x6C, 0x74];
        let gt: [u8; 2] = [0x67, 0x74];
        let amp: [u8; 3] = [0x61, 0x6D, 0x70];
        let apos: [u8; 4] = [0x61, 0x70, 0x6F, 0x73];
        let quot: [u8; 4] = [0x71, 0x75, 0x6F, 0x74];
        assert(lt@ =~= spec_name_lt());
        assert(gt@ =~= spec_name_gt());
        assert(amp@ =~= spec_name_amp());
        assert(apos@ =~= spec_name_apos());
        assert(quot@ =~= spec_name_quot());
        if bytes_equal(entity, lt.as_slice()) {
            out.push(LESS_THAN);
            assert(out@ =~= old(out)@ + seq![LESS_THAN]);
        } else if bytes_equal(entity, gt.as_slice()) {
            out.push(GREATER_THAN);
            assert(out@ =~= old(out)@ + seq![GREATER_THAN]);
        } else if bytes_equal(entity, amp.as_slice()) {
            out.push(AMPERSAND);
            assert(out@ =~= old(out)@ + seq![AMPERSAND]);
        } else if bytes_equal(entity, apos.as_slice()) {
            out.push(APOSTROPHE);
            assert(out@ =~= old(out)@ + seq![APOSTROPHE]);
        } else if bytes_equal(entity, quot.as_slice()) {
            out.push(QUOTE);
            assert(out@ =~= old(out)@ + seq![QUOTE]);
        } else {
            out.push(AMPERSAND);
            out.extend_from_slice(entity);
            out.push(SEMICOLON);
            assert(out@ =~= old(out)@ + (seq![AMPERSAND] + entity@ + seq![SEMICOLON]));
        }
        Ok(())
    }
}

/// Decodes the entity references of a text run or an attribute value.
///
/// Succeeds exactly where every `&` is followed by a `;` and the reference
/// between them is accepted, and then returns the input with each reference
/// replaced. Text without a `&` is returned as it is.
pub fn decode_entities(data: &[u8]) -> (result: Result<Vec<u8>, ()>)
    ensures
        result is Ok <==> spec_decode_entities(data@) is Some,
        result matches Ok(out) ==> Some(out@) == spec_decode_entities(data@),
        (forall|i: int| 0 <= i < data@.len() ==> data@[i] != AMPERSAND) ==> result is Ok
            && result.unwrap()@ == data@,
{
    proof {
        if forall|i: int| 0 <= i < data@.len() ==> data@[i] != AMPERSAND {
            lemma_decode_plain(data@, 0);
            assert(data@.subrange(0, data@.len() as int) =~= data@);
        }
    }
    let mut out: Vec<u8> = Vec::with_capacity(data.len());
    let mut i: usize = 0;
    while i < data.len()
        invariant
            i <= data@.len(),
            spec_decode_from(data@, 0) == spec_prepend(out@, spec_decode_from(data@, i as int)),
        decreases data@.len() - i,
    {
        let ghost before = out@;
        if data[i] == AMPERSAND {
            let mut end: usize = i + 1;
            while end < data.len() && data[end] != SEMICOLON
                invariant
                    i + 1 <= end <= data@.len(),
                    spec_find_byte(data@, i + 1, SEMICOLON) == spec_find_byte(data@, end as int, SEMICOLON),
                decreases data@.len() - end,
            {
                end = end + 1;
            }
            if end >= data.len() {
                return Err(());
            }
            let entity = vstd::slice::slice_subrange(data, i + 1, end);
            match push_entity(&mut out, entity) {
                Ok(()) => {},
                Err(()) => {
                    return Err(());
                },
            }
            proof {
                let bytes = spec_entity_bytes(entity@).unwrap();
                let rest = spec_decode_from(data@, end + 1);
                if rest is Some {
                    assert(before + (bytes + rest.unwrap()) =~= (before + bytes) + rest.unwrap());
                }
            }
            i = end + 1;
        } else {
            out.push(data[i]);
            proof {
                let rest = spec_decode_from(data@, i + 1);
                if rest is Some {
                    assert(before + (seq![data@[i as int]] + rest.unwrap()) =~= before.push(
                        data@[i as int],
                    ) + rest.unwrap());
                }
            }
            i = i + 1;
        }
    }
    assert(out@ + Seq::<u8>::empty() =~= out@);
    Ok(out)
}

} // verus!
