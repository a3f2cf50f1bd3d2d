//! The schema of the example dataset: which tags there are, and of what type
//! the value of each is.
//!
//! This is version 1 of the schema: the index has tag 2, the mode tag 3 and
//! the label tag 16. Numbers are four octets in big-endian order, the index
//! in two's complement; the label is UTF-8.

use vstd::prelude::*;
use vstd::utf8::{decode_utf8, valid_utf8};
use crate::klv::error::ParseError;

verus! {

/// The fields of the dataset.
#[derive(Clone, Copy, Debug, PartialEq, Eq, Structural)]
pub enum ExampleTag {
    Index,
    Mode,
    Label,
}

/// The tag of the index.
pub const TAG_INDEX: u8 = 2;

/// The tag of the mode.
pub const TAG_MODE: u8 = 3;

/// The tag of the label.
pub const TAG_LABEL: u8 = 16;

/// The tag that stands for the field on the wire.
pub open spec fn spec_tag_for(field: ExampleTag) -> u8 {
    match field {
        ExampleTag::Index => TAG_INDEX,
        ExampleTag::Mode => TAG_MODE,
        ExampleTag::Label => TAG_LABEL,
    }
}

/// The field that the tag stands for, if it stands for one.
pub open spec fn spec_from_byte(tag: u8) -> Option<ExampleTag> {
    if tag == TAG_INDEX {
        Some(ExampleTag::Index)
    } else if tag == TAG_MODE {
        Some(ExampleTag::Mode)
    } else if tag == TAG_LABEL {
        Some(ExampleTag::Label)
    } else {
        None
    }
}

/// The tag that stands for the field on the wire.
#[verifier::when_used_as_spec(spec_tag_for)]
pub fn tag_for(field: ExampleTag) -> (tag: u8)
    ensures
        tag == spec_tag_for(field),
{
    match field {
        ExampleTag::Index => TAG_INDEX,
        ExampleTag::Mode => TAG_MODE,
        ExampleTag::Label => TAG_LABEL,
    }
}

/// The field that the tag stands for, if it stands for one.
#[verifier::when_used_as_spec(spec_from_byte)]
pub fn from_byte(tag: u8) -> (field: Option<ExampleTag>)
    ensures
        field == spec_from_byte(tag),
{
    if tag == TAG_INDEX {
        Some(ExampleTag::Index)
    } else if tag == TAG_MODE {
        Some(ExampleTag::Mode)
    } else if tag == TAG_LABEL {
        Some(ExampleTag::Label)
    } else {
        None
    }
}

/// Fields and tags stand for each other, one for one.
pub proof fn law_tags_inverse(field: ExampleTag, tag: u8)
    ensures
        spec_from_byte(spec_tag_for(field)) == Some(field),
        spec_from_byte(tag) == Some(field) ==> spec_tag_for(field) == tag,
{
}

/// The four octets of `x`, the most significant first.
pub open spec fn be32(x: u32) -> Seq<u8> {
    seq![
        (x / 0x100_0000) as u8,
        (x / 0x1_0000 % 0x100) as u8,
        (x / 0x100 % 0x100) as u8,
        (x % 0x100) as u8,
    ]
}

/// The number whose four octets `s` holds, the most significant first.
pub open spec fn from_be32(s: Seq<u8>) -> u32
    recommends
        s.len() == 4,
{
    (s[0] * 0x100_0000 + s[1] * 0x1_0000 + s[2] * 0x100 + s[3]) as u32
}

/// The 32 bits of `x` in two's complement, read as a number without sign.
pub open spec fn i32_bits(x: i32) -> u32 {
    if x >= 0 {
        x as u32
    } else {
        (x + 0x1_0000_0000) as u32
    }
}

/// The number whose 32 bits in two's complement are those of `x`.
pub open spec fn i32_of_bits(x: u32) -> i32 {
    if x < 0x8000_0000 {
        x as i32
    } else {
        (x - 0x1_0000_0000) as i32
    }
}

/// Four octets hold the number that they were made from.
pub proof fn law_be32_reads_back(x: u32)
    ensures
        be32(x).len() == 4,
        from_be32(be32(x)) == x,
{
    let y = x / 0x100;
    let z = y / 0x100;
    let w = z / 0x100;
    assert(x / 0x1_0000 == z && x / 0x100_0000 == w);
}

/// A number is made into the four octets that hold it.
pub proof fn law_be32_writes_back(s: Seq<u8>)
    requires
        s.len() == 4,
    ensures
        be32(from_be32(s)) == s,
{
    let x = from_be32(s);
    assert(x == s[0] * 0x100_0000 + s[1] * 0x1_0000 + s[2] * 0x100 + s[3]);
    let y = x / 0x100;
    let z = y / 0x100;
    let w = z / 0x100;
    assert(y == s[0] * 0x1_0000 + s[1] * 0x100 + s[2]);
    assert(z == s[0] * 0x100 + s[1]);
    assert(w == s[0]);
    assert(x / 0x1_0000 == z && x / 0x100_0000 == w);
    assert(be32(x) =~= s);
}

/// A number with sign and its 32 bits stand for each other.
pub proof fn law_bits_inverse(i: i32, x: u32)
    ensures
        i32_of_bits(i32_bits(i)) == i,
        i32_bits(i32_of_bits(x)) == x,
{
}

/// The four octets of `x`, the most significant first.
pub fn u32_to_be(x: u32) -> (v: Vec<u8>)
    ensures
        v@ == be32(x),
{
    let mut v: Vec<u8> = Vec::new();
    v.push((x / 0x100_0000) as u8);
    v.push((x / 0x1_0000 % 0x100) as u8);
    v.push((x / 0x100 % 0x100) as u8);
    v.push((x % 0x100) as u8);
    assert(v@ =~= be32(x));
    v
}

/// The number whose four octets `s` holds, the most significant first, if
/// `s` is four octets long.
pub fn u32_from_be(s: &[u8]) -> (x: Option<u32>)
    ensures
        s@.len() == 4 ==> x == Some(from_be32(s@)),
        s@.len() != 4 ==> x is None,
{
    if s.len() != 4 {
        None
    } else {
        Some(s[0] as u32 * 0x100_0000 + s[1] as u32 * 0x1_0000 + s[2] as u32 * 0x100 + s[3] as u32)
    }
}

/// The 32 bits of `x` in two's complement.
pub fn i32_to_bits(x: i32) -> (b: u32)
    ensures
        b == i32_bits(x),
{
    if x >= 0 {
        x as u32
    } else {
        (x as i64 + 0x1_0000_0000) as u32
    }
}

/// The number whose 32 bits in two's complement are those of `x`.
pub fn i32_from_bits(x: u32) -> (i: i32)
    ensures
        i == i32_of_bits(x),
{
    if x < 0x8000_0000 {
        x as i32
    } else {
        (x as i64 - 0x1_0000_0000) as i32
    }
}

/// A value of the dataset, by its type, as mathematics.
pub enum TypedModel {
    I32(i32),
    U32(u32),
    Text(Seq<char>),
}

/// A value of the dataset, by its type.
#[derive(Debug)]
pub enum TypedValue {
    I32(i32),
    U32(u32),
    Text(String),
}

impl View for TypedValue {
    type V = TypedModel;

    open spec fn view(&self) -> TypedModel {
        match self {
            TypedValue::I32(x) => TypedModel::I32(*x),
            TypedValue::U32(x) => TypedModel::U32(*x),
            TypedValue::Text(s) => TypedModel::Text(s@),
        }
    }
}

/// The value that the octets `raw` hold under `tag`: a number with sign for
/// the index, one without for the mode, text for the label. A tag outside
/// the dataset, a number that is not four octets wide and a label that is not
/// UTF-8 are refused.
pub open spec fn typed_value(tag: u8, raw: Seq<u8>) -> Result<TypedModel, ParseError> {
    match spec_from_byte(tag) {
        None => Err(ParseError::UnknownTag(tag)),
        Some(ExampleTag::Index) => if raw.len() != 4 {
            Err(ParseError::WrongWidth(tag))
        } else {
            Ok(TypedModel::I32(i32_of_bits(from_be32(raw))))
        },
        Some(ExampleTag::Mode) => if raw.len() != 4 {
            Err(ParseError::WrongWidth(tag))
        } else {
            Ok(TypedModel::U32(from_be32(raw)))
        },
        Some(ExampleTag::Label) => if !valid_utf8(raw) {
            Err(ParseError::InvalidUtf8(tag))
        } else {
            Ok(TypedModel::Text(decode_utf8(raw)))
        },
    }
}

/// `std::string::String::from_utf8`: the text that the octets hold. They hold
/// one exactly when they are well-formed UTF-8, and then the text is their
/// decoding.
#[verifier::external_body]
fn text_of_utf8(raw: Vec<u8>) -> (text: Option<String>)
    ensures
        text is Some <==> valid_utf8(raw@),
        text is Some ==> text->Some_0@ == decode_utf8(raw@),
{
    String::from_utf8(raw).ok()
}

/// The text that the octets hold, if they are well-formed UTF-8.
pub fn text_from_bytes(raw: &[u8]) -> (text: Option<String>)
    ensures
        text is Some <==> valid_utf8(raw@),
        text is Some ==> text->Some_0@ == decode_utf8(raw@),
{
    text_of_utf8(vstd::slice::slice_to_vec(raw))
}

/// Reads the octets `raw` as the value of `tag`.
pub fn value(tag: u8, raw: &[u8]) -> (r: Result<TypedValue, ParseError>)
    ensures
        match typed_value(tag, raw@) {
            Ok(v) => r is Ok && r->Ok_0@ == v,
            Err(e) => r is Err && r->Err_0 == e,
        },
{
    match from_byte(tag) {
        None => Err(ParseError::UnknownTag(tag)),
        Some(ExampleTag::Index) => match u32_from_be(raw) {
            None => Err(ParseError::WrongWidth(tag)),
            Some(bits) => Ok(TypedValue::I32(i32_from_bits(bits))),
        },
        Some(ExampleTag::Mode) => match u32_from_be(raw) {
            None => Err(ParseError::WrongWidth(tag)),
            Some(x) => Ok(TypedValue::U32(x)),
        },
        Some(ExampleTag::Label) => {
            match text_from_bytes(raw) {
                None => Err(ParseError::InvalidUtf8(tag)),
                Some(s) => Ok(TypedValue::Text(s)),
            }
        },
    }
}

} // verus!
