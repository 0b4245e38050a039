//! Parameter object codec.
//!
//! A parameter object is a typed, ordered list of key/value properties used to
//! negotiate capabilities with the remote streaming endpoint. This module
//! defines the in-memory model of such objects and a byte codec for them: a
//! little-endian, size-prefixed encoding in which every value is an 8-byte
//! aligned cell of a 4-byte size, a 4-byte type tag and a padded body. The
//! encoding of well-formed objects round-trips losslessly through `decode`.

use vstd::prelude::*;

verus! {

/// Type tag of an identifier cell.
pub const CELL_TYPE_ID: u32 = 3;

/// Type tag of a signed integer cell.
pub const CELL_TYPE_INT: u32 = 4;

/// Type tag of a 64-bit signed long cell.
pub const CELL_TYPE_LONG: u32 = 5;

/// Type tag of a rectangle cell.
pub const CELL_TYPE_RECTANGLE: u32 = 10;

/// Type tag of a fraction cell.
pub const CELL_TYPE_FRACTION: u32 = 11;

/// Type tag of an object cell.
pub const CELL_TYPE_OBJECT: u32 = 15;

/// Type tag of a choice cell.
pub const CELL_TYPE_CHOICE: u32 = 19;

/// Kind tag of a range choice: default, minimum and maximum.
pub const CHOICE_KIND_RANGE: u32 = 1;

/// A width/height pair, as negotiated for frame sizes.
#[derive(Clone, Copy, Debug, PartialEq, Eq, Structural)]
pub struct Rectangle {
    pub width: u32,
    pub height: u32,
}

/// A rational number, as negotiated for frame rates.
#[derive(Clone, Copy, Debug, PartialEq, Eq, Structural)]
pub struct Fraction {
    pub num: u32,
    pub denom: u32,
}

/// The constrained range a choice value offers: a default together with the
/// inclusive bounds, over one of the scalar value kinds.
#[derive(Clone, Copy, Debug, PartialEq, Eq, Structural)]
pub enum ChoiceRange {
    Id { default: u32, min: u32, max: u32 },
    Int { default: i32, min: i32, max: i32 },
    Long { default: i64, min: i64, max: i64 },
    Rect { default: Rectangle, min: Rectangle, max: Rectangle },
    Frac { default: Fraction, min: Fraction, max: Fraction },
}

/// One typed property value.
#[derive(Clone, Copy, Debug, PartialEq, Eq, Structural)]
pub enum PodValue {
    /// An identifier from some fixed vocabulary.
    Id(u32),
    /// A plain signed integer.
    Int(i32),
    /// A 64-bit signed long; carries opaque 64-bit tags such as layout
    /// modifiers losslessly.
    Long(i64),
    /// A width/height pair.
    Rect(Rectangle),
    /// A rational number.
    Frac(Fraction),
    /// A constrained range, not yet fixated to a single value.
    Choice { flags: u32, range: ChoiceRange },
}

/// One key/flags/value triple of a parameter object.
#[derive(Clone, Copy, Debug, PartialEq, Eq, Structural)]
pub struct PodProperty {
    pub key: u32,
    pub flags: u32,
    pub value: PodValue,
}

/// A structured, typed, ordered property list: the unit of negotiation.
#[derive(Clone, Debug, PartialEq, Eq)]
pub struct ParameterObject {
    pub object_type: u32,
    pub object_id: u32,
    pub properties: Vec<PodProperty>,
}

/// Decoding failed: the bytes are not a complete, well-formed encoding.
#[derive(Clone, Copy, Debug, PartialEq, Eq, Structural)]
pub enum CodecError {
    MalformedParameterObject,
}

/// The largest property count `encode` accepts; keeps the 32-bit size prefix
/// of the encoding from overflowing.
pub const MAX_PROPERTIES: usize = 0x0010_0000;

/// Low byte of a 32-bit word.
pub open spec fn byte0(v: u32) -> u8 {
    (v & 0xff) as u8
}

/// Second byte of a 32-bit word.
pub open spec fn byte1(v: u32) -> u8 {
    ((v >> 8) & 0xff) as u8
}

/// Third byte of a 32-bit word.
pub open spec fn byte2(v: u32) -> u8 {
    ((v >> 16) & 0xff) as u8
}

/// High byte of a 32-bit word.
pub open spec fn byte3(v: u32) -> u8 {
    ((v >> 24) & 0xff) as u8
}

/// The four little-endian bytes of a 32-bit word.
pub open spec fn u32_le(v: u32) -> Seq<u8> {
    seq![byte0(v), byte1(v), byte2(v), byte3(v)]
}

/// The 32-bit word the four bytes spell in little-endian order.
pub open spec fn le_u32(b0: u8, b1: u8, b2: u8, b3: u8) -> u32 {
    (b0 as u32) | ((b1 as u32) << 8) | ((b2 as u32) << 16) | ((b3 as u32) << 24)
}

/// The little-endian word starting at `off`.
pub open spec fn read_u32_at(b: Seq<u8>, off: int) -> u32 {
    le_u32(b[off], b[off + 1], b[off + 2], b[off + 3])
}

/// Splitting a word into bytes and reassembling them gives the word back.
pub broadcast proof fn lemma_u32_le_round(v: u32)
    ensures
        #[trigger] le_u32(byte0(v), byte1(v), byte2(v), byte3(v)) == v,
{
    assert(((v & 0xff) as u8 as u32) | ((((v >> 8) & 0xff) as u8 as u32) << 8) | ((((v >> 16)
        & 0xff) as u8 as u32) << 16) | ((((v >> 24) & 0xff) as u8 as u32) << 24) == v)
        by (bit_vector);
}

/// Casting a signed word to unsigned and back gives the word back.
pub broadcast proof fn lemma_i32_cast_round(v: i32)
    ensures
        #[trigger] ((v as u32) as i32) == v,
{
    assert((v as u32) as i32 == v) by (bit_vector);
}

/// The low 32-bit word of a 64-bit long.
pub open spec fn lo_word(v: i64) -> u32 {
    ((v as u64) & 0xFFFF_FFFF) as u32
}

/// The high 32-bit word of a 64-bit long.
pub open spec fn hi_word(v: i64) -> u32 {
    ((v as u64) >> 32) as u32
}

/// The 64-bit long two 32-bit words spell, low word first.
pub open spec fn words_to_i64(lo: u32, hi: u32) -> i64 {
    ((lo as u64) | ((hi as u64) << 32)) as i64
}

/// Splitting a long into words and reassembling them gives the long back.
pub broadcast proof fn lemma_i64_words_round(v: i64)
    ensures
        #[trigger] words_to_i64(lo_word(v), hi_word(v)) == v,
{
    assert(((((v as u64) & 0xFFFF_FFFF) as u32 as u64) | ((((v as u64) >> 32) as u32 as u64)
        << 32)) as i64 == v) by (bit_vector);
}


/// The encoded size of a value cell, header and padding included.
pub open spec fn value_enc_len(v: PodValue) -> int {
    match v {
        PodValue::Id(_) => 16,
        PodValue::Int(_) => 16,
        PodValue::Long(_) => 16,
        PodValue::Rect(_) => 16,
        PodValue::Frac(_) => 16,
        PodValue::Choice { flags, range } => match range {
            ChoiceRange::Id { .. } => 40,
            ChoiceRange::Int { .. } => 40,
            ChoiceRange::Long { .. } => 48,
            ChoiceRange::Rect { .. } => 48,
            ChoiceRange::Frac { .. } => 48,
        },
    }
}

/// The encoding of one value cell: size, type tag, body, zero padding to an
/// 8-byte boundary.
pub open spec fn spec_encode_value(v: PodValue) -> Seq<u8> {
    match v {
        PodValue::Id(x) => u32_le(4) + u32_le(CELL_TYPE_ID) + u32_le(x) + u32_le(0),
        PodValue::Int(x) => u32_le(4) + u32_le(CELL_TYPE_INT) + u32_le(x as u32) + u32_le(0),
        PodValue::Long(x) => u32_le(8) + u32_le(CELL_TYPE_LONG) + u32_le(lo_word(x)) + u32_le(
            hi_word(x),
        ),
        PodValue::Rect(r) => u32_le(8) + u32_le(CELL_TYPE_RECTANGLE) + u32_le(r.width) + u32_le(
            r.height,
        ),
        PodValue::Frac(f) => u32_le(8) + u32_le(CELL_TYPE_FRACTION) + u32_le(f.num) + u32_le(
            f.denom,
        ),
        PodValue::Choice { flags, range } => match range {
            ChoiceRange::Id { default, min, max } => u32_le(28) + u32_le(CELL_TYPE_CHOICE) + u32_le(
                CHOICE_KIND_RANGE,
            ) + u32_le(flags) + u32_le(4) + u32_le(CELL_TYPE_ID) + u32_le(default) + u32_le(min)
                + u32_le(max) + u32_le(0),
            ChoiceRange::Int { default, min, max } => u32_le(28) + u32_le(CELL_TYPE_CHOICE)
                + u32_le(CHOICE_KIND_RANGE) + u32_le(flags) + u32_le(4) + u32_le(CELL_TYPE_INT)
                + u32_le(default as u32) + u32_le(min as u32) + u32_le(max as u32) + u32_le(0),
            ChoiceRange::Long { default, min, max } => u32_le(40) + u32_le(CELL_TYPE_CHOICE)
                + u32_le(CHOICE_KIND_RANGE) + u32_le(flags) + u32_le(8) + u32_le(CELL_TYPE_LONG)
                + u32_le(lo_word(default)) + u32_le(hi_word(default)) + u32_le(lo_word(min))
                + u32_le(hi_word(min)) + u32_le(lo_word(max)) + u32_le(hi_word(max)),
            ChoiceRange::Rect { default, min, max } => u32_le(40) + u32_le(CELL_TYPE_CHOICE)
                + u32_le(CHOICE_KIND_RANGE) + u32_le(flags) + u32_le(8) + u32_le(
                CELL_TYPE_RECTANGLE,
            ) + u32_le(default.width) + u32_le(default.height) + u32_le(min.width) + u32_le(
                min.height,
            ) + u32_le(max.width) + u32_le(max.height),
            ChoiceRange::Frac { default, min, max } => u32_le(40) + u32_le(CELL_TYPE_CHOICE)
                + u32_le(CHOICE_KIND_RANGE) + u32_le(flags) + u32_le(8) + u32_le(CELL_TYPE_FRACTION)
                + u32_le(default.num) + u32_le(default.denom) + u32_le(min.num) + u32_le(min.denom)
                + u32_le(max.num) + u32_le(max.denom),
        },
    }
}

/// The encoding of one property: key, flags, then the value cell.
pub open spec fn spec_encode_prop(p: PodProperty) -> Seq<u8> {
    u32_le(p.key) + u32_le(p.flags) + spec_encode_value(p.value)
}

/// The encoding of a property list: the properties' encodings in order.
pub open spec fn spec_encode_props(props: Seq<PodProperty>) -> Seq<u8>
    decreases props.len(),
{
    if props.len() == 0 {
        Seq::empty()
    } else {
        spec_encode_prop(props[0]) + spec_encode_props(props.skip(1))
    }
}

/// The encoding of a whole parameter object: a size-prefixed object cell whose
/// body is the object type, the object id and the property list.
pub open spec fn spec_encode_object(
    object_type: u32,
    object_id: u32,
    props: Seq<PodProperty>,
) -> Seq<u8> {
    u32_le((8 + spec_encode_props(props).len()) as u32) + u32_le(CELL_TYPE_OBJECT) + u32_le(
        object_type,
    ) + u32_le(object_id) + spec_encode_props(props)
}

/// The encoding of every value cell takes its stated length.
pub broadcast proof fn lemma_value_enc_len(v: PodValue)
    ensures
        #[trigger] spec_encode_value(v).len() == value_enc_len(v),
{
}

/// A property encoding takes 8 bytes of header plus its value cell.
pub broadcast proof fn lemma_prop_enc_len(p: PodProperty)
    ensures
        #[trigger] spec_encode_prop(p).len() == 8 + value_enc_len(p.value),
        16 <= spec_encode_prop(p).len() <= 56,
{
    lemma_value_enc_len(p.value);
}

/// A property list encoding takes at most 56 bytes per property, and is empty
/// exactly for the empty list.
pub proof fn lemma_props_enc_len(props: Seq<PodProperty>)
    ensures
        16 * props.len() <= spec_encode_props(props).len() <= 56 * props.len(),
    decreases props.len(),
{
    if props.len() > 0 {
        lemma_prop_enc_len(props[0]);
        lemma_props_enc_len(props.skip(1));
    }
}

/// Parses the value cell at the front of `b`: the value and the count of
/// bytes it occupies, padding included. `None` when the front of `b` is no
/// well-formed value cell.
pub open spec fn spec_decode_value(b: Seq<u8>) -> Option<(PodValue, int)> {
    if b.len() < 16 {
        None
    } else {
        let size = read_u32_at(b, 0);
        let ty = read_u32_at(b, 4);
        if ty == CELL_TYPE_ID && size == 4 {
            Some((PodValue::Id(read_u32_at(b, 8)), 16))
        } else if ty == CELL_TYPE_INT && size == 4 {
            Some((PodValue::Int(read_u32_at(b, 8) as i32), 16))
        } else if ty == CELL_TYPE_LONG && size == 8 {
            Some((PodValue::Long(words_to_i64(read_u32_at(b, 8), read_u32_at(b, 12))), 16))
        } else if ty == CELL_TYPE_RECTANGLE && size == 8 {
            Some(
                (
                    PodValue::Rect(
                        Rectangle { width: read_u32_at(b, 8), height: read_u32_at(b, 12) },
                    ),
                    16,
                ),
            )
        } else if ty == CELL_TYPE_FRACTION && size == 8 {
            Some(
                (PodValue::Frac(Fraction { num: read_u32_at(b, 8), denom: read_u32_at(b, 12) }), 16),
            )
        } else if ty == CELL_TYPE_CHOICE && size == 28 && b.len() >= 40 {
            let kind = read_u32_at(b, 8);
            let flags = read_u32_at(b, 12);
            let child_size = read_u32_at(b, 16);
            let child_ty = read_u32_at(b, 20);
            if kind != CHOICE_KIND_RANGE || child_size != 4 {
                None
            } else if child_ty == CELL_TYPE_ID {
                Some(
                    (
                        PodValue::Choice {
                            flags,
                            range: ChoiceRange::Id {
                                default: read_u32_at(b, 24),
                                min: read_u32_at(b, 28),
                                max: read_u32_at(b, 32),
                            },
                        },
                        40,
                    ),
                )
            } else if child_ty == CELL_TYPE_INT {
                Some(
                    (
                        PodValue::Choice {
                            flags,
                            range: ChoiceRange::Int {
                                default: read_u32_at(b, 24) as i32,
                                min: read_u32_at(b, 28) as i32,
                                max: read_u32_at(b, 32) as i32,
                            },
                        },
                        40,
                    ),
                )
            } else {
                None
            }
        } else if ty == CELL_TYPE_CHOICE && size == 40 && b.len() >= 48 {
            let kind = read_u32_at(b, 8);
            let flags = read_u32_at(b, 12);
            let child_size = read_u32_at(b, 16);
            let child_ty = read_u32_at(b, 20);
            if kind != CHOICE_KIND_RANGE || child_size != 8 {
                None
            } else if child_ty == CELL_TYPE_LONG {
                Some(
                    (
                        PodValue::Choice {
                            flags,
                            range: ChoiceRange::Long {
                                default: words_to_i64(read_u32_at(b, 24), read_u32_at(b, 28)),
                                min: words_to_i64(read_u32_at(b, 32), read_u32_at(b, 36)),
                                max: words_to_i64(read_u32_at(b, 40), read_u32_at(b, 44)),
                            },
                        },
                        48,
                    ),
                )
            } else if child_ty == CELL_TYPE_RECTANGLE {
                Some(
                    (
                        PodValue::Choice {
                            flags,
                            range: ChoiceRange::Rect {
                                default: Rectangle {
                                    width: read_u32_at(b, 24),
                                    height: read_u32_at(b, 28),
                                },
                                min: Rectangle {
                                    width: read_u32_at(b, 32),
                                    height: read_u32_at(b, 36),
                                },
                                max: Rectangle {
                                    width: read_u32_at(b, 40),
                                    height: read_u32_at(b, 44),
                                },
                            },
                        },
                        48,
                    ),
                )
            } else if child_ty == CELL_TYPE_FRACTION {
                Some(
                    (
                        PodValue::Choice {
                            flags,
                            range: ChoiceRange::Frac {
                                default: Fraction {
                                    num: read_u32_at(b, 24),
                                    denom: read_u32_at(b, 28),
                                },
                                min: Fraction { num: read_u32_at(b, 32), denom: read_u32_at(b, 36) },
                                max: Fraction { num: read_u32_at(b, 40), denom: read_u32_at(b, 44) },
                            },
                        },
                        48,
                    ),
                )
            } else {
                None
            }
        } else {
            None
        }
    }
}

/// Parses a property list that occupies all of `b`. `None` when `b` is not
/// exactly a sequence of well-formed properties.
pub open spec fn spec_decode_props(b: Seq<u8>) -> Option<Seq<PodProperty>>
    decreases b.len(),
{
    if b.len() == 0 {
        Some(Seq::empty())
    } else if b.len() < 8 {
        None
    } else {
        let key = read_u32_at(b, 0);
        let flags = read_u32_at(b, 4);
        match spec_decode_value(b.skip(8)) {
            None => None,
            Some((value, used)) => if used < 16 || 8 + used > b.len() {
                None
            } else {
                match spec_decode_props(b.skip(8 + used)) {
                    None => None,
                    Some(rest) => Some(
                        seq![PodProperty { key, flags, value }] + rest,
                    ),
                }
            },
        }
    }
}

/// A value cell parses back, from the front of any longer byte sequence, to
/// the value it encodes and to its encoded length.
#[verifier::rlimit(60)]
proof fn lemma_scalar_value_round(v: PodValue, rest: Seq<u8>)
    requires
        !(v is Choice),
    ensures
        spec_decode_value(spec_encode_value(v) + rest) == Some((v, value_enc_len(v))),
{
    broadcast use lemma_u32_le_round, lemma_i32_cast_round, lemma_i64_words_round;

    let b = spec_encode_value(v) + rest;
    match v {
        PodValue::Id(x) => {
            assert(read_u32_at(b, 0) == 4);
            assert(read_u32_at(b, 4) == CELL_TYPE_ID);
            assert(read_u32_at(b, 8) == x);
        },
        PodValue::Int(x) => {
            assert(read_u32_at(b, 0) == 4);
            assert(read_u32_at(b, 4) == CELL_TYPE_INT);
            assert(read_u32_at(b, 8) == x as u32);
        },
        PodValue::Long(x) => {
            assert(read_u32_at(b, 0) == 8);
            assert(read_u32_at(b, 4) == CELL_TYPE_LONG);
            assert(read_u32_at(b, 8) == lo_word(x));
            assert(read_u32_at(b, 12) == hi_word(x));
        },
        PodValue::Rect(r) => {
            assert(read_u32_at(b, 0) == 8);
            assert(read_u32_at(b, 4) == CELL_TYPE_RECTANGLE);
            assert(read_u32_at(b, 8) == r.width);
            assert(read_u32_at(b, 12) == r.height);
        },
        PodValue::Frac(f) => {
            assert(read_u32_at(b, 0) == 8);
            assert(read_u32_at(b, 4) == CELL_TYPE_FRACTION);
            assert(read_u32_at(b, 8) == f.num);
            assert(read_u32_at(b, 12) == f.denom);
        },
        PodValue::Choice { .. } => {},
    }
}

/// As `lemma_scalar_value_round`, for choices over a 4-byte scalar.
#[verifier::rlimit(60)]
proof fn lemma_choice4_value_round(v: PodValue, rest: Seq<u8>)
    requires
        v matches PodValue::Choice { range, .. } && (range is Id || range is Int),
    ensures
        spec_decode_value(spec_encode_value(v) + rest) == Some((v, value_enc_len(v))),
{
    broadcast use lemma_u32_le_round, lemma_i32_cast_round;

    let b = spec_encode_value(v) + rest;
    match v {
        PodValue::Choice { flags, range } => match range {
            ChoiceRange::Id { default, min, max } => {
                assert(read_u32_at(b, 0) == 28);
                assert(read_u32_at(b, 4) == CELL_TYPE_CHOICE);
                assert(read_u32_at(b, 8) == CHOICE_KIND_RANGE);
                assert(read_u32_at(b, 12) == flags);
                assert(read_u32_at(b, 16) == 4);
                assert(read_u32_at(b, 20) == CELL_TYPE_ID);
                assert(read_u32_at(b, 24) == default);
                assert(read_u32_at(b, 28) == min);
                assert(read_u32_at(b, 32) == max);
            },
            ChoiceRange::Int { default, min, max } => {
                assert(read_u32_at(b, 0) == 28);
                assert(read_u32_at(b, 4) == CELL_TYPE_CHOICE);
                assert(read_u32_at(b, 8) == CHOICE_KIND_RANGE);
                assert(read_u32_at(b, 12) == flags);
                assert(read_u32_at(b, 16) == 4);
                assert(read_u32_at(b, 20) == CELL_TYPE_INT);
                assert(read_u32_at(b, 24) == default as u32);
                assert(read_u32_at(b, 28) == min as u32);
                assert(read_u32_at(b, 32) == max as u32);
            },
            _ => {},
        },
        _ => {},
    }
}

/// As `lemma_scalar_value_round`, for choices over an 8-byte scalar.
#[verifier::rlimit(60)]
proof fn lemma_choice8_value_round(v: PodValue, rest: Seq<u8>)
    requires
        v matches PodValue::Choice { range, .. } && (range is Long || range is Rect
            || range is Frac),
    ensures
        spec_decode_value(spec_encode_value(v) + rest) == Some((v, value_enc_len(v))),
{
    broadcast use lemma_u32_le_round, lemma_i32_cast_round, lemma_i64_words_round;

    let b = spec_encode_value(v) + rest;
    match v {
        PodValue::Choice { flags, range } => match range {
            ChoiceRange::Long { default, min, max } => {
                assert(read_u32_at(b, 0) == 40);
                assert(read_u32_at(b, 4) == CELL_TYPE_CHOICE);
                assert(read_u32_at(b, 8) == CHOICE_KIND_RANGE);
                assert(read_u32_at(b, 12) == flags);
                assert(read_u32_at(b, 16) == 8);
                assert(read_u32_at(b, 20) == CELL_TYPE_LONG);
                assert(read_u32_at(b, 24) == lo_word(default));
                assert(read_u32_at(b, 28) == hi_word(default));
                assert(read_u32_at(b, 32) == lo_word(min));
                assert(read_u32_at(b, 36) == hi_word(min));
                assert(read_u32_at(b, 40) == lo_word(max));
                assert(read_u32_at(b, 44) == hi_word(max));
            },
            ChoiceRange::Rect { default, min, max } => {
                assert(read_u32_at(b, 0) == 40);
                assert(read_u32_at(b, 4) == CELL_TYPE_CHOICE);
                assert(read_u32_at(b, 8) == CHOICE_KIND_RANGE);
                assert(read_u32_at(b, 12) == flags);
                assert(read_u32_at(b, 16) == 8);
                assert(read_u32_at(b, 20) == CELL_TYPE_RECTANGLE);
                assert(read_u32_at(b, 24) == default.width);
                assert(read_u32_at(b, 28) == default.height);
                assert(read_u32_at(b, 32) == min.width);
                assert(read_u32_at(b, 36) == min.height);
                assert(read_u32_at(b, 40) == max.width);
                assert(read_u32_at(b, 44) == max.height);
            },
            ChoiceRange::Frac { default, min, max } => {
                assert(read_u32_at(b, 0) == 40);
                assert(read_u32_at(b, 4) == CELL_TYPE_CHOICE);
                assert(read_u32_at(b, 8) == CHOICE_KIND_RANGE);
                assert(read_u32_at(b, 12) == flags);
                assert(read_u32_at(b, 16) == 8);
                assert(read_u32_at(b, 20) == CELL_TYPE_FRACTION);
                assert(read_u32_at(b, 24) == default.num);
                assert(read_u32_at(b, 28) == default.denom);
                assert(read_u32_at(b, 32) == min.num);
                assert(read_u32_at(b, 36) == min.denom);
                assert(read_u32_at(b, 40) == max.num);
                assert(read_u32_at(b, 44) == max.denom);
            },
            _ => {},
        },
        _ => {},
    }
}

/// A value cell parses back, from the front of any longer byte sequence, to
/// the value it encodes and to its encoded length.
proof fn lemma_value_round(v: PodValue, rest: Seq<u8>)
    ensures
        spec_decode_value(spec_encode_value(v) + rest) == Some((v, value_enc_len(v))),
{
    match v {
        PodValue::Choice { flags, range } => match range {
            ChoiceRange::Id { .. } => lemma_choice4_value_round(v, rest),
            ChoiceRange::Int { .. } => lemma_choice4_value_round(v, rest),
            ChoiceRange::Long { .. } => lemma_choice8_value_round(v, rest),
            ChoiceRange::Rect { .. } => lemma_choice8_value_round(v, rest),
            ChoiceRange::Frac { .. } => lemma_choice8_value_round(v, rest),
        },
        _ => lemma_scalar_value_round(v, rest),
    }
}

/// A property list encoding parses back to the list it encodes.
#[verifier::rlimit(100)]
proof fn lemma_props_round(props: Seq<PodProperty>)
    ensures
        spec_decode_props(spec_encode_props(props)) == Some(props),
    decreases props.len(),
{
    broadcast use lemma_u32_le_round;

    let b = spec_encode_props(props);
    if props.len() == 0 {
        assert(b =~= Seq::<u8>::empty());
        assert(spec_decode_props(b) == Some(Seq::<PodProperty>::empty()));
        assert(props =~= Seq::<PodProperty>::empty());
    } else {
        let p = props[0];
        let tail_enc = spec_encode_props(props.skip(1));
        let head = u32_le(p.key) + u32_le(p.flags);
        let value_enc = spec_encode_value(p.value);
        lemma_value_enc_len(p.value);
        lemma_props_enc_len(props.skip(1));
        assert(b == (head + value_enc) + tail_enc);
        assert(b =~= head + (value_enc + tail_enc));
        assert(read_u32_at(b, 0) == p.key);
        assert(read_u32_at(b, 4) == p.flags);
        assert(b.skip(8) =~= value_enc + tail_enc);
        lemma_value_round(p.value, tail_enc);
        let used = value_enc_len(p.value);
        assert(spec_decode_value(b.skip(8)) == Some((p.value, used)));
        assert(8 + used <= b.len());
        assert(b.skip(8 + used) =~= tail_enc);
        lemma_props_round(props.skip(1));
        assert(spec_decode_props(b.skip(8 + used)) == Some(props.skip(1)));
        assert(seq![PodProperty { key: p.key, flags: p.flags, value: p.value }] + props.skip(1)
            =~= props);
    }
}

/// A whole parameter object, once encoded, parses back to exactly its type,
/// id and property list.
pub proof fn lemma_object_round(object_type: u32, object_id: u32, props: Seq<PodProperty>)
    requires
        props.len() <= MAX_PROPERTIES,
    ensures
        spec_decode(spec_encode_object(object_type, object_id, props)) == Some(
            (object_type, object_id, props),
        ),
{
    broadcast use lemma_u32_le_round;

    let props_enc = spec_encode_props(props);
    lemma_props_enc_len(props);
    let size = (8 + props_enc.len()) as u32;
    let b = spec_encode_object(object_type, object_id, props);
    assert(read_u32_at(b, 0) == size);
    assert(read_u32_at(b, 4) == CELL_TYPE_OBJECT);
    assert(read_u32_at(b, 8) == object_type);
    assert(read_u32_at(b, 12) == object_id);
    assert(b.len() == 16 + props_enc.len());
    assert(b.skip(16) =~= props_enc);
    lemma_props_round(props);
}

/// Parses a whole parameter object occupying exactly `b`.
pub open spec fn spec_decode(b: Seq<u8>) -> Option<(u32, u32, Seq<PodProperty>)> {
    if b.len() < 16 {
        None
    } else {
        let size = read_u32_at(b, 0);
        let ty = read_u32_at(b, 4);
        if ty != CELL_TYPE_OBJECT || b.len() != 8 + size {
            None
        } else {
            let object_type = read_u32_at(b, 8);
            let object_id = read_u32_at(b, 12);
            match spec_decode_props(b.skip(16)) {
                None => None,
                Some(props) => Some((object_type, object_id, props)),
            }
        }
    }
}


/// Appending one property to a list appends its encoding.
proof fn lemma_encode_props_push(s: Seq<PodProperty>, x: PodProperty)
    ensures
        spec_encode_props(s.push(x)) == spec_encode_props(s) + spec_encode_prop(x),
    decreases s.len(),
{
    if s.len() == 0 {
        assert(s.push(x)[0] == x);
        assert(s.push(x).skip(1) =~= Seq::<PodProperty>::empty());
        assert(spec_encode_props(Seq::<PodProperty>::empty()) == Seq::<u8>::empty());
        assert(spec_encode_props(s.push(x)) == spec_encode_prop(x) + Seq::<u8>::empty());
        assert(spec_encode_prop(x) + Seq::<u8>::empty() =~= Seq::<u8>::empty()
            + spec_encode_prop(x));
    } else {
        assert(s.push(x)[0] == s[0]);
        assert(s.push(x).skip(1) =~= s.skip(1).push(x));
        lemma_encode_props_push(s.skip(1), x);
        assert(spec_encode_prop(s[0]) + (spec_encode_props(s.skip(1)) + spec_encode_prop(x)) =~= (
        spec_encode_prop(s[0]) + spec_encode_props(s.skip(1))) + spec_encode_prop(x));
    }
}

/// Reading a word out of a suffix reads it out of the whole sequence.
pub broadcast proof fn lemma_read_skip(b: Seq<u8>, pos: int, k: int)
    requires
        0 <= pos,
        0 <= k,
        pos + k + 4 <= b.len(),
    ensures
        #[trigger] read_u32_at(b.skip(pos), k) == read_u32_at(b, pos + k),
{
    assert(b.skip(pos)[k] == b[pos + k]);
    assert(b.skip(pos)[k + 1] == b[pos + k + 1]);
    assert(b.skip(pos)[k + 2] == b[pos + k + 2]);
    assert(b.skip(pos)[k + 3] == b[pos + k + 3]);
}

/// Appends the four little-endian bytes of `v`.
fn push_u32_le(out: &mut Vec<u8>, v: u32)
    ensures
        final(out)@ == old(out)@ + u32_le(v),
{
    out.push((v & 0xff) as u8);
    out.push(((v >> 8) & 0xff) as u8);
    out.push(((v >> 16) & 0xff) as u8);
    out.push(((v >> 24) & 0xff) as u8);
    assert(out@ =~= old(out)@ + u32_le(v));
}

/// Appends the encoding of one value cell.
#[verifier::rlimit(60)]
fn encode_value(out: &mut Vec<u8>, v: &PodValue)
    ensures
        final(out)@ == old(out)@ + spec_encode_value(*v),
{
    match v {
        PodValue::Id(x) => {
            push_u32_le(out, 4);
            push_u32_le(out, CELL_TYPE_ID);
            push_u32_le(out, *x);
            push_u32_le(out, 0);
        },
        PodValue::Int(x) => {
            push_u32_le(out, 4);
            push_u32_le(out, CELL_TYPE_INT);
            push_u32_le(out, *x as u32);
            push_u32_le(out, 0);
        },
        PodValue::Long(x) => {
            push_u32_le(out, 8);
            push_u32_le(out, CELL_TYPE_LONG);
            push_u32_le(out, ((*x as u64) & 0xFFFF_FFFF) as u32);
            push_u32_le(out, ((*x as u64) >> 32) as u32);
        },
        PodValue::Rect(r) => {
            push_u32_le(out, 8);
            push_u32_le(out, CELL_TYPE_RECTANGLE);
            push_u32_le(out, r.width);
            push_u32_le(out, r.height);
        },
        PodValue::Frac(f) => {
            push_u32_le(out, 8);
            push_u32_le(out, CELL_TYPE_FRACTION);
            push_u32_le(out, f.num);
            push_u32_le(out, f.denom);
        },
        PodValue::Choice { flags, range } => {
            match range {
                ChoiceRange::Id { default, min, max } => {
                    push_u32_le(out, 28);
                    push_u32_le(out, CELL_TYPE_CHOICE);
                    push_u32_le(out, CHOICE_KIND_RANGE);
                    push_u32_le(out, *flags);
                    push_u32_le(out, 4);
                    push_u32_le(out, CELL_TYPE_ID);
                    push_u32_le(out, *default);
                    push_u32_le(out, *min);
                    push_u32_le(out, *max);
                    push_u32_le(out, 0);
                },
                ChoiceRange::Int { default, min, max } => {
                    push_u32_le(out, 28);
                    push_u32_le(out, CELL_TYPE_CHOICE);
                    push_u32_le(out, CHOICE_KIND_RANGE);
                    push_u32_le(out, *flags);
                    push_u32_le(out, 4);
                    push_u32_le(out, CELL_TYPE_INT);
                    push_u32_le(out, *default as u32);
                    push_u32_le(out, *min as u32);
                    push_u32_le(out, *max as u32);
                    push_u32_le(out, 0);
                },
                ChoiceRange::Long { default, min, max } => {
                    push_u32_le(out, 40);
                    push_u32_le(out, CELL_TYPE_CHOICE);
                    push_u32_le(out, CHOICE_KIND_RANGE);
                    push_u32_le(out, *flags);
                    push_u32_le(out, 8);
                    push_u32_le(out, CELL_TYPE_LONG);
                    push_u32_le(out, ((*default as u64) & 0xFFFF_FFFF) as u32);
                    push_u32_le(out, ((*default as u64) >> 32) as u32);
                    push_u32_le(out, ((*min as u64) & 0xFFFF_FFFF) as u32);
                    push_u32_le(out, ((*min as u64) >> 32) as u32);
                    push_u32_le(out, ((*max as u64) & 0xFFFF_FFFF) as u32);
                    push_u32_le(out, ((*max as u64) >> 32) as u32);
                },
                ChoiceRange::Rect { default, min, max } => {
                    push_u32_le(out, 40);
                    push_u32_le(out, CELL_TYPE_CHOICE);
                    push_u32_le(out, CHOICE_KIND_RANGE);
                    push_u32_le(out, *flags);
                    push_u32_le(out, 8);
                    push_u32_le(out, CELL_TYPE_RECTANGLE);
                    push_u32_le(out, default.width);
                    push_u32_le(out, default.height);
                    push_u32_le(out, min.width);
                    push_u32_le(out, min.height);
                    push_u32_le(out, max.width);
                    push_u32_le(out, max.height);
                },
                ChoiceRange::Frac { default, min, max } => {
                    push_u32_le(out, 40);
                    push_u32_le(out, CELL_TYPE_CHOICE);
                    push_u32_le(out, CHOICE_KIND_RANGE);
                    push_u32_le(out, *flags);
                    push_u32_le(out, 8);
                    push_u32_le(out, CELL_TYPE_FRACTION);
                    push_u32_le(out, default.num);
                    push_u32_le(out, default.denom);
                    push_u32_le(out, min.num);
                    push_u32_le(out, min.denom);
                    push_u32_le(out, max.num);
                    push_u32_le(out, max.denom);
                },
            }
        },
    }
    assert(out@ =~= old(out)@ + spec_encode_value(*v));
}

/// Encodes a parameter object to its flat byte form. Encoding never fails for
/// objects within the property-count bound.
pub fn encode(obj: &ParameterObject) -> (r: Vec<u8>)
    requires
        obj.properties@.len() <= MAX_PROPERTIES,
    ensures
        r@ == spec_encode_object(obj.object_type, obj.object_id, obj.properties@),
{
    let ghost props = obj.properties@;
    let mut body: Vec<u8> = Vec::new();
    let mut i: usize = 0;
    assert(body@ =~= spec_encode_props(props.take(0)));
    while i < obj.properties.len()
        invariant
            i <= props.len(),
            props == obj.properties@,
            props.len() <= MAX_PROPERTIES,
            body@ == spec_encode_props(props.take(i as int)),
        decreases props.len() - i,
    {
        let p = obj.properties[i];
        push_u32_le(&mut body, p.key);
        push_u32_le(&mut body, p.flags);
        encode_value(&mut body, &p.value);
        proof {
            assert(props.take(i + 1) =~= props.take(i as int).push(props[i as int]));
            lemma_encode_props_push(props.take(i as int), props[i as int]);
            assert((u32_le(p.key) + u32_le(p.flags)) + spec_encode_value(p.value) =~= u32_le(p.key)
                + u32_le(p.flags) + spec_encode_value(p.value));
        }
        i = i + 1;
    }
    assert(props.take(props.len() as int) =~= props);
    proof {
        lemma_props_enc_len(props);
    }
    let size = (body.len() + 8) as u32;
    let mut out: Vec<u8> = Vec::new();
    push_u32_le(&mut out, size);
    push_u32_le(&mut out, CELL_TYPE_OBJECT);
    push_u32_le(&mut out, obj.object_type);
    push_u32_le(&mut out, obj.object_id);
    let ghost head = out@;
    let mut j: usize = 0;
    assert(out@ =~= head + body@.take(0));
    while j < body.len()
        invariant
            j <= body@.len(),
            out@ == head + body@.take(j as int),
        decreases body@.len() - j,
    {
        let byte = body[j];
        out.push(byte);
        assert(out@ =~= head + body@.take(j + 1));
        j = j + 1;
    }
    assert(body@.take(body@.len() as int) =~= body@);
    assert(out@ =~= spec_encode_object(obj.object_type, obj.object_id, props));
    out
}

/// Reads the little-endian word at `off`.
fn read_u32(bytes: &Vec<u8>, off: usize) -> (r: u32)
    requires
        off + 4 <= bytes@.len(),
    ensures
        r == read_u32_at(bytes@, off as int),
{
    // binds the length as a machine word so the offsets below stay in usize
    let n = bytes.len();
    let b0 = bytes[off] as u32;
    let b1 = bytes[off + 1] as u32;
    let b2 = bytes[off + 2] as u32;
    let b3 = bytes[off + 3] as u32;
    b0 | (b1 << 8) | (b2 << 16) | (b3 << 24)
}


/// Parses the value cell at `pos`, returning the value and the count of bytes
/// it occupies.
#[verifier::rlimit(100)]
fn decode_value(bytes: &Vec<u8>, pos: usize) -> (r: Result<(PodValue, usize), CodecError>)
    requires
        pos <= bytes@.len(),
    ensures
        match spec_decode_value(bytes@.skip(pos as int)) {
            Some(p) => r == Ok::<(PodValue, usize), CodecError>((p.0, p.1 as usize)),
            None => r == Err::<(PodValue, usize), CodecError>(
                CodecError::MalformedParameterObject,
            ),
        },
{
    broadcast use lemma_read_skip;

    let n = bytes.len();
    let ghost tailseq = bytes@.skip(pos as int);
    let rem = n - pos;
    if rem < 16 {
        return Err(CodecError::MalformedParameterObject);
    }
    let size = read_u32(bytes, pos);
    let ty = read_u32(bytes, pos + 4);
    if ty == CELL_TYPE_ID && size == 4 {
        Ok((PodValue::Id(read_u32(bytes, pos + 8)), 16))
    } else if ty == CELL_TYPE_INT && size == 4 {
        Ok((PodValue::Int(read_u32(bytes, pos + 8) as i32), 16))
    } else if ty == CELL_TYPE_LONG && size == 8 {
        let lo = read_u32(bytes, pos + 8);
        let hi = read_u32(bytes, pos + 12);
        Ok((PodValue::Long(((lo as u64) | ((hi as u64) << 32)) as i64), 16))
    } else if ty == CELL_TYPE_RECTANGLE && size == 8 {
        Ok(
            (
                PodValue::Rect(
                    Rectangle {
                        width: read_u32(bytes, pos + 8),
                        height: read_u32(bytes, pos + 12),
                    },
                ),
                16,
            ),
        )
    } else if ty == CELL_TYPE_FRACTION && size == 8 {
        Ok(
            (
                PodValue::Frac(
                    Fraction { num: read_u32(bytes, pos + 8), denom: read_u32(bytes, pos + 12) },
                ),
                16,
            ),
        )
    } else if ty == CELL_TYPE_CHOICE && size == 28 && rem >= 40 {
        let kind = read_u32(bytes, pos + 8);
        let flags = read_u32(bytes, pos + 12);
        let child_size = read_u32(bytes, pos + 16);
        let child_ty = read_u32(bytes, pos + 20);
        if kind != CHOICE_KIND_RANGE || child_size != 4 {
            Err(CodecError::MalformedParameterObject)
        } else if child_ty == CELL_TYPE_ID {
            Ok(
                (
                    PodValue::Choice {
                        flags,
                        range: ChoiceRange::Id {
                            default: read_u32(bytes, pos + 24),
                            min: read_u32(bytes, pos + 28),
                            max: read_u32(bytes, pos + 32),
                        },
                    },
                    40,
                ),
            )
        } else if child_ty == CELL_TYPE_INT {
            Ok(
                (
                    PodValue::Choice {
                        flags,
                        range: ChoiceRange::Int {
                            default: read_u32(bytes, pos + 24) as i32,
                            min: read_u32(bytes, pos + 28) as i32,
                            max: read_u32(bytes, pos + 32) as i32,
                        },
                    },
                    40,
                ),
            )
        } else {
            Err(CodecError::MalformedParameterObject)
        }
    } else if ty == CELL_TYPE_CHOICE && size == 40 && rem >= 48 {
        let kind = read_u32(bytes, pos + 8);
        let flags = read_u32(bytes, pos + 12);
        let child_size = read_u32(bytes, pos + 16);
        let child_ty = read_u32(bytes, pos + 20);
        if kind != CHOICE_KIND_RANGE || child_size != 8 {
            Err(CodecError::MalformedParameterObject)
        } else if child_ty == CELL_TYPE_LONG {
            let dlo = read_u32(bytes, pos + 24);
            let dhi = read_u32(bytes, pos + 28);
            let nlo = read_u32(bytes, pos + 32);
            let nhi = read_u32(bytes, pos + 36);
            let xlo = read_u32(bytes, pos + 40);
            let xhi = read_u32(bytes, pos + 44);
            Ok(
                (
                    PodValue::Choice {
                        flags,
                        range: ChoiceRange::Long {
                            default: ((dlo as u64) | ((dhi as u64) << 32)) as i64,
                            min: ((nlo as u64) | ((nhi as u64) << 32)) as i64,
                            max: ((xlo as u64) | ((xhi as u64) << 32)) as i64,
                        },
                    },
                    48,
                ),
            )
        } else if child_ty == CELL_TYPE_RECTANGLE {
            Ok(
                (
                    PodValue::Choice {
                        flags,
                        range: ChoiceRange::Rect {
                            default: Rectangle {
                                width: read_u32(bytes, pos + 24),
                                height: read_u32(bytes, pos + 28),
                            },
                            min: Rectangle {
                                width: read_u32(bytes, pos + 32),
                                height: read_u32(bytes, pos + 36),
                            },
                            max: Rectangle {
                                width: read_u32(bytes, pos + 40),
                                height: read_u32(bytes, pos + 44),
                            },
                        },
                    },
                    48,
                ),
            )
        } else if child_ty == CELL_TYPE_FRACTION {
            Ok(
                (
                    PodValue::Choice {
                        flags,
                        range: ChoiceRange::Frac {
                            default: Fraction {
                                num: read_u32(bytes, pos + 24),
                                denom: read_u32(bytes, pos + 28),
                            },
                            min: Fraction {
                                num: read_u32(bytes, pos + 32),
                                denom: read_u32(bytes, pos + 36),
                            },
                            max: Fraction {
                                num: read_u32(bytes, pos + 40),
                                denom: read_u32(bytes, pos + 44),
                            },
                        },
                    },
                    48,
                ),
            )
        } else {
            Err(CodecError::MalformedParameterObject)
        }
    } else {
        Err(CodecError::MalformedParameterObject)
    }
}

/// One step of property-list parsing, read off a suffix of the whole byte
/// sequence: what `spec_decode_props` of the suffix at `pos` is, in terms of
/// words read from the whole sequence and of the rest of the list.
proof fn lemma_props_step(b: Seq<u8>, pos: int)
    requires
        0 <= pos,
        pos + 8 <= b.len(),
    ensures
        spec_decode_props(b.skip(pos)) == ({
            let key = read_u32_at(b, pos);
            let flags = read_u32_at(b, pos + 4);
            match spec_decode_value(b.skip(pos + 8)) {
                None => None::<Seq<PodProperty>>,
                Some((value, used)) => if used < 16 || pos + 8 + used > b.len() {
                    None::<Seq<PodProperty>>
                } else {
                    match spec_decode_props(b.skip(pos + 8 + used)) {
                        None => None::<Seq<PodProperty>>,
                        Some(rest) => Some(seq![PodProperty { key, flags, value }] + rest),
                    }
                },
            }
        }),
{
    let at = b.skip(pos);
    assert(at.len() == b.len() - pos);
    lemma_read_skip(b, pos, 0);
    lemma_read_skip(b, pos, 4);
    assert(at.skip(8) =~= b.skip(pos + 8));
    match spec_decode_value(b.skip(pos + 8)) {
        None => {},
        Some((value, used)) => {
            if 16 <= used && pos + 8 + used <= b.len() {
                assert(at.skip(8 + used) =~= b.skip(pos + 8 + used));
            }
        },
    }
}

/// A nonempty tail shorter than a property header parses to nothing.
proof fn lemma_props_short(b: Seq<u8>, pos: int)
    requires
        0 <= pos,
        pos < b.len(),
        b.len() - pos < 8,
    ensures
        spec_decode_props(b.skip(pos)) is None,
{
    assert(b.skip(pos).len() == b.len() - pos);
}

/// Appending one parsed property to the accumulator absorbs the head of the
/// remaining list.
proof fn lemma_acc_push(acc: Seq<PodProperty>, p: PodProperty, rest: Seq<PodProperty>)
    ensures
        acc + (seq![p] + rest) == acc.push(p) + rest,
{
    assert(acc + (seq![p] + rest) =~= acc.push(p) + rest);
}

/// Decodes a flat byte form back into a parameter object. Fails with
/// `MalformedParameterObject` exactly when the bytes are not a complete
/// well-formed encoding; never reads out of bounds and never panics.
#[verifier::rlimit(100)]
pub fn decode(bytes: &Vec<u8>) -> (r: Result<ParameterObject, CodecError>)
    ensures
        match spec_decode(bytes@) {
            Some(t) => r matches Ok(obj) && obj.object_type == t.0 && obj.object_id == t.1
                && obj.properties@ == t.2,
            None => r == Err::<ParameterObject, CodecError>(CodecError::MalformedParameterObject),
        },
{
    let n = bytes.len();
    if n < 16 {
        return Err(CodecError::MalformedParameterObject);
    }
    let size = read_u32(bytes, 0);
    let ty = read_u32(bytes, 4);
    if ty != CELL_TYPE_OBJECT {
        return Err(CodecError::MalformedParameterObject);
    }
    if n - 8 != size as usize {
        return Err(CodecError::MalformedParameterObject);
    }
    let object_type = read_u32(bytes, 8);
    let object_id = read_u32(bytes, 12);
    let ghost whole = spec_decode_props(bytes@.skip(16));
    let mut properties: Vec<PodProperty> = Vec::new();
    let mut pos: usize = 16;
    assert(properties@ + spec_decode_props(bytes@.skip(16))->Some_0 =~= spec_decode_props(
        bytes@.skip(16),
    )->Some_0);
    while pos < n
        invariant
            16 <= pos <= n,
            n == bytes@.len(),
            whole == spec_decode_props(bytes@.skip(16)),
            whole == match spec_decode_props(bytes@.skip(pos as int)) {
                Some(rest) => Some(properties@ + rest),
                None => None::<Seq<PodProperty>>,
            },
        decreases n - pos,
    {
        let rem = n - pos;
        if rem < 8 {
            proof {
                lemma_props_short(bytes@, pos as int);
            }
            return Err(CodecError::MalformedParameterObject);
        }
        proof {
            lemma_props_step(bytes@, pos as int);
        }
        let key = read_u32(bytes, pos);
        let flags = read_u32(bytes, pos + 4);
        match decode_value(bytes, pos + 8) {
            Err(_) => {
                return Err(CodecError::MalformedParameterObject);
            },
            Ok((value, used)) => {
                let prop = PodProperty { key, flags, value };
                proof {
                    if spec_decode_props(bytes@.skip(pos + 8 + used as int)) is Some {
                        let rest2 = spec_decode_props(bytes@.skip(pos + 8 + used as int))->Some_0;
                        lemma_acc_push(properties@, prop, rest2);
                    }
                }
                properties.push(prop);
                pos = pos + 8 + used;
            },
        }
    }
    assert(bytes@.skip(pos as int) =~= Seq::<u8>::empty());
    assert(spec_decode_props(bytes@.skip(pos as int)) == Some(Seq::<PodProperty>::empty()));
    assert(properties@ + Seq::<PodProperty>::empty() =~= properties@);
    Ok(ParameterObject { object_type, object_id, properties })
}

} // verus!
