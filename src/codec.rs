//! Typed value codec: decodes the canonical binary encoding of a column
//! value, chosen by the column's type tag, into a structured value.

use vstd::prelude::*;
use crate::text::{decimal, digit_str, str_eq, utf8_lossy, utf8_lossy_string};
use vstd::slice::slice_to_vec;
use crate::table::{FieldView, TableMetadata};

verus! {

/// Longest sequence that the encoding admits.
pub const MAX_SEQUENCE_LENGTH: u64 = 2147483647;

/// Scalar types of the type vocabulary.
#[derive(Clone, Copy, Debug, PartialEq, Eq, Structural)]
pub enum ScalarKind {
    U8,
    U16,
    U32,
    U64,
    U128,
    U256,
    Bool,
    Address,
}

/// Shape of a column type: a scalar, a vector of scalars, or a vector of
/// vectors of scalars.
#[derive(Clone, Copy, Debug, PartialEq, Eq, Structural)]
pub enum MoveType {
    Scalar(ScalarKind),
    Vector(ScalarKind),
    Nested(ScalarKind),
}

/// One decoded scalar. 256-bit integers and addresses keep their 32
/// little-endian bytes; see `u256_decimal` and `address_hex` for text.
#[derive(Clone, Debug, PartialEq, Eq)]
pub enum MoveScalar {
    U8(u8),
    U16(u16),
    U32(u32),
    U64(u64),
    U128(u128),
    U256([u8; 32]),
    Bool(bool),
    Address([u8; 32]),
}

/// One decoded column value.
#[derive(Clone, Debug, PartialEq, Eq)]
pub enum ParsedMoveValue {
    Scalar(MoveScalar),
    Vector(Vec<MoveScalar>),
    Nested(Vec<Vec<MoveScalar>>),
}

/// Why bytes could not be decoded.
#[derive(Clone, Copy, Debug, PartialEq, Eq, Structural)]
pub enum DecodeError {
    /// The bytes are no encoding of a value of the column's type.
    Malformed,
    /// The number of byte arrays differs from the number of fields.
    FieldCountMismatch,
}

pub ghost enum ScalarView {
    U8(u8),
    U16(u16),
    U32(u32),
    U64(u64),
    U128(u128),
    U256(Seq<u8>),
    Bool(bool),
    Address(Seq<u8>),
}

pub ghost enum ValueView {
    Scalar(ScalarView),
    Vector(Seq<ScalarView>),
    Nested(Seq<Seq<ScalarView>>),
}

impl View for MoveScalar {
    type V = ScalarView;

    open spec fn view(&self) -> ScalarView {
        match self {
            MoveScalar::U8(x) => ScalarView::U8(*x),
            MoveScalar::U16(x) => ScalarView::U16(*x),
            MoveScalar::U32(x) => ScalarView::U32(*x),
            MoveScalar::U64(x) => ScalarView::U64(*x),
            MoveScalar::U128(x) => ScalarView::U128(*x),
            MoveScalar::U256(w) => ScalarView::U256(w@),
            MoveScalar::Bool(b) => ScalarView::Bool(*b),
            MoveScalar::Address(w) => ScalarView::Address(w@),
        }
    }
}

pub open spec fn scalars_view(v: Seq<MoveScalar>) -> Seq<ScalarView> {
    v.map_values(|x: MoveScalar| x@)
}

impl View for ParsedMoveValue {
    type V = ValueView;

    open spec fn view(&self) -> ValueView {
        match self {
            ParsedMoveValue::Scalar(s) => ValueView::Scalar(s@),
            ParsedMoveValue::Vector(v) => ValueView::Vector(scalars_view(v@)),
            ParsedMoveValue::Nested(v) => ValueView::Nested(
                v@.map_values(|w: Vec<MoveScalar>| scalars_view(w@)),
            ),
        }
    }
}

pub open spec fn opt_view(r: Option<ParsedMoveValue>) -> Option<ValueView> {
    match r {
        Some(v) => Some(v@),
        None => None,
    }
}

/// `n` as `w` little-endian bytes (the low `w` bytes of `n`).
pub open spec fn le_bytes(n: nat, w: nat) -> Seq<u8>
    decreases w,
{
    if w == 0 {
        Seq::empty()
    } else {
        seq![(n % 256) as u8] + le_bytes(n / 256, (w - 1) as nat)
    }
}

/// Canonical unsigned LEB128 encoding of `n`.
pub open spec fn uleb128(n: nat) -> Seq<u8>
    decreases n,
{
    if n < 128 {
        seq![n as u8]
    } else {
        seq![(n % 128 + 128) as u8] + uleb128(n / 128)
    }
}

pub open spec fn kind_of(s: ScalarView) -> ScalarKind {
    match s {
        ScalarView::U8(_) => ScalarKind::U8,
        ScalarView::U16(_) => ScalarKind::U16,
        ScalarView::U32(_) => ScalarKind::U32,
        ScalarView::U64(_) => ScalarKind::U64,
        ScalarView::U128(_) => ScalarKind::U128,
        ScalarView::U256(_) => ScalarKind::U256,
        ScalarView::Bool(_) => ScalarKind::Bool,
        ScalarView::Address(_) => ScalarKind::Address,
    }
}

/// A scalar of kind `k`, its 32-byte words of length 32.
pub open spec fn scalar_typed(k: ScalarKind, s: ScalarView) -> bool {
    &&& kind_of(s) == k
    &&& (s matches ScalarView::U256(w) ==> w.len() == 32)
    &&& (s matches ScalarView::Address(w) ==> w.len() == 32)
}

pub open spec fn scalars_typed(k: ScalarKind, v: Seq<ScalarView>) -> bool {
    &&& v.len() <= MAX_SEQUENCE_LENGTH
    &&& forall|i: int| 0 <= i < v.len() ==> scalar_typed(k, #[trigger] v[i])
}

/// `v` is a value of type `ty` whose sequences the encoding can hold.
pub open spec fn typed(ty: MoveType, v: ValueView) -> bool {
    match (ty, v) {
        (MoveType::Scalar(k), ValueView::Scalar(s)) => scalar_typed(k, s),
        (MoveType::Vector(k), ValueView::Vector(xs)) => scalars_typed(k, xs),
        (MoveType::Nested(k), ValueView::Nested(xss)) => {
            &&& xss.len() <= MAX_SEQUENCE_LENGTH
            &&& forall|i: int| 0 <= i < xss.len() ==> scalars_typed(k, #[trigger] xss[i])
        },
        _ => false,
    }
}

pub open spec fn encode_scalar(s: ScalarView) -> Seq<u8> {
    match s {
        ScalarView::U8(x) => le_bytes(x as nat, 1),
        ScalarView::U16(x) => le_bytes(x as nat, 2),
        ScalarView::U32(x) => le_bytes(x as nat, 4),
        ScalarView::U64(x) => le_bytes(x as nat, 8),
        ScalarView::U128(x) => le_bytes(x as nat, 16),
        ScalarView::U256(w) => w,
        ScalarView::Bool(b) => if b { seq![1u8] } else { seq![0u8] },
        ScalarView::Address(w) => w,
    }
}

/// Length prefix, then each element's encoding.
pub open spec fn encode_scalars(v: Seq<ScalarView>) -> Seq<u8> {
    uleb128(v.len()) + v.map_values(|s: ScalarView| encode_scalar(s)).flatten()
}

/// The canonical binary encoding of a value.
pub open spec fn encode(v: ValueView) -> Seq<u8> {
    match v {
        ValueView::Scalar(s) => encode_scalar(s),
        ValueView::Vector(xs) => encode_scalars(xs),
        ValueView::Nested(xss) => uleb128(xss.len())
            + xss.map_values(|xs: Seq<ScalarView>| encode_scalars(xs)).flatten(),
    }
}

/// `o` is what decoding `bytes` as type `ty` gives: a value of that type
/// whose encoding is `bytes`, and nothing when there is none.
pub open spec fn decoded_as(ty: MoveType, bytes: Seq<u8>, o: Option<ValueView>) -> bool {
    &&& (o matches Some(v) ==> typed(ty, v) && encode(v) == bytes)
    &&& forall|v: ValueView| typed(ty, v) && #[trigger] encode(v) == bytes ==> o == Some(v)
}

/// The type that a type tag names; an unrecognized tag is read as a
/// vector of bytes.
pub open spec fn tag_type(t: Seq<char>) -> MoveType {
    if t == "u8"@ {
        MoveType::Scalar(ScalarKind::U8)
    } else if t == "u16"@ {
        MoveType::Scalar(ScalarKind::U16)
    } else if t == "u32"@ {
        MoveType::Scalar(ScalarKind::U32)
    } else if t == "u64"@ {
        MoveType::Scalar(ScalarKind::U64)
    } else if t == "u128"@ {
        MoveType::Scalar(ScalarKind::U128)
    } else if t == "u256"@ {
        MoveType::Scalar(ScalarKind::U256)
    } else if t == "bool"@ {
        MoveType::Scalar(ScalarKind::Bool)
    } else if t == "address"@ {
        MoveType::Scalar(ScalarKind::Address)
    } else if t == "vector<u8>"@ {
        MoveType::Vector(ScalarKind::U8)
    } else if t == "vector<u16>"@ {
        MoveType::Vector(ScalarKind::U16)
    } else if t == "vector<u32>"@ {
        MoveType::Vector(ScalarKind::U32)
    } else if t == "vector<u64>"@ {
        MoveType::Vector(ScalarKind::U64)
    } else if t == "vector<u128>"@ {
        MoveType::Vector(ScalarKind::U128)
    } else if t == "vector<u256>"@ {
        MoveType::Vector(ScalarKind::U256)
    } else if t == "vector<address>"@ {
        MoveType::Vector(ScalarKind::Address)
    } else if t == "vector<bool>"@ {
        MoveType::Vector(ScalarKind::Bool)
    } else if t == "vector<vector<u8>>"@ {
        MoveType::Nested(ScalarKind::U8)
    } else if t == "vector<vector<u16>>"@ {
        MoveType::Nested(ScalarKind::U16)
    } else if t == "vector<vector<u32>>"@ {
        MoveType::Nested(ScalarKind::U32)
    } else if t == "vector<vector<u64>>"@ {
        MoveType::Nested(ScalarKind::U64)
    } else if t == "vector<vector<u128>>"@ {
        MoveType::Nested(ScalarKind::U128)
    } else if t == "vector<vector<u256>>"@ {
        MoveType::Nested(ScalarKind::U256)
    } else if t == "vector<vector<address>>"@ {
        MoveType::Nested(ScalarKind::Address)
    } else if t == "vector<vector<bool>>"@ {
        MoveType::Nested(ScalarKind::Bool)
    } else {
        MoveType::Vector(ScalarKind::U8)
    }
}

/// The type vocabulary.
pub open spec fn type_tags() -> Seq<Seq<char>> {
    seq![
        "u8"@,
        "u16"@,
        "u32"@,
        "u64"@,
        "u128"@,
        "u256"@,
        "bool"@,
        "address"@,
        "vector<u8>"@,
        "vector<u16>"@,
        "vector<u32>"@,
        "vector<u64>"@,
        "vector<u128>"@,
        "vector<u256>"@,
        "vector<address>"@,
        "vector<bool>"@,
        "vector<vector<u8>>"@,
        "vector<vector<u16>>"@,
        "vector<vector<u32>>"@,
        "vector<vector<u64>>"@,
        "vector<vector<u128>>"@,
        "vector<vector<u256>>"@,
        "vector<vector<address>>"@,
        "vector<vector<bool>>"@,
    ]
}

/// Whether the tag is one of the type vocabulary.
pub open spec fn known_tag(t: Seq<char>) -> bool {
    type_tags().contains(t)
}

/// The type named by a type tag.
pub fn type_of_tag(t: &str) -> (r: MoveType)
    ensures
        r == tag_type(t@),
{
    if str_eq(t, "u8") {
        MoveType::Scalar(ScalarKind::U8)
    } else if str_eq(t, "u16") {
        MoveType::Scalar(ScalarKind::U16)
    } else if str_eq(t, "u32") {
        MoveType::Scalar(ScalarKind::U32)
    } else if str_eq(t, "u64") {
        MoveType::Scalar(ScalarKind::U64)
    } else if str_eq(t, "u128") {
        MoveType::Scalar(ScalarKind::U128)
    } else if str_eq(t, "u256") {
        MoveType::Scalar(ScalarKind::U256)
    } else if str_eq(t, "bool") {
        MoveType::Scalar(ScalarKind::Bool)
    } else if str_eq(t, "address") {
        MoveType::Scalar(ScalarKind::Address)
    } else if str_eq(t, "vector<u8>") {
        MoveType::Vector(ScalarKind::U8)
    } else if str_eq(t, "vector<u16>") {
        MoveType::Vector(ScalarKind::U16)
    } else if str_eq(t, "vector<u32>") {
        MoveType::Vector(ScalarKind::U32)
    } else if str_eq(t, "vector<u64>") {
        MoveType::Vector(ScalarKind::U64)
    } else if str_eq(t, "vector<u128>") {
        MoveType::Vector(ScalarKind::U128)
    } else if str_eq(t, "vector<u256>") {
        MoveType::Vector(ScalarKind::U256)
    } else if str_eq(t, "vector<address>") {
        MoveType::Vector(ScalarKind::Address)
    } else if str_eq(t, "vector<bool>") {
        MoveType::Vector(ScalarKind::Bool)
    } else if str_eq(t, "vector<vector<u8>>") {
        MoveType::Nested(ScalarKind::U8)
    } else if str_eq(t, "vector<vector<u16>>") {
        MoveType::Nested(ScalarKind::U16)
    } else if str_eq(t, "vector<vector<u32>>") {
        MoveType::Nested(ScalarKind::U32)
    } else if str_eq(t, "vector<vector<u64>>") {
        MoveType::Nested(ScalarKind::U64)
    } else if str_eq(t, "vector<vector<u128>>") {
        MoveType::Nested(ScalarKind::U128)
    } else if str_eq(t, "vector<vector<u256>>") {
        MoveType::Nested(ScalarKind::U256)
    } else if str_eq(t, "vector<vector<address>>") {
        MoveType::Nested(ScalarKind::Address)
    } else if str_eq(t, "vector<vector<bool>>") {
        MoveType::Nested(ScalarKind::Bool)
    } else {
        MoveType::Vector(ScalarKind::U8)
    }
}

/// Relies on `bcs::from_bytes::<u8>`: it accepts exactly the
/// canonical encoding of a value of that type, consuming every byte.
#[verifier::external_body]
fn bcs_u8(b: &[u8]) -> (r: Option<ParsedMoveValue>)
    ensures
        decoded_as(MoveType::Scalar(ScalarKind::U8), b@, opt_view(r)),
{
    bcs::from_bytes::<u8>(b).ok().map(|v| ParsedMoveValue::Scalar(MoveScalar::U8(v)))
}

/// Relies on `bcs::from_bytes::<u16>`: it accepts exactly the
/// canonical encoding of a value of that type, consuming every byte.
#[verifier::external_body]
fn bcs_u16(b: &[u8]) -> (r: Option<ParsedMoveValue>)
    ensures
        decoded_as(MoveType::Scalar(ScalarKind::U16), b@, opt_view(r)),
{
    bcs::from_bytes::<u16>(b).ok().map(|v| ParsedMoveValue::Scalar(MoveScalar::U16(v)))
}

/// Relies on `bcs::from_bytes::<u32>`: it accepts exactly the
/// canonical encoding of a value of that type, consuming every byte.
#[verifier::external_body]
fn bcs_u32(b: &[u8]) -> (r: Option<ParsedMoveValue>)
    ensures
        decoded_as(MoveType::Scalar(ScalarKind::U32), b@, opt_view(r)),
{
    bcs::from_bytes::<u32>(b).ok().map(|v| ParsedMoveValue::Scalar(MoveScalar::U32(v)))
}

/// Relies on `bcs::from_bytes::<u64>`: it accepts exactly the
/// canonical encoding of a value of that type, consuming every byte.
#[verifier::external_body]
fn bcs_u64(b: &[u8]) -> (r: Option<ParsedMoveValue>)
    ensures
        decoded_as(MoveType::Scalar(ScalarKind::U64), b@, opt_view(r)),
{
    bcs::from_bytes::<u64>(b).ok().map(|v| ParsedMoveValue::Scalar(MoveScalar::U64(v)))
}

/// Relies on `bcs::from_bytes::<u128>`: it accepts exactly the
/// canonical encoding of a value of that type, consuming every byte.
#[verifier::external_body]
fn bcs_u128(b: &[u8]) -> (r: Option<ParsedMoveValue>)
    ensures
        decoded_as(MoveType::Scalar(ScalarKind::U128), b@, opt_view(r)),
{
    bcs::from_bytes::<u128>(b).ok().map(|v| ParsedMoveValue::Scalar(MoveScalar::U128(v)))
}

/// Relies on `bcs::from_bytes::<[u8; 32]>`: it accepts exactly the
/// canonical encoding of a value of that type, consuming every byte.
#[verifier::external_body]
fn bcs_u256(b: &[u8]) -> (r: Option<ParsedMoveValue>)
    ensures
        decoded_as(MoveType::Scalar(ScalarKind::U256), b@, opt_view(r)),
{
    bcs::from_bytes::<[u8; 32]>(b).ok().map(|v| ParsedMoveValue::Scalar(MoveScalar::U256(v)))
}

/// Relies on `bcs::from_bytes::<bool>`: it accepts exactly the
/// canonical encoding of a value of that type, consuming every byte.
#[verifier::external_body]
fn bcs_bool(b: &[u8]) -> (r: Option<ParsedMoveValue>)
    ensures
        decoded_as(MoveType::Scalar(ScalarKind::Bool), b@, opt_view(r)),
{
    bcs::from_bytes::<bool>(b).ok().map(|v| ParsedMoveValue::Scalar(MoveScalar::Bool(v)))
}

/// Relies on `bcs::from_bytes::<[u8; 32]>`: it accepts exactly the
/// canonical encoding of a value of that type, consuming every byte.
#[verifier::external_body]
fn bcs_address(b: &[u8]) -> (r: Option<ParsedMoveValue>)
    ensures
        decoded_as(MoveType::Scalar(ScalarKind::Address), b@, opt_view(r)),
{
    bcs::from_bytes::<[u8; 32]>(b).ok().map(|v| ParsedMoveValue::Scalar(MoveScalar::Address(v)))
}

/// Relies on `bcs::from_bytes::<Vec<u8>>`: it accepts exactly the
/// canonical encoding of a value of that type, consuming every byte.
#[verifier::external_body]
fn bcs_vec_u8(b: &[u8]) -> (r: Option<ParsedMoveValue>)
    ensures
        decoded_as(MoveType::Vector(ScalarKind::U8), b@, opt_view(r)),
{
    bcs::from_bytes::<Vec<u8>>(b).ok().map(|v| ParsedMoveValue::Vector(v.into_iter().map(MoveScalar::U8).collect()))
}

/// Relies on `bcs::from_bytes::<Vec<u16>>`: it accepts exactly the
/// canonical encoding of a value of that type, consuming every byte.
#[verifier::external_body]
fn bcs_vec_u16(b: &[u8]) -> (r: Option<ParsedMoveValue>)
    ensures
        decoded_as(MoveType::Vector(ScalarKind::U16), b@, opt_view(r)),
{
    bcs::from_bytes::<Vec<u16>>(b).ok().map(|v| ParsedMoveValue::Vector(v.into_iter().map(MoveScalar::U16).collect()))
}

/// Relies on `bcs::from_bytes::<Vec<u32>>`: it accepts exactly the
/// canonical encoding of a value of that type, consuming every byte.
#[verifier::external_body]
fn bcs_vec_u32(b: &[u8]) -> (r: Option<ParsedMoveValue>)
    ensures
        decoded_as(MoveType::Vector(ScalarKind::U32), b@, opt_view(r)),
{
    bcs::from_bytes::<Vec<u32>>(b).ok().map(|v| ParsedMoveValue::Vector(v.into_iter().map(MoveScalar::U32).collect()))
}

/// Relies on `bcs::from_bytes::<Vec<u64>>`: it accepts exactly the
/// canonical encoding of a value of that type, consuming every byte.
#[verifier::external_body]
fn bcs_vec_u64(b: &[u8]) -> (r: Option<ParsedMoveValue>)
    ensures
        decoded_as(MoveType::Vector(ScalarKind::U64), b@, opt_view(r)),
{
    bcs::from_bytes::<Vec<u64>>(b).ok().map(|v| ParsedMoveValue::Vector(v.into_iter().map(MoveScalar::U64).collect()))
}

/// Relies on `bcs::from_bytes::<Vec<u128>>`: it accepts exactly the
/// canonical encoding of a value of that type, consuming every byte.
#[verifier::external_body]
fn bcs_vec_u128(b: &[u8]) -> (r: Option<ParsedMoveValue>)
    ensures
        decoded_as(MoveType::Vector(ScalarKind::U128), b@, opt_view(r)),
{
    bcs::from_bytes::<Vec<u128>>(b).ok().map(|v| ParsedMoveValue::Vector(v.into_iter().map(MoveScalar::U128).collect()))
}

/// Relies on `bcs::from_bytes::<Vec<[u8; 32]>>`: it accepts exactly the
/// canonical encoding of a value of that type, consuming every byte.
#[verifier::external_body]
fn bcs_vec_u256(b: &[u8]) -> (r: Option<ParsedMoveValue>)
    ensures
        decoded_as(MoveType::Vector(ScalarKind::U256), b@, opt_view(r)),
{
    bcs::from_bytes::<Vec<[u8; 32]>>(b).ok().map(|v| ParsedMoveValue::Vector(v.into_iter().map(MoveScalar::U256).collect()))
}

/// Relies on `bcs::from_bytes::<Vec<[u8; 32]>>`: it accepts exactly the
/// canonical encoding of a value of that type, consuming every byte.
#[verifier::external_body]
fn bcs_vec_address(b: &[u8]) -> (r: Option<ParsedMoveValue>)
    ensures
        decoded_as(MoveType::Vector(ScalarKind::Address), b@, opt_view(r)),
{
    bcs::from_bytes::<Vec<[u8; 32]>>(b).ok().map(|v| ParsedMoveValue::Vector(v.into_iter().map(MoveScalar::Address).collect()))
}

/// Relies on `bcs::from_bytes::<Vec<bool>>`: it accepts exactly the
/// canonical encoding of a value of that type, consuming every byte.
#[verifier::external_body]
fn bcs_vec_bool(b: &[u8]) -> (r: Option<ParsedMoveValue>)
    ensures
        decoded_as(MoveType::Vector(ScalarKind::Bool), b@, opt_view(r)),
{
    bcs::from_bytes::<Vec<bool>>(b).ok().map(|v| ParsedMoveValue::Vector(v.into_iter().map(MoveScalar::Bool).collect()))
}

/// Relies on `bcs::from_bytes::<Vec<Vec<u8>>>`: it accepts exactly the
/// canonical encoding of a value of that type, consuming every byte.
#[verifier::external_body]
fn bcs_vec_vec_u8(b: &[u8]) -> (r: Option<ParsedMoveValue>)
    ensures
        decoded_as(MoveType::Nested(ScalarKind::U8), b@, opt_view(r)),
{
    bcs::from_bytes::<Vec<Vec<u8>>>(b).ok().map(|v| ParsedMoveValue::Nested(v.into_iter().map(|w| w.into_iter().map(MoveScalar::U8).collect()).collect()))
}

/// Relies on `bcs::from_bytes::<Vec<Vec<u16>>>`: it accepts exactly the
/// canonical encoding of a value of that type, consuming every byte.
#[verifier::external_body]
fn bcs_vec_vec_u16(b: &[u8]) -> (r: Option<ParsedMoveValue>)
    ensures
        decoded_as(MoveType::Nested(ScalarKind::U16), b@, opt_view(r)),
{
    bcs::from_bytes::<Vec<Vec<u16>>>(b).ok().map(|v| ParsedMoveValue::Nested(v.into_iter().map(|w| w.into_iter().map(MoveScalar::U16).collect()).collect()))
}

/// Relies on `bcs::from_bytes::<Vec<Vec<u32>>>`: it accepts exactly the
/// canonical encoding of a value of that type, consuming every byte.
#[verifier::external_body]
fn bcs_vec_vec_u32(b: &[u8]) -> (r: Option<ParsedMoveValue>)
    ensures
        decoded_as(MoveType::Nested(ScalarKind::U32), b@, opt_view(r)),
{
    bcs::from_bytes::<Vec<Vec<u32>>>(b).ok().map(|v| ParsedMoveValue::Nested(v.into_iter().map(|w| w.into_iter().map(MoveScalar::U32).collect()).collect()))
}

/// Relies on `bcs::from_bytes::<Vec<Vec<u64>>>`: it accepts exactly the
/// canonical encoding of a value of that type, consuming every byte.
#[verifier::external_body]
fn bcs_vec_vec_u64(b: &[u8]) -> (r: Option<ParsedMoveValue>)
    ensures
        decoded_as(MoveType::Nested(ScalarKind::U64), b@, opt_view(r)),
{
    bcs::from_bytes::<Vec<Vec<u64>>>(b).ok().map(|v| ParsedMoveValue::Nested(v.into_iter().map(|w| w.into_iter().map(MoveScalar::U64).collect()).collect()))
}

/// Relies on `bcs::from_bytes::<Vec<Vec<u128>>>`: it accepts exactly the
/// canonical encoding of a value of that type, consuming every byte.
#[verifier::external_body]
fn bcs_vec_vec_u128(b: &[u8]) -> (r: Option<ParsedMoveValue>)
    ensures
        decoded_as(MoveType::Nested(ScalarKind::U128), b@, opt_view(r)),
{
    bcs::from_bytes::<Vec<Vec<u128>>>(b).ok().map(|v| ParsedMoveValue::Nested(v.into_iter().map(|w| w.into_iter().map(MoveScalar::U128).collect()).collect()))
}

/// Relies on `bcs::from_bytes::<Vec<Vec<[u8; 32]>>>`: it accepts exactly the
/// canonical encoding of a value of that type, consuming every byte.
#[verifier::external_body]
fn bcs_vec_vec_u256(b: &[u8]) -> (r: Option<ParsedMoveValue>)
    ensures
        decoded_as(MoveType::Nested(ScalarKind::U256), b@, opt_view(r)),
{
    bcs::from_bytes::<Vec<Vec<[u8; 32]>>>(b).ok().map(|v| ParsedMoveValue::Nested(v.into_iter().map(|w| w.into_iter().map(MoveScalar::U256).collect()).collect()))
}

/// Relies on `bcs::from_bytes::<Vec<Vec<[u8; 32]>>>`: it accepts exactly the
/// canonical encoding of a value of that type, consuming every byte.
#[verifier::external_body]
fn bcs_vec_vec_address(b: &[u8]) -> (r: Option<ParsedMoveValue>)
    ensures
        decoded_as(MoveType::Nested(ScalarKind::Address), b@, opt_view(r)),
{
    bcs::from_bytes::<Vec<Vec<[u8; 32]>>>(b).ok().map(|v| ParsedMoveValue::Nested(v.into_iter().map(|w| w.into_iter().map(MoveScalar::Address).collect()).collect()))
}

/// Relies on `bcs::from_bytes::<Vec<Vec<bool>>>`: it accepts exactly the
/// canonical encoding of a value of that type, consuming every byte.
#[verifier::external_body]
fn bcs_vec_vec_bool(b: &[u8]) -> (r: Option<ParsedMoveValue>)
    ensures
        decoded_as(MoveType::Nested(ScalarKind::Bool), b@, opt_view(r)),
{
    bcs::from_bytes::<Vec<Vec<bool>>>(b).ok().map(|v| ParsedMoveValue::Nested(v.into_iter().map(|w| w.into_iter().map(MoveScalar::Bool).collect()).collect()))
}

fn decode_typed(ty: MoveType, raw: &[u8]) -> (r: Option<ParsedMoveValue>)
    ensures
        decoded_as(ty, raw@, opt_view(r)),
{
    match ty {
        MoveType::Scalar(ScalarKind::U8) => bcs_u8(raw),
        MoveType::Scalar(ScalarKind::U16) => bcs_u16(raw),
        MoveType::Scalar(ScalarKind::U32) => bcs_u32(raw),
        MoveType::Scalar(ScalarKind::U64) => bcs_u64(raw),
        MoveType::Scalar(ScalarKind::U128) => bcs_u128(raw),
        MoveType::Scalar(ScalarKind::U256) => bcs_u256(raw),
        MoveType::Scalar(ScalarKind::Bool) => bcs_bool(raw),
        MoveType::Scalar(ScalarKind::Address) => bcs_address(raw),
        MoveType::Vector(ScalarKind::U8) => bcs_vec_u8(raw),
        MoveType::Vector(ScalarKind::U16) => bcs_vec_u16(raw),
        MoveType::Vector(ScalarKind::U32) => bcs_vec_u32(raw),
        MoveType::Vector(ScalarKind::U64) => bcs_vec_u64(raw),
        MoveType::Vector(ScalarKind::U128) => bcs_vec_u128(raw),
        MoveType::Vector(ScalarKind::U256) => bcs_vec_u256(raw),
        MoveType::Vector(ScalarKind::Address) => bcs_vec_address(raw),
        MoveType::Vector(ScalarKind::Bool) => bcs_vec_bool(raw),
        MoveType::Nested(ScalarKind::U8) => bcs_vec_vec_u8(raw),
        MoveType::Nested(ScalarKind::U16) => bcs_vec_vec_u16(raw),
        MoveType::Nested(ScalarKind::U32) => bcs_vec_vec_u32(raw),
        MoveType::Nested(ScalarKind::U64) => bcs_vec_vec_u64(raw),
        MoveType::Nested(ScalarKind::U128) => bcs_vec_vec_u128(raw),
        MoveType::Nested(ScalarKind::U256) => bcs_vec_vec_u256(raw),
        MoveType::Nested(ScalarKind::Address) => bcs_vec_vec_address(raw),
        MoveType::Nested(ScalarKind::Bool) => bcs_vec_vec_bool(raw),
    }
}

/// Decodes `raw` as a value of the type that `type_tag` names. An
/// unrecognized tag decodes the bytes as a vector of bytes.
pub fn decode(type_tag: &str, raw: &[u8]) -> (r: Result<ParsedMoveValue, DecodeError>)
    ensures
        decoded_as(tag_type(type_tag@), raw@, match r { Ok(v) => Some(v@), Err(_) => None }),
        r matches Err(e) ==> e == DecodeError::Malformed,
{
    let ty = type_of_tag(type_tag);
    match decode_typed(ty, raw) {
        Some(v) => Ok(v),
        None => Err(DecodeError::Malformed),
    }
}

/// The fields whose key flag is `k`, in field order.
pub open spec fn group_fields(fields: Seq<FieldView>, k: bool) -> Seq<FieldView>
    decreases fields.len(),
{
    if fields.len() == 0 {
        Seq::empty()
    } else {
        group_fields(fields.drop_last(), k) + if fields.last().is_key == k {
            seq![fields.last()]
        } else {
            Seq::empty()
        }
    }
}

/// Whether `bytes` decode as a value of the type that tag `t` names.
pub open spec fn decodes(t: Seq<char>, bytes: Seq<u8>) -> bool {
    exists|v: ValueView| typed(tag_type(t), v) && #[trigger] encode(v) == bytes
}

/// What decoding one byte array per field of `group`, by position, gives.
pub open spec fn group_decoded(
    group: Seq<FieldView>,
    parts: Seq<Seq<u8>>,
    r: Result<Vec<(String, ParsedMoveValue)>, DecodeError>,
) -> bool {
    match r {
        Ok(pairs) => {
            &&& parts.len() == group.len()
            &&& pairs@.len() == group.len()
            &&& forall|i: int| 0 <= i < group.len() ==> {
                &&& (#[trigger] pairs@[i]).0@ == group[i].name
                &&& decoded_as(tag_type(group[i].ty), parts[i], Some(pairs@[i].1@))
            }
        },
        Err(DecodeError::FieldCountMismatch) => parts.len() != group.len(),
        Err(DecodeError::Malformed) => {
            &&& parts.len() == group.len()
            &&& exists|i: int| 0 <= i < group.len() && !decodes(group[i].ty, #[trigger] parts[i])
        },
    }
}

proof fn lemma_group_fields_len(fields: Seq<FieldView>, k: bool)
    ensures
        group_fields(fields, k).len() <= fields.len(),
    decreases fields.len(),
{
    if fields.len() > 0 {
        lemma_group_fields_len(fields.drop_last(), k);
    }
}

impl TableMetadata {
    /// Decodes one column value: the field's name and the value that its
    /// bytes encode under its type tag.
    pub fn parse_table_field(
        &self,
        field_name: &Vec<u8>,
        field_type: &Vec<u8>,
        field_value: &[u8],
    ) -> (r: Result<(String, ParsedMoveValue), DecodeError>)
        ensures
            decoded_as(
                tag_type(utf8_lossy(field_type@)),
                field_value@,
                match r { Ok(p) => Some(p.1@), Err(_) => None },
            ),
            r matches Ok(p) ==> p.0@ == utf8_lossy(field_name@),
            r matches Err(e) ==> e == DecodeError::Malformed,
    {
        let name = utf8_lossy_string(field_name.as_slice());
        let tag = utf8_lossy_string(field_type.as_slice());
        match decode(tag.as_str(), field_value) {
            Ok(v) => Ok((name, v)),
            Err(e) => Err(e),
        }
    }

    /// Decodes the byte arrays of the fields whose key flag is `want_key`.
    fn parse_group(&self, parts: &Vec<Vec<u8>>, want_key: bool) -> (r: Result<Vec<(String, ParsedMoveValue)>, DecodeError>)
        ensures
            group_decoded(group_fields(self@.fields, want_key), parts@.map_values(|p: Vec<u8>| p@), r),
    {
        let ghost fv = self@.fields;
        let ghost pv = parts@.map_values(|p: Vec<u8>| p@);
        let ghost group = group_fields(fv, want_key);
        let mut count: usize = 0;
        let mut i: usize = 0;
        while i < self.fields.len()
            invariant
                i <= self.fields.len(),
                fv == self@.fields,
                count == group_fields(fv.subrange(0, i as int), want_key).len(),
            decreases self.fields.len() - i,
        {
            proof {
                assert(fv.subrange(0, i as int + 1).drop_last() =~= fv.subrange(0, i as int));
                lemma_group_fields_len(fv.subrange(0, i as int), want_key);
            }
            if self.fields[i].is_key == want_key {
                count = count + 1;
            }
            i = i + 1;
        }
        assert(fv.subrange(0, self.fields.len() as int) =~= fv);
        if count != parts.len() {
            return Err(DecodeError::FieldCountMismatch);
        }
        let n_parts = parts.len();
        let mut out: Vec<(String, ParsedMoveValue)> = Vec::new();
        let mut i: usize = 0;
        let mut j: usize = 0;
        while i < self.fields.len()
            invariant
                i <= self.fields.len(),
                fv == self@.fields,
                pv == parts@.map_values(|p: Vec<u8>| p@),
                group == group_fields(fv, want_key),
                parts@.len() == group.len(),
                n_parts == parts@.len(),
                j == group_fields(fv.subrange(0, i as int), want_key).len(),
                group_fields(fv.subrange(0, i as int), want_key) =~= group.subrange(0, j as int),
                j <= group.len(),
                out@.len() == j,
                forall|m: int| 0 <= m < j ==> {
                    &&& (#[trigger] out@[m]).0@ == group[m].name
                    &&& decoded_as(tag_type(group[m].ty), pv[m], Some(out@[m].1@))
                },
            decreases self.fields.len() - i,
        {
            proof {
                assert(fv.subrange(0, i as int + 1).drop_last() =~= fv.subrange(0, i as int));
                lemma_group_prefix(fv, i as int + 1, want_key);
            }
            let field = &self.fields[i];
            assert(fv[i as int] == field@);
            if field.is_key == want_key {
                proof {
                    let g1 = group_fields(fv.subrange(0, i as int + 1), want_key);
                    assert(fv.subrange(0, i as int + 1).last() == fv[i as int]);
                    assert(g1 =~= group_fields(fv.subrange(0, i as int), want_key).push(fv[i as int]));
                    assert(g1.len() == j + 1);
                    assert(g1[j as int] == group[j as int]);
                }
                match decode(field.field_type.as_str(), parts[j].as_slice()) {
                    Ok(v) => {
                        out.push((field.field_name.clone(), v));
                        j = j + 1;
                    },
                    Err(_) => {
                        assert(!decodes(group[j as int].ty, pv[j as int]));
                        return Err(DecodeError::Malformed);
                    },
                }
            }
            i = i + 1;
        }
        assert(fv.subrange(0, self.fields.len() as int) =~= fv);
        Ok(out)
    }

    /// Decodes the key byte arrays, one per key field in field order, into
    /// (field name, value) pairs.
    pub fn parse_table_keys(&self, keys: Vec<Vec<u8>>) -> (r: Result<Vec<(String, ParsedMoveValue)>, DecodeError>)
        ensures
            group_decoded(group_fields(self@.fields, true), keys@.map_values(|p: Vec<u8>| p@), r),
    {
        self.parse_group(&keys, true)
    }

    /// Decodes the value byte arrays, one per value field in field order,
    /// into (field name, value) pairs.
    pub fn parse_table_values(&self, values: Vec<Vec<u8>>) -> (r: Result<Vec<(String, ParsedMoveValue)>, DecodeError>)
        ensures
            group_decoded(group_fields(self@.fields, false), values@.map_values(|p: Vec<u8>| p@), r),
    {
        self.parse_group(&values, false)
    }
}

/// The group of a prefix is a prefix of the group.
proof fn lemma_group_prefix(fields: Seq<FieldView>, n: int, k: bool)
    requires
        0 <= n <= fields.len(),
    ensures
        group_fields(fields.subrange(0, n), k).len() <= group_fields(fields, k).len(),
        group_fields(fields.subrange(0, n), k)
            =~= group_fields(fields, k).subrange(0, group_fields(fields.subrange(0, n), k).len() as int),
    decreases fields.len() - n,
{
    if n < fields.len() {
        lemma_group_prefix(fields, n + 1, k);
        assert(fields.subrange(0, n + 1).drop_last() =~= fields.subrange(0, n));
    } else {
        assert(fields.subrange(0, n) =~= fields);
    }
}

/// Value of a little-endian byte sequence.
pub open spec fn le_value(w: Seq<u8>) -> nat
    decreases w.len(),
{
    if w.len() == 0 {
        0
    } else {
        w[0] as nat + 256 * le_value(w.drop_first())
    }
}

proof fn lemma_le_value_zero(w: Seq<u8>)
    ensures
        (le_value(w) == 0) == (forall|i: int| 0 <= i < w.len() ==> w[i] == 0),
    decreases w.len(),
{
    if w.len() > 0 {
        lemma_le_value_zero(w.drop_first());
        if le_value(w) == 0 {
            assert forall|i: int| 0 <= i < w.len() implies w[i] == 0 by {
                if i > 0 {
                    assert(w[i] == w.drop_first()[i - 1]);
                }
            }
        }
        if forall|i: int| 0 <= i < w.len() ==> w[i] == 0 {
            assert forall|i: int| 0 <= i < w.drop_first().len() implies w.drop_first()[i] == 0 by {
                assert(w.drop_first()[i] == w[i + 1]);
            }
        }
    }
}

/// Quotient and remainder of a little-endian number divided by ten.
fn div_mod_ten(w: &Vec<u8>) -> (r: (Vec<u8>, u8))
    ensures
        r.0@.len() == w@.len(),
        r.1 < 10,
        le_value(r.0@) * 10 + r.1 == le_value(w@),
{
    let n = w.len();
    let mut q: Vec<u8> = Vec::new();
    while q.len() < n
        invariant
            q@.len() <= n,
            n == w@.len(),
        decreases n - q@.len(),
    {
        q.push(0u8);
    }
    let mut rem: u32 = 0;
    let mut i: usize = n;
    assert(q@.subrange(n as int, n as int) =~= Seq::<u8>::empty());
    assert(w@.subrange(n as int, n as int) =~= Seq::<u8>::empty());
    while i > 0
        invariant
            i <= n,
            n == w@.len(),
            q@.len() == n,
            rem < 10,
            le_value(q@.subrange(i as int, n as int)) * 10 + rem == le_value(w@.subrange(i as int, n as int)),
        decreases i,
    {
        let c: u32 = rem * 256 + w[i - 1] as u32;
        let ghost hi_q = le_value(q@.subrange(i as int, n as int));
        let ghost q_old = q@;
        let ghost hi_w = le_value(w@.subrange(i as int, n as int));
        q.set(i - 1, (c / 10) as u8);
        proof {
            assert(q@.subrange(i as int, n as int) =~= q_old.subrange(i as int, n as int));
            assert(c / 10 < 256);
            assert(q@.subrange(i as int - 1, n as int)[0] == (c / 10) as u8);
            assert(q@.subrange(i as int - 1, n as int).drop_first() =~= q@.subrange(i as int, n as int));
            assert(w@.subrange(i as int - 1, n as int).drop_first() =~= w@.subrange(i as int, n as int));
            let qv = le_value(q@.subrange(i as int - 1, n as int));
            let wv = le_value(w@.subrange(i as int - 1, n as int));
            assert(qv == (c / 10) as nat + 256 * hi_q);
            assert(wv == w@[i as int - 1] as nat + 256 * hi_w);
            assert(qv * 10 + c % 10 == wv) by (nonlinear_arith)
                requires
                    qv == (c / 10) as nat + 256 * hi_q,
                    wv == w@[i as int - 1] as nat + 256 * hi_w,
                    hi_q * 10 + rem == hi_w,
                    c == rem * 256 + w@[i as int - 1] as nat,
            ;
        }
        rem = c % 10;
        i = i - 1;
    }
    assert(q@.subrange(0, n as int) =~= q@);
    assert(w@.subrange(0, n as int) =~= w@);
    (q, rem as u8)
}

/// Decimal text of a little-endian number.
fn le_decimal(w: Vec<u8>) -> (r: String)
    ensures
        r@ == decimal(le_value(w@)),
    decreases le_value(w@),
{
    let (q, d) = div_mod_ten(&w);
    let mut zero = true;
    let mut i: usize = 0;
    while i < q.len()
        invariant
            i <= q@.len(),
            zero == (forall|j: int| 0 <= j < i ==> q@[j] == 0),
        decreases q@.len() - i,
    {
        if q[i] != 0 {
            zero = false;
        }
        i = i + 1;
    }
    proof {
        lemma_le_value_zero(q@);
    }
    if zero {
        String::from_str(digit_str(d))
    } else {
        assert(le_value(w@) >= 10);
        let mut s = le_decimal(q);
        s.append(digit_str(d));
        s
    }
}

/// Decimal text of a 256-bit unsigned integer given by its 32
/// little-endian bytes.
pub fn u256_decimal(w: &[u8; 32]) -> (r: String)
    ensures
        r@ == decimal(le_value(w@)),
{
    le_decimal(slice_to_vec(w.as_slice()))
}

/// Lowercase hexadecimal digit of a value below sixteen.
pub open spec fn hex_char(d: nat) -> char {
    if d < 10 { ((d + 48) as u8) as char } else { ((d + 87) as u8) as char }
}

/// Two lowercase hexadecimal digits per byte, in byte order.
pub open spec fn hex_of(b: Seq<u8>) -> Seq<char>
    decreases b.len(),
{
    if b.len() == 0 {
        Seq::empty()
    } else {
        hex_of(b.drop_last()) + seq![hex_char(b.last() as nat / 16), hex_char(b.last() as nat % 16)]
    }
}

fn hex_str(d: u8) -> (r: &'static str)
    requires
        d < 16,
    ensures
        r@ == seq![hex_char(d as nat)],
{
    if d == 0 {
        proof { reveal_strlit("0"); }
        "0"
    } else if d == 1 {
        proof { reveal_strlit("1"); }
        "1"
    } else if d == 2 {
        proof { reveal_strlit("2"); }
        "2"
    } else if d == 3 {
        proof { reveal_strlit("3"); }
        "3"
    } else if d == 4 {
        proof { reveal_strlit("4"); }
        "4"
    } else if d == 5 {
        proof { reveal_strlit("5"); }
        "5"
    } else if d == 6 {
        proof { reveal_strlit("6"); }
        "6"
    } else if d == 7 {
        proof { reveal_strlit("7"); }
        "7"
    } else if d == 8 {
        proof { reveal_strlit("8"); }
        "8"
    } else if d == 9 {
        proof { reveal_strlit("9"); }
        "9"
    } else if d == 10 {
        proof { reveal_strlit("a"); }
        "a"
    } else if d == 11 {
        proof { reveal_strlit("b"); }
        "b"
    } else if d == 12 {
        proof { reveal_strlit("c"); }
        "c"
    } else if d == 13 {
        proof { reveal_strlit("d"); }
        "d"
    } else if d == 14 {
        proof { reveal_strlit("e"); }
        "e"
    } else {
        proof { reveal_strlit("f"); }
        "f"
    }
}

/// An address as text: `0x` and two lowercase hexadecimal digits per byte.
pub fn address_hex(w: &[u8; 32]) -> (r: String)
    ensures
        r@ == "0x"@ + hex_of(w@),
{
    let mut out = String::from_str("0x");
    let mut i: usize = 0;
    while i < 32
        invariant
            i <= 32,
            w@.len() == 32,
            out@ == "0x"@ + hex_of(w@.subrange(0, i as int)),
        decreases 32 - i,
    {
        let b = w[i];
        out.append(hex_str(b / 16));
        out.append(hex_str(b % 16));
        proof {
            assert(w@.subrange(0, i as int + 1).drop_last() =~= w@.subrange(0, i as int));
            assert(("0x"@ + hex_of(w@.subrange(0, i as int))) + seq![hex_char(b as nat / 16)] + seq![hex_char(b as nat % 16)]
                =~= "0x"@ + hex_of(w@.subrange(0, i as int + 1)));
        }
        i = i + 1;
    }
    assert(w@.subrange(0, 32) =~= w@);
    out
}

/// Decoding inverts encoding: for every type that a tag names and every
/// value of that type, decoding the value's encoding gives the value back.
pub proof fn lemma_round_trip(t: Seq<char>, v: ValueView, o: Option<ValueView>)
    requires
        typed(tag_type(t), v),
        decoded_as(tag_type(t), encode(v), o),
    ensures
        o == Some(v),
{
}

/// A tag outside the type vocabulary never makes decoding fail by itself:
/// the bytes are read as a vector of bytes, so every encoding of a vector
/// of bytes decodes to that vector.
pub proof fn lemma_unknown_tag_falls_back(t: Seq<char>, bytes: Seq<u8>, o: Option<ValueView>)
    requires
        !known_tag(t),
        decoded_as(tag_type(t), encode(ValueView::Vector(bytes.map_values(|b: u8| ScalarView::U8(b)))), o),
        bytes.len() <= MAX_SEQUENCE_LENGTH,
    ensures
        tag_type(t) == MoveType::Vector(ScalarKind::U8),
        o == Some(ValueView::Vector(bytes.map_values(|b: u8| ScalarView::U8(b)))),
{
    let v = ValueView::Vector(bytes.map_values(|b: u8| ScalarView::U8(b)));
    assert(typed(MoveType::Vector(ScalarKind::U8), v));
}

} // verus!
