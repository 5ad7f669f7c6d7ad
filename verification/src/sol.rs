//! The bridge to the `alloy` crates: the outside types, what converts between
//! them and this library's own, and the calls themselves. Nothing in this file
//! is proved; every contract here is taken on trust from the outside source.
use vstd::prelude::*;
use alloy_dyn_abi::{DynSolType, DynSolValue};
use alloy_primitives::{Address, Function, I256, U256};
use crate::abi_type::{TypeModel, TypeNode};
use crate::coerce::safe_to_read;
use crate::text::{be_nat, decimal_digits, texts};
use crate::value::{value_models, TypedValue, ValueModel};

verus! {

/// `alloy_dyn_abi::DynSolType`, the outside crate's type tree. Nothing is
/// known of a value of it; it only passes between the functions of this file.
#[verifier::external_type_specification]
#[verifier::external_body]
pub struct ExDynSolType(DynSolType);

/// `alloy_dyn_abi::DynSolValue`, the outside crate's value tree. Nothing is
/// known of a value of it; it only passes between the functions of this file.
#[verifier::external_type_specification]
#[verifier::external_body]
pub struct ExDynSolValue(DynSolValue);

/// What `DynSolType::parse` makes of a type's text: the type, or nothing where
/// it reports an error.
pub uninterp spec fn parsed_type(text: Seq<char>) -> Option<TypeModel>;

/// What `DynSolType::coerce_str` makes of a literal read against a type: the
/// value, or nothing where it reports an error.
pub uninterp spec fn coerced(ty: TypeModel, literal: Seq<char>) -> Option<ValueModel>;

/// The bytes that `DynSolValue::abi_encode_params` gives for a tuple of these
/// values: their head and tail encoding as the arguments of a call.
pub uninterp spec fn abi_encoded(values: Seq<ValueModel>) -> Seq<u8>;

/// The 32-byte digest that `alloy_primitives::keccak256` gives for these bytes.
pub uninterp spec fn keccak256_digest(bytes: Seq<u8>) -> Seq<u8>;

/// What `alloy_json_abi::Function::parse` makes of a signature's text: its
/// parts, or nothing where it reports an error.
pub uninterp spec fn parsed_function(text: Seq<char>) -> Option<SignatureModel>;

/// The text that `Address::to_checksum` gives, with no chain, for the address
/// of these twenty bytes: `0x` and forty hexadecimal digits in mixed case.
pub uninterp spec fn checksum_text(address: Seq<u8>) -> Seq<char>;

/// The parts of a parsed signature, types still as text.
pub struct RawSignature {
    /// The function's name.
    pub name: String,
    /// Each parameter's name, empty where the text gave none.
    pub names: Vec<String>,
    /// Each parameter's type, as many as there are names.
    pub types: Vec<String>,
    /// The type of each returned value.
    pub outputs: Vec<String>,
}

/// The mathematical model of a [`RawSignature`].
pub ghost struct SignatureModel {
    pub name: Seq<char>,
    pub names: Seq<Seq<char>>,
    pub types: Seq<Seq<char>>,
    pub outputs: Seq<Seq<char>>,
}

impl View for RawSignature {
    type V = SignatureModel;

    open spec fn view(&self) -> SignatureModel {
        SignatureModel {
            name: self.name@,
            names: texts(self.names@),
            types: texts(self.types@),
            outputs: texts(self.outputs@),
        }
    }
}

/// Rebuilds a `DynSolType` as a [`TypeNode`], variant for variant.
#[verifier::external_body]
fn type_from_sol(t: &DynSolType) -> TypeNode {
    match t {
        DynSolType::Bool => TypeNode::Bool,
        DynSolType::Int(n) => TypeNode::Int(*n),
        DynSolType::Uint(n) => TypeNode::Uint(*n),
        DynSolType::FixedBytes(n) => TypeNode::FixedBytes(*n),
        DynSolType::Address => TypeNode::Address,
        DynSolType::Function => TypeNode::Function,
        DynSolType::Bytes => TypeNode::Bytes,
        DynSolType::String => TypeNode::String,
        DynSolType::Array(e) => TypeNode::Array(Box::new(type_from_sol(e))),
        DynSolType::FixedArray(e, k) => TypeNode::FixedArray(Box::new(type_from_sol(e)), *k),
        DynSolType::Tuple(ts) => TypeNode::Tuple(ts.iter().map(type_from_sol).collect()),
    }
}

/// Rebuilds a [`TypeNode`] as a `DynSolType`, variant for variant.
#[verifier::external_body]
fn type_to_sol(t: &TypeNode) -> DynSolType {
    match t {
        TypeNode::Bool => DynSolType::Bool,
        TypeNode::Int(n) => DynSolType::Int(*n),
        TypeNode::Uint(n) => DynSolType::Uint(*n),
        TypeNode::FixedBytes(n) => DynSolType::FixedBytes(*n),
        TypeNode::Address => DynSolType::Address,
        TypeNode::Function => DynSolType::Function,
        TypeNode::Bytes => DynSolType::Bytes,
        TypeNode::String => DynSolType::String,
        TypeNode::Array(e) => DynSolType::Array(Box::new(type_to_sol(e))),
        TypeNode::FixedArray(e, k) => DynSolType::FixedArray(Box::new(type_to_sol(e)), *k),
        TypeNode::Tuple(ts) => DynSolType::Tuple(ts.iter().map(type_to_sol).collect()),
    }
}

/// Rebuilds a one-word `DynSolValue` as a [`TypedValue`], variant for variant,
/// and hands the others to [`value_from_sol`].
#[verifier::external_body]
fn word_from_sol(v: DynSolValue) -> TypedValue {
    match v {
        DynSolValue::Bool(b) => TypedValue::Bool(b),
        DynSolValue::Int(i, n) => TypedValue::Int(i.to_be_bytes(), n),
        DynSolValue::Uint(u, n) => TypedValue::Uint(u.to_be_bytes(), n),
        DynSolValue::FixedBytes(w, n) => TypedValue::FixedBytes(w.0, n),
        DynSolValue::Address(a) => TypedValue::Address(a.0.0),
        DynSolValue::Function(f) => TypedValue::Function(f.0.0),
        other => value_from_sol(other),
    }
}

/// Rebuilds a `DynSolValue` as a [`TypedValue`], variant for variant.
#[verifier::external_body]
fn value_from_sol(v: DynSolValue) -> TypedValue {
    match v {
        DynSolValue::Bytes(b) => TypedValue::Bytes(b),
        DynSolValue::String(s) => TypedValue::String(s),
        DynSolValue::Array(vs) => TypedValue::Array(vs.into_iter().map(value_from_sol).collect()),
        DynSolValue::FixedArray(vs) => TypedValue::FixedArray(vs.into_iter().map(value_from_sol).collect()),
        DynSolValue::Tuple(vs) => TypedValue::Tuple(vs.into_iter().map(value_from_sol).collect()),
        word => word_from_sol(word),
    }
}

/// Rebuilds a one-word [`TypedValue`] as a `DynSolValue`, variant for variant,
/// and hands the others to [`value_to_sol`].
#[verifier::external_body]
fn word_to_sol(v: &TypedValue) -> DynSolValue {
    match v {
        TypedValue::Bool(b) => DynSolValue::Bool(*b),
        TypedValue::Int(w, n) => DynSolValue::Int(I256::from_be_bytes(*w), *n),
        TypedValue::Uint(w, n) => DynSolValue::Uint(U256::from_be_bytes(*w), *n),
        TypedValue::FixedBytes(w, n) => DynSolValue::FixedBytes((*w).into(), *n),
        TypedValue::Address(a) => DynSolValue::Address(Address::from(*a)),
        TypedValue::Function(f) => DynSolValue::Function(Function::from(*f)),
        other => value_to_sol(other),
    }
}

/// Rebuilds a [`TypedValue`] as a `DynSolValue`, variant for variant.
#[verifier::external_body]
fn value_to_sol(v: &TypedValue) -> DynSolValue {
    match v {
        TypedValue::Bytes(b) => DynSolValue::Bytes(b.clone()),
        TypedValue::String(s) => DynSolValue::String(s.clone()),
        TypedValue::Array(vs) => DynSolValue::Array(vs.iter().map(value_to_sol).collect()),
        TypedValue::FixedArray(vs) => DynSolValue::FixedArray(vs.iter().map(value_to_sol).collect()),
        TypedValue::Tuple(vs) => DynSolValue::Tuple(vs.iter().map(value_to_sol).collect()),
        word => word_to_sol(word),
    }
}

/// Calls `DynSolType::parse` on a type's text. The result is named, not
/// described: it is the type that the call resolves the text to, and `None`
/// where the call fails.
#[verifier::external_body]
pub(crate) fn sol_parse_type(text: &str) -> (r: Option<TypeNode>)
    ensures
        match r {
            Some(t) => parsed_type(text@) == Some(t@),
            None => parsed_type(text@) is None,
        },
{
    DynSolType::parse(text).ok().map(|t| type_from_sol(&t))
}

/// Calls `DynSolType::coerce_str` on a literal, with the type rebuilt for it.
/// The result is named, not described: it is the value that the call reads,
/// and `None` where the call fails. The call adds the exponent of a number to
/// that of its unit without a check; literals on which that could overflow
/// are left out.
#[verifier::external_body]
pub(crate) fn sol_coerce(ty: &TypeNode, literal: &str) -> (r: Option<TypedValue>)
    requires
        safe_to_read(ty@, literal@),
    ensures
        match r {
            Some(v) => coerced(ty@, literal@) == Some(v@),
            None => coerced(ty@, literal@) is None,
        },
{
    type_to_sol(ty).coerce_str(literal).ok().map(value_from_sol)
}

/// Calls `DynSolValue::abi_encode_params` on the tuple of these values. The
/// result is named, not described.
#[verifier::external_body]
pub(crate) fn sol_encode(values: &Vec<TypedValue>) -> (bytes: Vec<u8>)
    ensures
        bytes@ == abi_encoded(value_models(values@)),
{
    DynSolValue::Tuple(values.iter().map(value_to_sol).collect()).abi_encode_params()
}

/// Calls `alloy_primitives::keccak256`. The result is named, not described;
/// its length is that of the array.
#[verifier::external_body]
pub(crate) fn keccak256(bytes: &[u8]) -> (digest: [u8; 32])
    ensures
        digest@ == keccak256_digest(bytes@),
{
    alloy_primitives::keccak256(bytes).0
}

/// Calls `alloy_json_abi::Function::parse` on a signature's text and hands out
/// the function's name, each input's name, each input's type text and each
/// output's type text, a type text being what `Param::selector_type` gives.
/// The result is named, not described, but for this: there is one type for
/// each name, both being taken from the same list of inputs.
#[verifier::external_body]
pub(crate) fn sol_parse_function(text: &str) -> (r: Option<RawSignature>)
    ensures
        match r {
            Some(raw) => parsed_function(text@) == Some(raw@) && raw.names.len() == raw.types.len(),
            None => parsed_function(text@) is None,
        },
{
    let f = alloy_json_abi::Function::parse(text).ok()?;
    Some(RawSignature {
        name: f.name,
        names: f.inputs.iter().map(|p| p.name.clone()).collect(),
        types: f.inputs.iter().map(|p| p.selector_type().into_owned()).collect(),
        outputs: f.outputs.iter().map(|p| p.selector_type().into_owned()).collect(),
    })
}

/// Calls `Address::to_checksum`, with no chain, on the address of these
/// bytes. The result is named, not described.
#[verifier::external_body]
pub(crate) fn address_text(address: &[u8; 20]) -> (s: String)
    ensures
        s@ == checksum_text(address@),
{
    Address::from(*address).to_checksum(None)
}

/// Calls `to_string` on the `U256` of these bytes, the most significant first:
/// the number in decimal, without sign or leading zeros.
#[verifier::external_body]
pub(crate) fn u256_decimal(value: &[u8; 32]) -> (s: String)
    ensures
        s@ == decimal_digits(be_nat(value@)),
{
    U256::from_be_bytes(*value).to_string()
}

} // verus!
