//! Typed values: what a literal becomes once it is read against a type.
use vstd::prelude::*;
use vstd::array::array_len_matches_n;
use crate::abi_type::{TypeModel, TypeNode};

verus! {

/// A value of one ABI type. Integers and fixed bytes are held as the 32-byte
/// word that stands for them on the wire.
#[derive(Debug, PartialEq, Eq)]
pub enum TypedValue {
    /// An unsigned integer: its big-endian word and its width in bits.
    Uint([u8; 32], usize),
    /// A signed integer: its two's-complement big-endian word and its width in bits.
    Int([u8; 32], usize),
    /// A 20-byte address.
    Address([u8; 20]),
    /// A boolean.
    Bool(bool),
    /// Fixed bytes: the bytes at the front of a zero-padded word, and their count.
    FixedBytes([u8; 32], usize),
    /// Dynamic bytes.
    Bytes(Vec<u8>),
    /// UTF-8 text.
    String(String),
    /// A function pointer: an address followed by a selector.
    Function([u8; 24]),
    /// A dynamic array.
    Array(Vec<TypedValue>),
    /// A fixed array.
    FixedArray(Vec<TypedValue>),
    /// A tuple.
    Tuple(Vec<TypedValue>),
}

/// The mathematical model of a [`TypedValue`].
pub ghost enum ValueModel {
    Uint(Seq<u8>, nat),
    Int(Seq<u8>, nat),
    Address(Seq<u8>),
    Bool(bool),
    FixedBytes(Seq<u8>, nat),
    Bytes(Seq<u8>),
    String(Seq<char>),
    Function(Seq<u8>),
    Array(Seq<ValueModel>),
    FixedArray(Seq<ValueModel>),
    Tuple(Seq<ValueModel>),
}

/// The model of a value: the same tree, over sequences.
pub open spec fn value_model(v: TypedValue) -> ValueModel
    decreases v,
{
    match v {
        TypedValue::Uint(w, bits) => ValueModel::Uint(w@, bits as nat),
        TypedValue::Int(w, bits) => ValueModel::Int(w@, bits as nat),
        TypedValue::Address(a) => ValueModel::Address(a@),
        TypedValue::Bool(b) => ValueModel::Bool(b),
        TypedValue::FixedBytes(w, n) => ValueModel::FixedBytes(w@, n as nat),
        TypedValue::Bytes(b) => ValueModel::Bytes(b@),
        TypedValue::String(s) => ValueModel::String(s@),
        TypedValue::Function(f) => ValueModel::Function(f@),
        TypedValue::Array(vs) => ValueModel::Array(
            Seq::new(vs@.len(), |i: int| if 0 <= i < vs@.len() { value_model(vs@[i]) } else { ValueModel::Bool(false) }),
        ),
        TypedValue::FixedArray(vs) => ValueModel::FixedArray(
            Seq::new(vs@.len(), |i: int| if 0 <= i < vs@.len() { value_model(vs@[i]) } else { ValueModel::Bool(false) }),
        ),
        TypedValue::Tuple(vs) => ValueModel::Tuple(
            Seq::new(vs@.len(), |i: int| if 0 <= i < vs@.len() { value_model(vs@[i]) } else { ValueModel::Bool(false) }),
        ),
    }
}

/// The models of a sequence of values, in order.
pub open spec fn value_models(vs: Seq<TypedValue>) -> Seq<ValueModel> {
    Seq::new(vs.len(), |i: int| value_model(vs[i]))
}

impl View for TypedValue {
    type V = ValueModel;

    open spec fn view(&self) -> ValueModel {
        value_model(*self)
    }
}

/// Every byte of `w` from `from` up to `to` is `b`.
pub open spec fn all_bytes(w: Seq<u8>, from: int, to: int, b: u8) -> bool {
    forall|i: int| from <= i < to ==> #[trigger] w[i] == b
}

/// The word holds an unsigned integer of `bits` bits: a multiple of eight up
/// to 256, with nothing but zeros above them.
pub open spec fn uint_fits(w: Seq<u8>, bits: nat) -> bool {
    &&& w.len() == 32
    &&& 8 <= bits <= 256
    &&& bits % 8 == 0
    &&& all_bytes(w, 0, 32 - bits / 8, 0)
}

/// The word holds a signed integer of `bits` bits in two's complement: a
/// multiple of eight up to 256, with the sign repeated in every byte above them.
pub open spec fn int_fits(w: Seq<u8>, bits: nat) -> bool {
    &&& w.len() == 32
    &&& 8 <= bits <= 256
    &&& bits % 8 == 0
    &&& all_bytes(w, 0, 32 - bits / 8, if w[32 - bits / 8] >= 128 { 255u8 } else { 0u8 })
}

/// The word holds `n` bytes at its front, one to thirty-two, and zeros behind them.
pub open spec fn bytes_fit(w: Seq<u8>, n: nat) -> bool {
    &&& w.len() == 32
    &&& 1 <= n <= 32
    &&& all_bytes(w, n as int, 32, 0)
}

impl ValueModel {
    /// The value is one of the type: the same shape all the way down, every
    /// integer within its width, every fixed array of its declared length.
    pub open spec fn conforms(self, t: TypeModel) -> bool
        decreases self,
    {
        match (self, t) {
            (ValueModel::Uint(w, bits), TypeModel::Uint(n)) => bits == n && uint_fits(w, n),
            (ValueModel::Int(w, bits), TypeModel::Int(n)) => bits == n && int_fits(w, n),
            (ValueModel::Address(a), TypeModel::Address) => a.len() == 20,
            (ValueModel::Bool(_), TypeModel::Bool) => true,
            (ValueModel::FixedBytes(w, m), TypeModel::FixedBytes(n)) => m == n && bytes_fit(w, n),
            (ValueModel::Bytes(_), TypeModel::Bytes) => true,
            (ValueModel::String(_), TypeModel::String) => true,
            (ValueModel::Array(vs), TypeModel::Array(e)) => forall|i: int|
                0 <= i < vs.len() ==> (#[trigger] vs[i]).conforms(*e),
            (ValueModel::FixedArray(vs), TypeModel::FixedArray(e, k)) => vs.len() == k && forall|i: int|
                0 <= i < vs.len() ==> (#[trigger] vs[i]).conforms(*e),
            (ValueModel::Tuple(vs), TypeModel::Tuple(ts)) => vs.len() == ts.len() && forall|i: int|
                0 <= i < vs.len() ==> (#[trigger] vs[i]).conforms(ts[i]),
            _ => false,
        }
    }
}

/// Whether every byte of `w` from `from` up to `to` is `b`.
pub(crate) fn all_bytes_are(w: &[u8; 32], from: usize, to: usize, b: u8) -> (r: bool)
    requires
        from <= to <= 32,
    ensures
        r == all_bytes(w@, from as int, to as int, b),
{
    let mut i: usize = from;
    while i < to
        invariant
            from <= i <= to <= 32,
            all_bytes(w@, from as int, i as int, b),
        decreases to - i,
    {
        if w[i] != b {
            return false;
        }
        i += 1;
    }
    true
}

/// Whether every value of `vs` is one of the type `e`.
fn all_conform(vs: &Vec<TypedValue>, e: &TypeNode) -> (r: bool)
    ensures
        r == forall|i: int| 0 <= i < vs@.len() ==> (#[trigger] vs@[i])@.conforms(e@),
    decreases vs, 1nat,
{
    let mut i: usize = 0;
    while i < vs.len()
        invariant
            i <= vs.len(),
            forall|j: int| 0 <= j < i ==> (#[trigger] vs@[j])@.conforms(e@),
        decreases vs.len() - i,
    {
        if !vs[i].conforms_to(e) {
            return false;
        }
        i += 1;
    }
    true
}

impl TypedValue {
    /// Whether this value is one of the type `ty`.
    pub fn conforms_to(&self, ty: &TypeNode) -> (r: bool)
        ensures
            r == self@.conforms(ty@),
        decreases self, 0nat,
    {
        proof {
            match self {
                TypedValue::Uint(w, _) => array_len_matches_n(w),
                TypedValue::Int(w, _) => array_len_matches_n(w),
                TypedValue::FixedBytes(w, _) => array_len_matches_n(w),
                TypedValue::Address(a) => array_len_matches_n(a),
                _ => {},
            }
        }
        match (self, ty) {
            (TypedValue::Uint(w, bits), TypeNode::Uint(n)) => {
                *bits == *n && 8 <= *n && *n <= 256 && *n % 8 == 0 && all_bytes_are(w, 0, 32 - *n / 8, 0)
            },
            (TypedValue::Int(w, bits), TypeNode::Int(n)) => {
                if *bits == *n && 8 <= *n && *n <= 256 && *n % 8 == 0 {
                    let top: usize = 32 - *n / 8;
                    let sign: u8 = if w[top] >= 128 { 255 } else { 0 };
                    all_bytes_are(w, 0, top, sign)
                } else {
                    false
                }
            },
            (TypedValue::Address(_), TypeNode::Address) => true,
            (TypedValue::Bool(_), TypeNode::Bool) => true,
            (TypedValue::FixedBytes(w, m), TypeNode::FixedBytes(n)) => {
                *m == *n && 1 <= *n && *n <= 32 && all_bytes_are(w, *n, 32, 0)
            },
            (TypedValue::Bytes(_), TypeNode::Bytes) => true,
            (TypedValue::String(_), TypeNode::String) => true,
            (TypedValue::Array(vs), TypeNode::Array(e)) => {
                let r = all_conform(vs, e);
                proof {
                    let ms = self@->Array_0;
                    assert(ms.len() == vs@.len());
                    assert forall|i: int|
                        #![trigger ms[i]]
                        #![trigger vs@[i]]
                        0 <= i < ms.len() implies ms[i] == vs@[i]@ by {}
                }
                r
            },
            (TypedValue::FixedArray(vs), TypeNode::FixedArray(e, k)) => {
                let r = all_conform(vs, e);
                proof {
                    let ms = self@->FixedArray_0;
                    assert(ms.len() == vs@.len());
                    assert forall|i: int|
                        #![trigger ms[i]]
                        #![trigger vs@[i]]
                        0 <= i < ms.len() implies ms[i] == vs@[i]@ by {}
                }
                vs.len() == *k && r
            },
            (TypedValue::Tuple(vs), TypeNode::Tuple(ts)) => {
                if vs.len() != ts.len() {
                    return false;
                }
                let ghost ms = self@->Tuple_0;
                let ghost tm = ty@->Tuple_0;
                let mut i: usize = 0;
                while i < vs.len()
                    invariant
                        i <= vs.len(),
                        vs.len() == ts.len(),
                        *self == TypedValue::Tuple(*vs),
                        *ty == TypeNode::Tuple(*ts),
                        ms == self@->Tuple_0,
                        tm == ty@->Tuple_0,
                        forall|j: int| 0 <= j < i ==> (#[trigger] ms[j]).conforms(tm[j]),
                    decreases vs.len() - i,
                {
                    if !vs[i].conforms_to(&ts[i]) {
                        assert(!ms[i as int].conforms(tm[i as int]));
                        return false;
                    }
                    i += 1;
                }
                true
            },
            _ => false,
        }
    }
}

} // verus!
