//! The grammar of ABI types.
use vstd::prelude::*;
use vstd::string::*;
use crate::error::{CodecError, ErrorModel};
use crate::sol::{parsed_type, sol_parse_type};
use crate::text::{decimal_digits, decimal_string};

verus! {

/// One node of the ABI type grammar.
#[derive(Debug, PartialEq, Eq)]
pub enum TypeNode {
    /// `uint<N>`: an unsigned integer of `N` bits.
    Uint(usize),
    /// `int<N>`: a signed integer of `N` bits.
    Int(usize),
    /// `address`: twenty bytes.
    Address,
    /// `bool`.
    Bool,
    /// `bytes<N>`: exactly `N` bytes.
    FixedBytes(usize),
    /// `bytes`: any number of bytes.
    Bytes,
    /// `string`: UTF-8 text.
    String,
    /// `function`: a function pointer; recognised, never well formed here.
    Function,
    /// `T[]`.
    Array(Box<TypeNode>),
    /// `T[k]`.
    FixedArray(Box<TypeNode>, usize),
    /// `(T1,...,Tn)`.
    Tuple(Vec<TypeNode>),
}

/// The mathematical model of a [`TypeNode`].
pub ghost enum TypeModel {
    Uint(nat),
    Int(nat),
    Address,
    Bool,
    FixedBytes(nat),
    Bytes,
    String,
    Function,
    Array(Box<TypeModel>),
    FixedArray(Box<TypeModel>, nat),
    Tuple(Seq<TypeModel>),
}

/// The model of a type: the same tree, over mathematical integers and sequences.
pub open spec fn type_model(t: TypeNode) -> TypeModel
    decreases t,
{
    match t {
        TypeNode::Uint(n) => TypeModel::Uint(n as nat),
        TypeNode::Int(n) => TypeModel::Int(n as nat),
        TypeNode::Address => TypeModel::Address,
        TypeNode::Bool => TypeModel::Bool,
        TypeNode::FixedBytes(n) => TypeModel::FixedBytes(n as nat),
        TypeNode::Bytes => TypeModel::Bytes,
        TypeNode::String => TypeModel::String,
        TypeNode::Function => TypeModel::Function,
        TypeNode::Array(e) => TypeModel::Array(Box::new(type_model(*e))),
        TypeNode::FixedArray(e, k) => TypeModel::FixedArray(Box::new(type_model(*e)), k as nat),
        TypeNode::Tuple(ts) => TypeModel::Tuple(
            Seq::new(
                ts@.len(),
                |i: int|
                    if 0 <= i < ts@.len() {
                        type_model(ts@[i])
                    } else {
                        TypeModel::Bool
                    },
            ),
        ),
    }
}

impl View for TypeNode {
    type V = TypeModel;

    open spec fn view(&self) -> TypeModel {
        type_model(*self)
    }
}

impl TypeModel {
    /// A type of the grammar: integer widths are multiples of eight up to 256,
    /// fixed bytes hold one to thirty-two bytes, and every part is such a type.
    pub open spec fn well_formed(self) -> bool
        decreases self,
    {
        match self {
            TypeModel::Uint(n) => 8 <= n <= 256 && n % 8 == 0,
            TypeModel::Int(n) => 8 <= n <= 256 && n % 8 == 0,
            TypeModel::FixedBytes(n) => 1 <= n <= 32,
            TypeModel::Function => false,
            TypeModel::Array(e) => e.well_formed(),
            TypeModel::FixedArray(e, k) => e.well_formed(),
            TypeModel::Tuple(ts) => forall|i: int| 0 <= i < ts.len() ==> (#[trigger] ts[i]).well_formed(),
            _ => true,
        }
    }

    /// The canonical text of a type, as it stands in a signature.
    pub open spec fn text(self) -> Seq<char>
        decreases self, 0nat,
    {
        match self {
            TypeModel::Uint(n) => "uint"@ + decimal_digits(n),
            TypeModel::Int(n) => "int"@ + decimal_digits(n),
            TypeModel::Address => "address"@,
            TypeModel::Bool => "bool"@,
            TypeModel::FixedBytes(n) => "bytes"@ + decimal_digits(n),
            TypeModel::Bytes => "bytes"@,
            TypeModel::String => "string"@,
            TypeModel::Function => "function"@,
            TypeModel::Array(e) => e.text() + "[]"@,
            TypeModel::FixedArray(e, k) => e.text() + "["@ + decimal_digits(k) + "]"@,
            TypeModel::Tuple(ts) => "("@ + Self::list_text(ts, ts.len()) + ")"@,
        }
    }

    /// The canonical texts of the first `n` types of `ts`, with a comma between
    /// one and the next.
    pub open spec fn list_text(ts: Seq<TypeModel>, n: nat) -> Seq<char>
        decreases ts, n,
    {
        if n == 0 || n > ts.len() {
            Seq::empty()
        } else if n == 1 {
            ts[0].text()
        } else {
            Self::list_text(ts, (n - 1) as nat) + ","@ + ts[n - 1].text()
        }
    }
}

impl TypeNode {
    /// Whether this is a type of the grammar.
    pub fn is_well_formed(&self) -> (b: bool)
        ensures
            b == self@.well_formed(),
        decreases self,
    {
        match self {
            TypeNode::Uint(n) => 8 <= *n && *n <= 256 && *n % 8 == 0,
            TypeNode::Int(n) => 8 <= *n && *n <= 256 && *n % 8 == 0,
            TypeNode::FixedBytes(n) => 1 <= *n && *n <= 32,
            TypeNode::Function => false,
            TypeNode::Array(e) => e.is_well_formed(),
            TypeNode::FixedArray(e, _) => e.is_well_formed(),
            TypeNode::Tuple(ts) => {
                let ghost models = self@->Tuple_0;
                let mut i: usize = 0;
                while i < ts.len()
                    invariant
                        i <= ts.len(),
                        *self == TypeNode::Tuple(*ts),
                        models == self@->Tuple_0,
                        forall|j: int| 0 <= j < i ==> (#[trigger] models[j]).well_formed(),
                    decreases ts.len() - i,
                {
                    if !ts[i].is_well_formed() {
                        assert(!models[i as int].well_formed());
                        return false;
                    }
                    i += 1;
                }
                true
            },
            _ => true,
        }
    }

    /// The canonical text of this type.
    pub fn to_text(&self) -> (s: String)
        ensures
            s@ == self@.text(),
        decreases self,
    {
        match self {
            TypeNode::Uint(n) => {
                let mut s = String::from_str("uint");
                s.append(decimal_string(*n as u64).as_str());
                s
            },
            TypeNode::Int(n) => {
                let mut s = String::from_str("int");
                s.append(decimal_string(*n as u64).as_str());
                s
            },
            TypeNode::Address => String::from_str("address"),
            TypeNode::Bool => String::from_str("bool"),
            TypeNode::FixedBytes(n) => {
                let mut s = String::from_str("bytes");
                s.append(decimal_string(*n as u64).as_str());
                s
            },
            TypeNode::Bytes => String::from_str("bytes"),
            TypeNode::String => String::from_str("string"),
            TypeNode::Function => String::from_str("function"),
            TypeNode::Array(e) => {
                let mut s = e.to_text();
                s.append("[]");
                s
            },
            TypeNode::FixedArray(e, k) => {
                let mut s = e.to_text();
                s.append("[");
                s.append(decimal_string(*k as u64).as_str());
                s.append("]");
                s
            },
            TypeNode::Tuple(ts) => {
                let ghost models = self@->Tuple_0;
                let mut s = String::from_str("(");
                let mut i: usize = 0;
                assert(s@ =~= "("@ + TypeModel::list_text(models, 0));
                while i < ts.len()
                    invariant
                        i <= ts.len(),
                        *self == TypeNode::Tuple(*ts),
                        models == self@->Tuple_0,
                        s@ == "("@ + TypeModel::list_text(models, i as nat),
                    decreases ts.len() - i,
                {
                    if i > 0 {
                        s.append(",");
                    }
                    s.append(ts[i].to_text().as_str());
                    assert(s@ =~= "("@ + TypeModel::list_text(models, (i + 1) as nat));
                    i += 1;
                }
                s.append(")");
                s
            },
        }
    }
}

/// The models of a sequence of types, in order.
pub open spec fn type_models(ts: Seq<TypeNode>) -> Seq<TypeModel> {
    Seq::new(ts.len(), |i: int| ts[i]@)
}

impl TypeNode {
    /// A copy of this type.
    pub fn duplicate(&self) -> (r: TypeNode)
        ensures
            r@ == self@,
        decreases self,
    {
        match self {
            TypeNode::Uint(n) => TypeNode::Uint(*n),
            TypeNode::Int(n) => TypeNode::Int(*n),
            TypeNode::Address => TypeNode::Address,
            TypeNode::Bool => TypeNode::Bool,
            TypeNode::FixedBytes(n) => TypeNode::FixedBytes(*n),
            TypeNode::Bytes => TypeNode::Bytes,
            TypeNode::String => TypeNode::String,
            TypeNode::Function => TypeNode::Function,
            TypeNode::Array(e) => TypeNode::Array(Box::new(e.duplicate())),
            TypeNode::FixedArray(e, k) => TypeNode::FixedArray(Box::new(e.duplicate()), *k),
            TypeNode::Tuple(ts) => {
                let mut copy: Vec<TypeNode> = Vec::new();
                let mut i: usize = 0;
                while i < ts.len()
                    invariant
                        i <= ts.len(),
                        *self == TypeNode::Tuple(*ts),
                        copy@.len() == i,
                        forall|j: int| 0 <= j < i ==> (#[trigger] copy@[j])@ == ts@[j]@,
                    decreases ts.len() - i,
                {
                    proof {
                        assert(self->Tuple_0 == *ts);
                    }
                    let t = ts[i].duplicate();
                    copy.push(t);
                    i += 1;
                }
                let r = TypeNode::Tuple(copy);
                assert(r@->Tuple_0 =~= self@->Tuple_0);
                r
            },
        }
    }
}

impl TypeNode {
    /// Whether this type and `other` are the same type.
    pub fn same(&self, other: &TypeNode) -> (r: bool)
        ensures
            r == (self@ == other@),
        decreases self,
    {
        match (self, other) {
            (TypeNode::Uint(n), TypeNode::Uint(m)) => *n == *m,
            (TypeNode::Int(n), TypeNode::Int(m)) => *n == *m,
            (TypeNode::Address, TypeNode::Address) => true,
            (TypeNode::Bool, TypeNode::Bool) => true,
            (TypeNode::FixedBytes(n), TypeNode::FixedBytes(m)) => *n == *m,
            (TypeNode::Bytes, TypeNode::Bytes) => true,
            (TypeNode::String, TypeNode::String) => true,
            (TypeNode::Function, TypeNode::Function) => true,
            (TypeNode::Array(e), TypeNode::Array(f)) => e.same(f),
            (TypeNode::FixedArray(e, k), TypeNode::FixedArray(f, l)) => *k == *l && e.same(f),
            (TypeNode::Tuple(ts), TypeNode::Tuple(us)) => {
                let ghost tm = self@->Tuple_0;
                let ghost um = other@->Tuple_0;
                if ts.len() != us.len() {
                    assert(tm.len() != um.len());
                    return false;
                }
                let mut i: usize = 0;
                while i < ts.len()
                    invariant
                        i <= ts.len(),
                        ts.len() == us.len(),
                        *self == TypeNode::Tuple(*ts),
                        *other == TypeNode::Tuple(*us),
                        tm == self@->Tuple_0,
                        um == other@->Tuple_0,
                        forall|j: int| 0 <= j < i ==> #[trigger] tm[j] == um[j],
                    decreases ts.len() - i,
                {
                    if !ts[i].same(&us[i]) {
                        assert(tm[i as int] != um[i as int]);
                        return false;
                    }
                    i += 1;
                }
                assert(tm =~= um);
                true
            },
            _ => false,
        }
    }
}

/// What the outside parser's answers come to: the type `parsed`, where it is
/// one of the grammar and `reparsed`, the answer to its canonical text, is the
/// same type again.
pub open spec fn accepted_type(parsed: Option<TypeModel>, reparsed: Option<TypeModel>) -> Option<TypeModel> {
    match parsed {
        Some(t) => if t.well_formed() && reparsed == Some(t) {
            Some(t)
        } else {
            None
        },
        None => None,
    }
}

/// The type that a text names: the one that the outside parser reads it as,
/// where that is a type of the grammar whose canonical text is read as the
/// same type again. Any other text names no type.
pub open spec fn named_type(text: Seq<char>) -> Option<TypeModel> {
    match parsed_type(text) {
        Some(t) => accepted_type(Some(t), parsed_type(t.text())),
        None => None,
    }
}

/// The model of what the outside parser hands back.
pub open spec fn parsed_type_model(parsed: Option<TypeNode>) -> Option<TypeModel> {
    match parsed {
        Some(t) => Some(t@),
        None => None,
    }
}

impl TypeNode {
    /// Decides on a type given the outside parser's answers for a text and for
    /// the canonical text of its first answer: see [`accepted_type`]. A text
    /// that names no type is a malformed signature.
    pub fn check_parsed(text: &str, parsed: Option<TypeNode>, reparsed: Option<TypeNode>) -> (r: Result<
        TypeNode,
        CodecError,
    >)
        ensures
            match r {
                Ok(t) => accepted_type(parsed_type_model(parsed), parsed_type_model(reparsed)) == Some(t@),
                Err(e) => accepted_type(parsed_type_model(parsed), parsed_type_model(reparsed)) is None && e@
                    == (ErrorModel::MalformedSignature { text: text@ }),
            },
    {
        match (parsed, reparsed) {
            (Some(t), Some(u)) => {
                if t.is_well_formed() && u.same(&t) {
                    Ok(t)
                } else {
                    Err(CodecError::MalformedSignature { text: String::from_str(text) })
                }
            },
            _ => Err(CodecError::MalformedSignature { text: String::from_str(text) }),
        }
    }

    /// Parses the text of a type: see [`named_type`]. A text that names no
    /// type is a malformed signature.
    pub fn parse(text: &str) -> (r: Result<TypeNode, CodecError>)
        ensures
            match r {
                Ok(t) => named_type(text@) == Some(t@),
                Err(e) => named_type(text@) is None && e@ == (ErrorModel::MalformedSignature { text: text@ }),
            },
    {
        let parsed = sol_parse_type(text);
        let reparsed = match &parsed {
            Some(t) => sol_parse_type(t.to_text().as_str()),
            None => None,
        };
        TypeNode::check_parsed(text, parsed, reparsed)
    }
}

impl TypeModel {
    /// Whether the type is a list or a tuple.
    pub open spec fn compound(self) -> bool {
        self is Array || self is FixedArray || self is Tuple
    }

    /// Whether an integer type stands anywhere in the type.
    pub open spec fn has_integer(self) -> bool
        decreases self,
    {
        match self {
            TypeModel::Uint(_) => true,
            TypeModel::Int(_) => true,
            TypeModel::Array(e) => e.has_integer(),
            TypeModel::FixedArray(e, _) => e.has_integer(),
            TypeModel::Tuple(ts) => exists|i: int| 0 <= i < ts.len() && (#[trigger] ts[i]).has_integer(),
            _ => false,
        }
    }

    /// The shape of the type: the same lists and tuples, with `string` in
    /// place of every leaf. A literal read against it is only taken apart.
    pub open spec fn shape(self) -> TypeModel
        decreases self,
    {
        match self {
            TypeModel::Array(e) => TypeModel::Array(Box::new(e.shape())),
            TypeModel::FixedArray(e, k) => TypeModel::FixedArray(Box::new(e.shape()), k),
            TypeModel::Tuple(ts) => TypeModel::Tuple(
                Seq::new(ts.len(), |i: int| if 0 <= i < ts.len() { ts[i].shape() } else { TypeModel::String }),
            ),
            _ => TypeModel::String,
        }
    }
}

/// The shape of a type holds no integer, and the shape of a list or tuple is one.
pub proof fn lemma_shape_holds_no_integer(t: TypeModel)
    ensures
        !t.shape().has_integer(),
        t.compound() ==> t.shape().compound(),
    decreases t,
{
    match t {
        TypeModel::Array(e) => lemma_shape_holds_no_integer(*e),
        TypeModel::FixedArray(e, _) => lemma_shape_holds_no_integer(*e),
        TypeModel::Tuple(ts) => {
            let rs = t.shape()->Tuple_0;
            assert forall|i: int| 0 <= i < rs.len() implies !(#[trigger] rs[i]).has_integer() by {
                lemma_shape_holds_no_integer(ts[i]);
            }
        },
        _ => {},
    }
}

impl TypeNode {
    /// Whether this type is a list or a tuple.
    pub fn is_compound(&self) -> (r: bool)
        ensures
            r == self@.compound(),
    {
        match self {
            TypeNode::Array(_) => true,
            TypeNode::FixedArray(_, _) => true,
            TypeNode::Tuple(_) => true,
            _ => false,
        }
    }

    /// The shape of this type: see [`TypeModel::shape`].
    pub fn to_shape(&self) -> (r: TypeNode)
        ensures
            r@ == self@.shape(),
        decreases self,
    {
        match self {
            TypeNode::Array(e) => TypeNode::Array(Box::new(e.to_shape())),
            TypeNode::FixedArray(e, k) => TypeNode::FixedArray(Box::new(e.to_shape()), *k),
            TypeNode::Tuple(ts) => {
                let mut shapes: Vec<TypeNode> = Vec::new();
                let mut i: usize = 0;
                while i < ts.len()
                    invariant
                        i <= ts.len(),
                        *self == TypeNode::Tuple(*ts),
                        shapes@.len() == i,
                        forall|j: int| 0 <= j < i ==> (#[trigger] shapes@[j])@ == ts@[j]@.shape(),
                    decreases ts.len() - i,
                {
                    proof {
                        assert(self->Tuple_0 == *ts);
                    }
                    let t = ts[i].to_shape();
                    shapes.push(t);
                    i += 1;
                }
                let r = TypeNode::Tuple(shapes);
                assert(r@->Tuple_0 =~= self@.shape()->Tuple_0);
                r
            },
            _ => TypeNode::String,
        }
    }
}

} // verus!
