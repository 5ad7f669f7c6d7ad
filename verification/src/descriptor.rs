//! Function descriptors: a name, the parameters in order, the returned types.
use vstd::prelude::*;
use vstd::string::*;
use vstd::utf8::{encode_utf8, is_ascii_chars};
use crate::abi_type::{named_type, type_models, TypeModel, TypeNode};
use crate::error::{CodecError, ErrorModel};
use crate::sol::{
    keccak256, keccak256_digest, parsed_function, sol_parse_function, RawSignature, SignatureModel,
};
use crate::text::{decimal_digits, decimal_string, texts};

verus! {

/// One parameter of a function.
#[derive(Debug, PartialEq, Eq)]
pub struct Parameter {
    /// The name by which the parameter's literal is found.
    pub name: String,
    /// The parameter's type.
    pub ty: TypeNode,
}

/// The mathematical model of a [`Parameter`].
pub ghost struct ParameterModel {
    pub name: Seq<char>,
    pub ty: TypeModel,
}

impl View for Parameter {
    type V = ParameterModel;

    open spec fn view(&self) -> ParameterModel {
        ParameterModel { name: self.name@, ty: self.ty@ }
    }
}

/// A function as a signature describes it.
#[derive(Debug, PartialEq, Eq)]
pub struct FunctionDescriptor {
    /// The function's name.
    pub name: String,
    /// The parameters, in the order of the signature.
    pub inputs: Vec<Parameter>,
    /// The types of the returned values, in order.
    pub outputs: Vec<TypeNode>,
}

/// The mathematical model of a [`FunctionDescriptor`].
pub ghost struct DescriptorModel {
    pub name: Seq<char>,
    pub inputs: Seq<ParameterModel>,
    pub outputs: Seq<TypeModel>,
}

impl View for FunctionDescriptor {
    type V = DescriptorModel;

    open spec fn view(&self) -> DescriptorModel {
        DescriptorModel {
            name: self.name@,
            inputs: Seq::new(self.inputs@.len(), |i: int| self.inputs@[i]@),
            outputs: type_models(self.outputs@),
        }
    }
}

/// The name under which a parameter goes: the one it was given, or, where it
/// was given none, `unnamed_param` and its place counted from zero.
pub open spec fn parameter_name(given: Seq<char>, index: nat) -> Seq<char> {
    if given.len() == 0 {
        "unnamed_param"@ + decimal_digits(index)
    } else {
        given
    }
}

impl DescriptorModel {
    /// The types of the parameters, in order.
    pub open spec fn input_types(self) -> Seq<TypeModel> {
        Seq::new(self.inputs.len(), |i: int| self.inputs[i].ty)
    }

    /// No two parameters go under one name.
    pub open spec fn names_distinct(self) -> bool {
        forall|i: int, j: int|
            0 <= i < j < self.inputs.len() ==> (#[trigger] self.inputs[i]).name != (
            #[trigger] self.inputs[j]).name
    }

    /// Every type is one of the grammar, and no two parameters go under one name.
    pub open spec fn well_formed(self) -> bool {
        &&& forall|i: int| 0 <= i < self.inputs.len() ==> (#[trigger] self.inputs[i]).ty.well_formed()
        &&& forall|i: int| 0 <= i < self.outputs.len() ==> (#[trigger] self.outputs[i]).well_formed()
        &&& self.names_distinct()
    }

    /// The canonical signature: the name and, in brackets, the canonical texts
    /// of the parameters' types with a comma between one and the next. No
    /// parameter name and no returned type is part of it.
    pub open spec fn canonical_signature(self) -> Seq<char> {
        self.name + "("@ + TypeModel::list_text(self.input_types(), self.inputs.len()) + ")"@
    }

    /// The selector: the first four bytes of the Keccak-256 digest of the
    /// canonical signature's UTF-8 bytes.
    pub open spec fn selector(self) -> Seq<u8> {
        keccak256_digest(encode_utf8(self.canonical_signature())).subrange(0, 4)
    }
}

impl FunctionDescriptor {
    /// The canonical signature of this function.
    pub fn canonical_signature(&self) -> (s: String)
        ensures
            s@ == self@.canonical_signature(),
    {
        let ghost types = self@.input_types();
        let mut s = self.name.clone();
        s.append("(");
        let mut i: usize = 0;
        assert(s@ =~= self.name@ + "("@ + TypeModel::list_text(types, 0));
        while i < self.inputs.len()
            invariant
                i <= self.inputs.len(),
                types == self@.input_types(),
                s@ == self.name@ + "("@ + TypeModel::list_text(types, i as nat),
            decreases self.inputs.len() - i,
        {
            if i > 0 {
                s.append(",");
            }
            s.append(self.inputs[i].ty.to_text().as_str());
            assert(types[i as int] == self.inputs@[i as int].ty@);
            assert(s@ =~= self.name@ + "("@ + TypeModel::list_text(types, (i + 1) as nat));
            i += 1;
        }
        s.append(")");
        s
    }
}

impl FunctionDescriptor {
    /// The selector of this function.
    pub fn selector(&self) -> (r: [u8; 4])
        ensures
            r@ == self@.selector(),
    {
        let signature = self.canonical_signature();
        let digest = keccak256(signature.as_str().as_bytes());
        let r: [u8; 4] = [digest[0], digest[1], digest[2], digest[3]];
        assert(r@ =~= self@.selector());
        r
    }
}

/// The descriptor that a name, the given parameter names, their types and the
/// returned types make, if they make one: there is a type for each name, the
/// parameters go under [`parameter_name`], and the whole is well formed.
pub open spec fn assembled(
    name: Seq<char>,
    names: Seq<Seq<char>>,
    types: Seq<TypeModel>,
    outputs: Seq<TypeModel>,
) -> Option<DescriptorModel> {
    let d = DescriptorModel {
        name: name,
        inputs: Seq::new(
            names.len(),
            |i: int| ParameterModel { name: parameter_name(names[i], i as nat), ty: types[i] },
        ),
        outputs: outputs,
    };
    if names.len() == types.len() && d.well_formed() {
        Some(d)
    } else {
        None
    }
}

/// The name of the parameter at `index`, given `given`.
pub fn name_parameter(given: &String, index: usize) -> (name: String)
    ensures
        name@ == parameter_name(given@, index as nat),
{
    if given.as_str().unicode_len() == 0 {
        let mut name = String::from_str("unnamed_param");
        name.append(decimal_string(index as u64).as_str());
        name
    } else {
        given.clone()
    }
}

/// Whether every type of `types` is one of the grammar.
pub fn all_well_formed(types: &Vec<TypeNode>) -> (r: bool)
    ensures
        r == forall|i: int| 0 <= i < types@.len() ==> (#[trigger] types@[i])@.well_formed(),
{
    let mut i: usize = 0;
    while i < types.len()
        invariant
            i <= types.len(),
            forall|j: int| 0 <= j < i ==> (#[trigger] types@[j])@.well_formed(),
        decreases types.len() - i,
    {
        if !types[i].is_well_formed() {
            return false;
        }
        i += 1;
    }
    true
}

/// Whether no two parameters of `inputs` go under one name.
pub fn names_distinct(inputs: &Vec<Parameter>) -> (r: bool)
    ensures
        r == forall|i: int, j: int|
            0 <= i < j < inputs@.len() ==> (#[trigger] inputs@[i]).name@ != (#[trigger] inputs@[j]).name@,
{
    let mut j: usize = 0;
    while j < inputs.len()
        invariant
            j <= inputs.len(),
            forall|a: int, b: int|
                0 <= a < b < j ==> (#[trigger] inputs@[a]).name@ != (#[trigger] inputs@[b]).name@,
        decreases inputs.len() - j,
    {
        let mut i: usize = 0;
        while i < j
            invariant
                i <= j < inputs.len(),
                forall|a: int| 0 <= a < i ==> (#[trigger] inputs@[a]).name@ != inputs@[j as int].name@,
            decreases j - i,
        {
            if inputs[i].name == inputs[j].name {
                return false;
            }
            i += 1;
        }
        j += 1;
    }
    true
}

/// Makes a descriptor of a name, the given parameter names, their types and
/// the returned types: see [`assembled`].
pub fn assemble(name: String, names: &Vec<String>, types: &Vec<TypeNode>, outputs: Vec<TypeNode>) -> (r:
    Option<FunctionDescriptor>)
    ensures
        match r {
            Some(d) => assembled(name@, texts(names@), type_models(types@), type_models(outputs@))
                == Some(d@),
            None => assembled(name@, texts(names@), type_models(types@), type_models(outputs@))
                is None,
        },
{
    if names.len() != types.len() {
        return None;
    }
    let ghost goal = DescriptorModel {
        name: name@,
        inputs: Seq::new(
            names@.len(),
            |i: int|
                ParameterModel {
                    name: parameter_name(texts(names@)[i], i as nat),
                    ty: type_models(types@)[i],
                },
        ),
        outputs: type_models(outputs@),
    };
    let mut inputs: Vec<Parameter> = Vec::new();
    let mut i: usize = 0;
    while i < names.len()
        invariant
            i <= names.len(),
            names.len() == types.len(),
            inputs@.len() == i,
            goal.inputs.len() == names.len(),
            forall|j: int| 0 <= j < names.len() ==> (#[trigger] goal.inputs[j]) == (ParameterModel {
                name: parameter_name(names@[j]@, j as nat),
                ty: types@[j]@,
            }),
            forall|j: int| 0 <= j < i ==> (#[trigger] inputs@[j])@ == goal.inputs[j],
        decreases names.len() - i,
    {
        inputs.push(Parameter { name: name_parameter(&names[i], i), ty: types[i].duplicate() });
        i += 1;
    }
    let well_typed = all_well_formed(types) && all_well_formed(&outputs);
    let distinct = names_distinct(&inputs);
    let ghost params = inputs@;
    let ghost returned = outputs@;
    let d = FunctionDescriptor { name, inputs, outputs };
    assert(d@.inputs =~= goal.inputs);
    assert(d@ == goal);
    if well_typed && distinct {
        assert(goal.well_formed());
        Some(d)
    } else {
        assert(!goal.well_formed()) by {
            if goal.well_formed() {
                assert forall|j: int| 0 <= j < types@.len() implies (#[trigger] types@[j])@.well_formed() by {
                    assert(goal.inputs[j].ty == types@[j]@);
                }
                assert forall|j: int| 0 <= j < returned.len() implies (#[trigger] returned[j])@.well_formed() by {
                    assert(goal.outputs[j] == returned[j]@);
                }
                assert forall|a: int, b: int| 0 <= a < b < params.len() implies (#[trigger] params[a]).name@ != (
                #[trigger] params[b]).name@ by {
                    assert(params[a]@ == goal.inputs[a]);
                    assert(params[b]@ == goal.inputs[b]);
                }
            }
        }
        None
    }
}

/// The types that the texts name, if each of them names one.
pub open spec fn resolved(types: Seq<Seq<char>>) -> Option<Seq<TypeModel>> {
    if forall|i: int| 0 <= i < types.len() ==> named_type(#[trigger] types[i]) is Some {
        Some(Seq::new(types.len(), |i: int| named_type(types[i])->Some_0))
    } else {
        None
    }
}

/// How many brackets of a text are open at its end: those opened, less those closed.
pub open spec fn depth(text: Seq<char>) -> int
    decreases text.len(),
{
    if text.len() == 0 {
        0
    } else {
        depth(text.drop_last()) + if text.last() == '(' {
            1int
        } else if text.last() == ')' {
            -1int
        } else {
            0int
        }
    }
}

/// The brackets of a text are balanced: none is closed that was not opened,
/// and none is left open.
pub open spec fn balanced(text: Seq<char>) -> bool {
    &&& depth(text) == 0
    &&& forall|n: int| 0 <= n <= text.len() ==> depth(#[trigger] text.subrange(0, n)) >= 0
}

/// A text that may be a signature: ASCII only, with balanced brackets.
pub open spec fn plausible(text: Seq<char>) -> bool {
    is_ascii_chars(text) && balanced(text)
}

/// Whether a text may be a signature: see [`plausible`].
pub fn is_plausible(text: &str) -> (r: bool)
    ensures
        r == plausible(text@),
{
    broadcast use is_ascii_spec_bytes;

    if !text.is_ascii() {
        return false;
    }
    let bytes = text.as_bytes();
    let n: usize = bytes.len();
    let mut open: usize = 0;
    let mut i: usize = 0;
    assert(text@.subrange(0, 0) =~= Seq::<char>::empty());
    while i < n
        invariant
            i <= n,
            n == text@.len(),
            text.is_ascii(),
            bytes@ == text.spec_bytes(),
            open <= i,
            open == depth(text@.subrange(0, i as int)),
            forall|k: int| 0 <= k <= i ==> depth(#[trigger] text@.subrange(0, k)) >= 0,
        decreases n - i,
    {
        let b: u8 = bytes[i];
        let ghost longer = text@.subrange(0, i + 1);
        assert(longer.drop_last() =~= text@.subrange(0, i as int));
        assert(longer.last() == text@[i as int]);
        assert((b == 40u8) == (text@[i as int] == '('));
        assert((b == 41u8) == (text@[i as int] == ')'));
        if b == 40u8 {
            open += 1;
        } else if b == 41u8 {
            if open == 0 {
                assert(depth(longer) < 0);
                return false;
            }
            open -= 1;
        }
        i += 1;
    }
    assert(text@.subrange(0, n as int) =~= text@);
    open == 0
}

/// What a signature's text comes to, where `parsed` is what the outside parser
/// made of it: the descriptor assembled from its parts, or a malformed
/// signature with the text. The text is malformed where it is not plausible,
/// where the parser failed, where a text in it names no type, and where the
/// parts make no descriptor.
pub open spec fn signature_outcome(text: Seq<char>, parsed: Option<SignatureModel>) -> Result<
    DescriptorModel,
    ErrorModel,
> {
    let malformed = Err(ErrorModel::MalformedSignature { text: text });
    match parsed {
        _ if !plausible(text) => malformed,
        Some(raw) => match (resolved(raw.types), resolved(raw.outputs)) {
            (Some(types), Some(outputs)) => match assembled(raw.name, raw.names, types, outputs) {
                Some(d) => Ok(d),
                None => malformed,
            },
            _ => malformed,
        },
        None => malformed,
    }
}

/// The model of a parse's result.
pub open spec fn descriptor_result(r: Result<FunctionDescriptor, CodecError>) -> Result<
    DescriptorModel,
    ErrorModel,
> {
    match r {
        Ok(d) => Ok(d@),
        Err(e) => Err(e@),
    }
}

/// The model of what the outside parser hands back.
pub open spec fn parsed_model(parsed: Option<RawSignature>) -> Option<SignatureModel> {
    match parsed {
        Some(raw) => Some(raw@),
        None => None,
    }
}

/// Resolves each text to the type it names: see [`resolved`].
pub fn resolve_types(types: &Vec<String>) -> (r: Option<Vec<TypeNode>>)
    ensures
        match r {
            Some(nodes) => resolved(texts(types@)) == Some(type_models(nodes@)),
            None => resolved(texts(types@)) is None,
        },
{
    let mut nodes: Vec<TypeNode> = Vec::new();
    let mut i: usize = 0;
    while i < types.len()
        invariant
            i <= types.len(),
            nodes@.len() == i,
            forall|j: int| 0 <= j < i ==> named_type(types@[j]@) == Some((#[trigger] nodes@[j])@),
        decreases types.len() - i,
    {
        match TypeNode::parse(types[i].as_str()) {
            Ok(node) => nodes.push(node),
            Err(_) => {
                assert(named_type(texts(types@)[i as int]) is None);
                return None;
            },
        }
        i += 1;
    }
    proof {
        let t = texts(types@);
        assert forall|j: int| 0 <= j < t.len() implies named_type(#[trigger] t[j]) is Some by {
            assert(named_type(types@[j]@) == Some(nodes@[j]@));
        }
        assert(resolved(t)->Some_0 =~= type_models(nodes@)) by {
            assert forall|j: int| 0 <= j < t.len() implies resolved(t)->Some_0[j] == type_models(nodes@)[j] by {
                assert(named_type(types@[j]@) == Some(nodes@[j]@));
            }
        }
    }
    Some(nodes)
}

impl FunctionDescriptor {
    /// Makes a descriptor of what the outside parser made of a signature's
    /// text: see [`signature_outcome`].
    pub fn from_parsed(text: &str, parsed: Option<RawSignature>) -> (r: Result<FunctionDescriptor, CodecError>)
        ensures
            descriptor_result(r) == signature_outcome(text@, parsed_model(parsed)),
            r matches Ok(d) ==> d@.well_formed(),
    {
        if !is_plausible(text) {
            return Err(CodecError::MalformedSignature { text: String::from_str(text) });
        }
        match parsed {
            Some(raw) => {
                let types = resolve_types(&raw.types);
                let outputs = resolve_types(&raw.outputs);
                match (types, outputs) {
                    (Some(types), Some(outputs)) => match assemble(raw.name, &raw.names, &types, outputs) {
                        Some(d) => Ok(d),
                        None => Err(CodecError::MalformedSignature { text: String::from_str(text) }),
                    },
                    _ => Err(CodecError::MalformedSignature { text: String::from_str(text) }),
                }
            },
            None => Err(CodecError::MalformedSignature { text: String::from_str(text) }),
        }
    }

    /// Parses a signature, `name(type name, ...)` with the returned types in a
    /// second pair of brackets if there are any: see [`signature_outcome`].
    pub fn parse(text: &str) -> (r: Result<FunctionDescriptor, CodecError>)
        ensures
            descriptor_result(r) == signature_outcome(text@, parsed_function(text@)),
            r matches Ok(d) ==> d@.well_formed(),
    {
        let parsed = sol_parse_function(text);
        FunctionDescriptor::from_parsed(text, parsed)
    }
}

} // verus!
