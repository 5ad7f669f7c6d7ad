//! Encoding a call: the selector, then the arguments in head and tail layout.
use vstd::prelude::*;
use crate::abi_type::TypeModel;
use crate::coerce::{coerce, lemma_reading_conforms, reading};
use crate::descriptor::{DescriptorModel, FunctionDescriptor};
use crate::error::{CodecError, ErrorModel};
use crate::sol::{abi_encoded, sol_encode};
use crate::text::texts;
use crate::value::{value_models, TypedValue, ValueModel};

verus! {

/// The call data of a function applied to values: the selector, then the
/// encoding of the values as the arguments of a call.
pub open spec fn call_data(d: DescriptorModel, values: Seq<ValueModel>) -> Seq<u8> {
    d.selector() + abi_encoded(values)
}

/// What encoding comes to: the call data where there is one value for each
/// parameter, an arity mismatch with both counts where there is not.
pub open spec fn encoding(d: DescriptorModel, values: Seq<ValueModel>) -> Result<Seq<u8>, ErrorModel> {
    if values.len() != d.inputs.len() {
        Err(ErrorModel::ArityMismatch { parameters: d.inputs.len(), values: values.len() })
    } else {
        Ok(call_data(d, values))
    }
}

/// There is one value for each parameter, and each is one of its parameter's type.
pub open spec fn values_conform(d: DescriptorModel, values: Seq<ValueModel>) -> bool {
    &&& values.len() == d.inputs.len()
    &&& forall|i: int| 0 <= i < values.len() ==> (#[trigger] values[i]).conforms(d.inputs[i].ty)
}

/// The model of an encoding's result.
pub open spec fn bytes_result(r: Result<Vec<u8>, CodecError>) -> Result<Seq<u8>, ErrorModel> {
    match r {
        Ok(bytes) => Ok(bytes@),
        Err(e) => Err(e@),
    }
}

/// The model of a result that holds values.
pub open spec fn values_result(r: Result<Vec<TypedValue>, CodecError>) -> Result<Seq<ValueModel>, ErrorModel> {
    match r {
        Ok(values) => Ok(value_models(values@)),
        Err(e) => Err(e@),
    }
}

/// Encodes values as the arguments of a call, without a selector.
pub fn encode_values(values: &Vec<TypedValue>) -> (bytes: Vec<u8>)
    ensures
        bytes@ == abi_encoded(value_models(values@)),
{
    sol_encode(values)
}

/// Encodes a call of `descriptor` with `values`: see [`encoding`]. Values that
/// are not of the parameters' types are the caller's mistake.
pub fn encode(descriptor: &FunctionDescriptor, values: &Vec<TypedValue>) -> (r: Result<Vec<u8>, CodecError>)
    requires
        values@.len() == descriptor@.inputs.len() ==> values_conform(descriptor@, value_models(values@)),
    ensures
        bytes_result(r) == encoding(descriptor@, value_models(values@)),
{
    if values.len() != descriptor.inputs.len() {
        return Err(CodecError::ArityMismatch { parameters: descriptor.inputs.len(), values: values.len() });
    }
    let selector = descriptor.selector();
    let mut arguments = encode_values(values);
    let mut data: Vec<u8> = Vec::new();
    data.push(selector[0]);
    data.push(selector[1]);
    data.push(selector[2]);
    data.push(selector[3]);
    let ghost head = data@;
    assert(head =~= descriptor@.selector());
    data.append(&mut arguments);
    Ok(data)
}

/// The values that the first `n` literals come to against the first `n` types,
/// in order, or the failure of the first literal that fails.
pub open spec fn coerced_values(types: Seq<TypeModel>, literals: Seq<Seq<char>>, n: nat) -> Result<
    Seq<ValueModel>,
    ErrorModel,
>
    decreases n,
{
    if n == 0 {
        Ok(Seq::empty())
    } else {
        match coerced_values(types, literals, (n - 1) as nat) {
            Err(e) => Err(e),
            Ok(values) => match reading(types[n - 1], literals[n - 1]) {
                Ok(v) => Ok(values.push(v)),
                Err(e) => Err(e),
            },
        }
    }
}

/// How many literals are read: one for each parameter, as far as there are literals.
pub open spec fn paired(d: DescriptorModel, literals: Seq<Seq<char>>) -> nat {
    if d.inputs.len() <= literals.len() {
        d.inputs.len()
    } else {
        literals.len()
    }
}

/// What encoding a call from literals comes to. The literals are read against
/// the parameters' types pair by pair, and the first failure is the result.
/// Where all are read, a number of literals other than the number of
/// parameters is an arity mismatch; else the result is the call data.
pub open spec fn encoded_args(d: DescriptorModel, literals: Seq<Seq<char>>) -> Result<Seq<u8>, ErrorModel> {
    match coerced_values(d.input_types(), literals, paired(d, literals)) {
        Err(e) => Err(e),
        Ok(values) => if literals.len() != d.inputs.len() {
            Err(ErrorModel::ArityMismatch { parameters: d.inputs.len(), values: literals.len() })
        } else {
            Ok(call_data(d, values))
        },
    }
}

/// The values that readings give, where all succeed, are as many as were
/// read, each one of the type it was read against.
pub proof fn lemma_coerced_values_conform(types: Seq<TypeModel>, literals: Seq<Seq<char>>, n: nat)
    ensures
        coerced_values(types, literals, n) matches Ok(values) ==> values.len() == n && forall|i: int|
            0 <= i < n ==> (#[trigger] values[i]).conforms(types[i]),
    decreases n,
{
    if n > 0 {
        lemma_coerced_values_conform(types, literals, (n - 1) as nat);
        lemma_reading_conforms(types[n - 1], literals[n - 1]);
    }
}

/// Reads the literals against the parameters' types, pair by pair: see
/// [`coerced_values`].
pub fn coerce_all(descriptor: &FunctionDescriptor, args: &Vec<String>) -> (r: Result<Vec<TypedValue>, CodecError>)
    ensures
        values_result(r) == coerced_values(
            descriptor@.input_types(),
            texts(args@),
            paired(descriptor@, texts(args@)),
        ),
{
    let n: usize = if descriptor.inputs.len() <= args.len() {
        descriptor.inputs.len()
    } else {
        args.len()
    };
    let ghost types = descriptor@.input_types();
    let ghost literals = texts(args@);
    let mut values: Vec<TypedValue> = Vec::new();
    let mut i: usize = 0;
    assert(value_models(values@) =~= Seq::empty());
    while i < n
        invariant
            i <= n,
            n <= descriptor.inputs.len(),
            n <= args.len(),
            n == paired(descriptor@, texts(args@)),
            types == descriptor@.input_types(),
            literals == texts(args@),
            coerced_values(types, literals, i as nat) == Ok::<Seq<ValueModel>, ErrorModel>(value_models(values@)),
        decreases n - i,
    {
        assert(types[i as int] == descriptor.inputs@[i as int].ty@);
        assert(literals[i as int] == args@[i as int]@);
        match coerce(&descriptor.inputs[i].ty, args[i].as_str()) {
            Ok(v) => {
                let ghost before = value_models(values@);
                values.push(v);
                assert(value_models(values@) =~= before.push(v@));
            },
            Err(e) => {
                proof {
                    assert(coerced_values(types, literals, (i + 1) as nat) == Err::<Seq<ValueModel>, ErrorModel>(
                        e@,
                    ));
                    lemma_coerced_values_stay_failed(types, literals, (i + 1) as nat, n as nat);
                }
                return Err(e);
            },
        }
        i += 1;
    }
    Ok(values)
}

/// Once a reading has failed, reading further changes nothing.
pub proof fn lemma_coerced_values_stay_failed(types: Seq<TypeModel>, literals: Seq<Seq<char>>, k: nat, n: nat)
    requires
        k <= n,
        coerced_values(types, literals, k) is Err,
    ensures
        coerced_values(types, literals, n) == coerced_values(types, literals, k),
    decreases n,
{
    if k < n {
        lemma_coerced_values_stay_failed(types, literals, k, (n - 1) as nat);
    }
}

/// Given a function and its arguments as literals, reads the literals and
/// encodes the call: see [`encoded_args`].
pub fn encode_function_args(func: &FunctionDescriptor, args: &Vec<String>) -> (r: Result<Vec<u8>, CodecError>)
    ensures
        bytes_result(r) == encoded_args(func@, texts(args@)),
{
    let values = coerce_all(func, args)?;
    proof {
        lemma_coerced_values_conform(func@.input_types(), texts(args@), paired(func@, texts(args@)));
    }
    if args.len() != func.inputs.len() {
        return Err(CodecError::ArityMismatch { parameters: func.inputs.len(), values: args.len() });
    }
    encode(func, &values)
}

} // verus!
