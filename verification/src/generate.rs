//! Building a transaction from what a user typed: the recipient, the value,
//! the signature and one literal for each parameter.
use vstd::prelude::*;
use vstd::string::*;
use crate::abi_type::{TypeModel, TypeNode};
use crate::coerce::{coerce, failure, reading};
use crate::descriptor::{FunctionDescriptor, ParameterModel};
use crate::encode::{encode_function_args, encoded_args};
use crate::error::{CodecError, ErrorKind, ErrorModel};
use crate::text::{decimal_digits, decimal_string, is_decimal, is_decimal_text, texts};
use crate::types::{names_occur_once, BatchTransaction, InputModel, InputValue, ObjectMetadata};
use crate::value::TypedValue;

verus! {

/// The number that decimal digits stand for.
pub open spec fn decimal_value(s: Seq<char>) -> nat
    decreases s.len(),
{
    if s.len() == 0 {
        0
    } else {
        decimal_value(s.drop_last()) * 10 + (s.last() as nat - '0' as nat) as nat
    }
}

/// The text without the plus sign at its front, if it has one.
pub open spec fn count_digits(text: Seq<char>) -> Seq<char> {
    if text.len() > 0 && text[0] == '+' {
        text.subrange(1, text.len() as int)
    } else {
        text
    }
}

/// The number that a text stands for, where it is in decimal, with or without
/// a plus sign before the digits, and the number is below two to the power of 64.
pub open spec fn count(text: Seq<char>) -> Option<u64> {
    let digits = count_digits(text);
    if is_decimal(digits) && decimal_value(digits) <= u64::MAX {
        Some(decimal_value(digits) as u64)
    } else {
        None
    }
}

/// More digits never make a smaller number.
pub proof fn lemma_decimal_value_grows(s: Seq<char>, n: int)
    requires
        0 <= n <= s.len(),
    ensures
        decimal_value(s.subrange(0, n)) <= decimal_value(s),
    decreases s.len() - n,
{
    if n < s.len() {
        lemma_decimal_value_grows(s, n + 1);
        let longer = s.subrange(0, n + 1);
        assert(longer.drop_last() =~= s.subrange(0, n));
    } else {
        assert(s.subrange(0, n) =~= s);
    }
}

/// Reads a number of at most 64 bits in decimal: see [`count`].
pub fn parse_count(text: &str) -> (r: Option<u64>)
    ensures
        r == count(text@),
{
    broadcast use is_ascii_spec_bytes;

    if !text.is_ascii() {
        proof {
            let t = text@;
            if t.len() > 0 && t[0] == '+' {
                let digits = t.subrange(1, t.len() as int);
                if is_decimal(digits) {
                    assert forall|i: int| 0 <= i < t.len() implies '\0' <= #[trigger] t[i] <= '\u{7f}' by {
                        if i > 0 {
                            assert(t[i] == digits[i - 1]);
                        }
                    }
                }
            }
        }
        return None;
    }
    let bytes = text.as_bytes();
    let n: usize = bytes.len();
    let start: usize = if n > 0 && bytes[0] == 43u8 {
        1
    } else {
        0
    };
    let ghost digits = text@.subrange(start as int, n as int);
    assert(start == 0 ==> digits =~= text@);
    assert(digits == count_digits(text@));
    if start == n {
        return None;
    }
    let mut value: u64 = 0;
    let mut i: usize = start;
    assert(digits.subrange(0, 0) =~= Seq::<char>::empty());
    while i < n
        invariant
            start <= i <= n,
            n == text@.len(),
            text.is_ascii(),
            bytes@ == text.spec_bytes(),
            digits == text@.subrange(start as int, n as int),
            digits == count_digits(text@),
            forall|j: int| 0 <= j < i - start ==> '0' <= #[trigger] digits[j] <= '9',
            value == decimal_value(digits.subrange(0, i - start)),
        decreases n - i,
    {
        let b: u8 = bytes[i];
        assert(digits[i - start] == text@[i as int]);
        if !(48u8 <= b && b <= 57u8) {
            assert(!('0' <= digits[i - start] <= '9'));
            return None;
        }
        let d: u64 = (b - 48u8) as u64;
        proof {
            let longer = digits.subrange(0, i - start + 1);
            assert(longer.drop_last() =~= digits.subrange(0, i - start));
            assert(longer.last() == digits[i - start]);
            assert(decimal_value(longer) == value * 10 + d);
            lemma_decimal_value_grows(digits, i - start + 1);
        }
        if value > (u64::MAX - d) / 10 {
            return None;
        }
        value = value * 10 + d;
        i += 1;
    }
    assert(digits.subrange(0, n - start) =~= digits);
    Some(value)
}

/// What a recipient's text comes to: the twenty bytes of the address that it
/// reads as, or the failure of that reading.
pub open spec fn recipient(text: Seq<char>) -> Result<Seq<u8>, ErrorModel> {
    match reading(TypeModel::Address, text) {
        Ok(v) => Ok(v->Address_0),
        Err(e) => Err(e),
    }
}

/// What a value's text comes to: the 32-byte word of the number, where the
/// text is in decimal and reads as an unsigned integer of 256 bits; else an
/// integer out of range.
pub open spec fn amount(text: Seq<char>) -> Result<Seq<u8>, ErrorModel> {
    if !is_decimal(text) {
        Err(failure(TypeModel::Uint(256), text, ErrorKind::OutOfRange))
    } else {
        match reading(TypeModel::Uint(256), text) {
            Ok(v) => Ok(v->Uint_0),
            Err(e) => Err(e),
        }
    }
}

/// Reads the address of the contract to call: see [`recipient`].
pub fn parse_recipient(text: &str) -> (r: Result<[u8; 20], CodecError>)
    ensures
        match r {
            Ok(address) => recipient(text@) == Ok::<Seq<u8>, ErrorModel>(address@),
            Err(e) => recipient(text@) == Err::<Seq<u8>, ErrorModel>(e@),
        },
{
    let ty = TypeNode::Address;
    match coerce(&ty, text) {
        Ok(TypedValue::Address(address)) => Ok(address),
        Ok(_) => {
            assert(false);
            Err(CodecError::MalformedSignature { text: String::from_str(text) })
        },
        Err(e) => Err(e),
    }
}

/// Reads the value to send, in decimal: see [`amount`].
pub fn parse_amount(text: &str) -> (r: Result<[u8; 32], CodecError>)
    ensures
        match r {
            Ok(word) => amount(text@) == Ok::<Seq<u8>, ErrorModel>(word@),
            Err(e) => amount(text@) == Err::<Seq<u8>, ErrorModel>(e@),
        },
{
    let ty = TypeNode::Uint(256);
    if !is_decimal_text(text) {
        return Err(
            CodecError::Coercion { kind: ErrorKind::OutOfRange, literal: String::from_str(text), ty: ty.to_text() },
        );
    }
    match coerce(&ty, text) {
        Ok(TypedValue::Uint(word, _)) => Ok(word),
        Ok(_) => {
            assert(false);
            Err(CodecError::MalformedSignature { text: String::from_str(text) })
        },
        Err(e) => Err(e),
    }
}

/// The question for the literal of the parameter of number `number`.
pub open spec fn input_prompt_text(number: nat, name: Seq<char>) -> Seq<char> {
    "Enter the value for input #"@ + decimal_digits(number) + " ("@ + name + "):"@
}

/// The question for the literal of the parameter of number `number`, counted
/// from one, and of name `name`.
pub fn input_prompt(number: usize, name: &str) -> (s: String)
    ensures
        s@ == input_prompt_text(number as nat, name@),
{
    let mut s = String::from_str("Enter the value for input #");
    s.append(decimal_string(number as u64).as_str());
    s.append(" (");
    s.append(name);
    s.append("):");
    s
}

/// The title over the questions for the transaction of number `number`.
pub fn transaction_title(number: u64) -> (s: String)
    ensures
        s@ == "Transaction #"@ + decimal_digits(number as nat),
{
    let mut s = String::from_str("Transaction #");
    s.append(decimal_string(number).as_str());
    s
}

/// The inputs of a call: each parameter's name with the literal at its place.
pub open spec fn paired_inputs(inputs: Seq<ParameterModel>, literals: Seq<Seq<char>>) -> Seq<InputModel> {
    Seq::new(inputs.len(), |i: int| InputModel { name: inputs[i].name, value: literals[i] })
}

/// Builds the transaction that calls `function` with the literals `inputs`,
/// one for each parameter in order. The call data is what the literals encode
/// to, and the transaction's inputs hold each literal under its parameter's
/// name, so that where the parameters have distinct names no name stands in
/// the inputs twice. Where the encoding fails, so does the building, in the
/// same way.
pub fn build_transaction(
    metadata: ObjectMetadata,
    to: [u8; 20],
    value: [u8; 32],
    function: FunctionDescriptor,
    inputs: &Vec<String>,
) -> (r: Result<BatchTransaction, CodecError>)
    ensures
        match r {
            Ok(tx) => {
                &&& encoded_args(function@, texts(inputs@)) == Ok::<Seq<u8>, ErrorModel>(tx@.data)
                &&& tx@.metadata == metadata@
                &&& tx@.to == to@
                &&& tx@.value == value@
                &&& tx@.contract_method == function@
                &&& tx@.contract_inputs_values == paired_inputs(function@.inputs, texts(inputs@))
                &&& function@.names_distinct() ==> names_occur_once(tx@.contract_inputs_values)
            },
            Err(e) => encoded_args(function@, texts(inputs@)) == Err::<Seq<u8>, ErrorModel>(e@),
        },
{
    let data = encode_function_args(&function, inputs)?;
    assert(inputs.len() == function.inputs.len());
    let ghost goal = paired_inputs(function@.inputs, texts(inputs@));
    let mut entries: Vec<InputValue> = Vec::new();
    let mut i: usize = 0;
    while i < inputs.len()
        invariant
            i <= inputs.len(),
            inputs.len() == function.inputs.len(),
            entries@.len() == i,
            goal == paired_inputs(function@.inputs, texts(inputs@)),
            forall|j: int| 0 <= j < i ==> (#[trigger] entries@[j])@ == goal[j],
        decreases inputs.len() - i,
    {
        entries.push(InputValue { name: function.inputs[i].name.clone(), value: inputs[i].clone() });
        i += 1;
    }
    let tx = BatchTransaction {
        metadata,
        to,
        value,
        data,
        contract_method: function,
        contract_inputs_values: entries,
    };
    assert(tx@.contract_inputs_values =~= goal);
    proof {
        if tx@.contract_method.names_distinct() {
            let entries = tx@.contract_inputs_values;
            assert forall|a: int, b: int| 0 <= a < b < entries.len() implies (#[trigger] entries[a]).name != (
            #[trigger] entries[b]).name by {
                assert(entries[a].name == tx@.contract_method.inputs[a].name);
                assert(entries[b].name == tx@.contract_method.inputs[b].name);
            }
        }
    }
    Ok(tx)
}

} // verus!
