//! What holds of the codec as a whole, proved from the contracts of its parts.
use vstd::prelude::*;
use crate::abi_type::{named_type, TypeModel};
use crate::coerce::{coercion, failure, filled};
use crate::descriptor::{assembled, balanced, parameter_name, signature_outcome, DescriptorModel, ParameterModel};
use crate::sol::{parsed_function, SignatureModel};
use crate::dialogue::{answered, collected, continued, extended, DraftModel, ProgressModel, StageModel};
use crate::encode::{call_data, encoded_args};
use crate::error::{ErrorKind, ErrorModel};
use crate::generate::paired_inputs;
use crate::text::{
    be_nat, canonical_decimal, decimal_digits, digit_char, hex_agrees, hex_digit_at, hex_literal, hex_number_agrees,
    last_nonzero, nibble, trimmed, twos_complement,
};
use crate::types::{lookup, names_occur_once, InputModel, MetadataModel, TransactionModel};
use crate::value::{all_bytes, bytes_fit, int_fits, uint_fits, ValueModel};
use crate::verify::{batch_verification, gathered, verification};

verus! {

/// Two to the power of `n`.
pub open spec fn two_to(n: nat) -> nat
    decreases n,
{
    if n == 0 {
        1
    } else {
        2 * two_to((n - 1) as nat)
    }
}

/// Encoding is a function of its arguments: a function and literals with the
/// same models give the same call data, or the same failure, every time.
pub proof fn law_encoding_is_deterministic(
    f: DescriptorModel,
    g: DescriptorModel,
    args: Seq<Seq<char>>,
    again: Seq<Seq<char>>,
)
    requires
        f == g,
        args == again,
    ensures
        encoded_args(f, args) == encoded_args(g, again),
{
}

/// Functions of one name whose parameters have the same types in the same
/// order have the same canonical signature, whatever the parameters are
/// called and whatever the functions return.
pub proof fn law_signature_ignores_names_and_returns(f: DescriptorModel, g: DescriptorModel)
    requires
        f.name == g.name,
        f.input_types() == g.input_types(),
    ensures
        f.canonical_signature() == g.canonical_signature(),
{
    assert(f.inputs.len() == f.input_types().len());
    assert(g.inputs.len() == g.input_types().len());
}

/// A text whose brackets are not balanced is a malformed signature, whatever
/// the outside parser made of it.
pub proof fn law_unbalanced_signatures_are_malformed(text: Seq<char>, parsed: Option<SignatureModel>)
    requires
        !balanced(text),
    ensures
        signature_outcome(text, parsed) == Err::<DescriptorModel, ErrorModel>(
            ErrorModel::MalformedSignature { text: text },
        ),
{
}

/// A signature that parses gives a well-formed descriptor: every type is one
/// of the grammar, and no two parameters go under one name.
pub proof fn law_parsed_descriptors_are_well_formed(text: Seq<char>, parsed: Option<SignatureModel>)
    ensures
        signature_outcome(text, parsed) matches Ok(d) ==> d.well_formed(),
{
}

/// Every parameter of an assembled descriptor has a name: the one it was
/// given or, where it was given none, the one made of its place.
pub proof fn law_every_parameter_has_a_name(
    name: Seq<char>,
    names: Seq<Seq<char>>,
    types: Seq<TypeModel>,
    outputs: Seq<TypeModel>,
)
    ensures
        assembled(name, names, types, outputs) matches Some(d) ==> d.inputs.len() == names.len() && forall|i: int|
            0 <= i < d.inputs.len() ==> (#[trigger] d.inputs[i]).name == parameter_name(names[i], i as nat)
                && d.inputs[i].name.len() > 0,
{
    if let Some(d) = assembled(name, names, types, outputs) {
        assert forall|i: int| 0 <= i < d.inputs.len() implies (#[trigger] d.inputs[i]).name == parameter_name(
            names[i],
            i as nat,
        ) && d.inputs[i].name.len() > 0 by {
            lemma_decimal_digits_length(i as nat);
        }
    }
}

/// The selector depends on the canonical signature alone.
pub proof fn law_selector_follows_signature(f: DescriptorModel, g: DescriptorModel)
    requires
        f.canonical_signature() == g.canonical_signature(),
    ensures
        f.selector() == g.selector(),
{
}

/// Call data begins with the selector of the function that is called.
pub proof fn law_call_data_begins_with_selector(f: DescriptorModel, values: Seq<ValueModel>)
    ensures
        call_data(f, values).subrange(0, f.selector().len() as int) == f.selector(),
{
    assert(call_data(f, values).subrange(0, f.selector().len() as int) =~= f.selector());
}

/// A type that a text names is a type of the grammar, and its canonical text
/// names it again.
pub proof fn law_named_types_round_trip(text: Seq<char>)
    ensures
        named_type(text) matches Some(t) ==> t.well_formed() && named_type(t.text()) == Some(t),
{
}

/// Fixed bytes are read only from `0x` and exactly two hexadecimal digits a
/// byte: a literal of any other length fails with an invalid length, and a
/// value that is read holds that many bytes in a zero-padded word.
pub proof fn law_fixed_bytes_need_exact_length(n: nat, literal: Seq<char>, outcome: Option<ValueModel>)
    requires
        1 <= n <= 32,
    ensures
        literal.len() != 2 + 2 * n ==> coercion(TypeModel::FixedBytes(n), literal, outcome) == Err::<
            ValueModel,
            ErrorModel,
        >(failure(TypeModel::FixedBytes(n), literal, ErrorKind::InvalidLength)),
        failure(TypeModel::FixedBytes(n), literal, ErrorKind::InvalidLength).kind() == ErrorKind::InvalidLength,
        coercion(TypeModel::FixedBytes(n), literal, outcome) matches Ok(v) ==> {
            &&& literal.len() == 2 + 2 * n
            &&& v is FixedBytes
            &&& v->FixedBytes_1 == n
            &&& bytes_fit(v->FixedBytes_0, n)
            &&& hex_agrees(v->FixedBytes_0.subrange(0, n as int), literal)
        },
{
}

/// A fixed array is read only from as many elements as it declares: any
/// other number is an arity mismatch of the whole literal against it.
pub proof fn law_fixed_arrays_need_their_length(
    element: TypeModel,
    length: nat,
    tree: ValueModel,
    whole: Seq<char>,
)
    ensures
        filled(TypeModel::FixedArray(Box::new(element), length), tree, whole) matches Ok(v) ==> tree is FixedArray
            && tree->FixedArray_0.len() == length && v is FixedArray,
        tree is FixedArray && tree->FixedArray_0.len() != length ==> filled(
            TypeModel::FixedArray(Box::new(element), length),
            tree,
            whole,
        ) == Err::<ValueModel, ErrorModel>(
            failure(TypeModel::FixedArray(Box::new(element), length), whole, ErrorKind::ArityMismatch),
        ),
{
}

/// A tuple is read only from as many parts as it has fields: any other
/// number is an arity mismatch of the whole literal against it.
pub proof fn law_tuples_need_their_number_of_fields(fields: Seq<TypeModel>, tree: ValueModel, whole: Seq<char>)
    ensures
        filled(TypeModel::Tuple(fields), tree, whole) matches Ok(v) ==> tree is Tuple && tree->Tuple_0.len()
            == fields.len() && v is Tuple,
        tree is Tuple && tree->Tuple_0.len() != fields.len() ==> filled(TypeModel::Tuple(fields), tree, whole)
            == Err::<ValueModel, ErrorModel>(failure(TypeModel::Tuple(fields), whole, ErrorKind::ArityMismatch)),
{
}

/// Different digits below sixteen are written differently.
pub proof fn lemma_digit_char_is_injective(a: nat, b: nat)
    requires
        a < 16,
        b < 16,
        digit_char(a) == digit_char(b),
    ensures
        a == b,
{
}

/// A number of two digits or more is ten or more, and the other way round.
pub proof fn lemma_decimal_digits_length(n: nat)
    ensures
        decimal_digits(n).len() >= 1,
        decimal_digits(n).len() == 1 <==> n < 10,
    decreases n,
{
    if n >= 10 {
        lemma_decimal_digits_length(n / 10);
    }
}

/// Different numbers are written differently in decimal.
pub proof fn law_decimal_digits_are_injective(a: nat, b: nat)
    requires
        decimal_digits(a) == decimal_digits(b),
    ensures
        a == b,
    decreases a,
{
    lemma_decimal_digits_length(a);
    lemma_decimal_digits_length(b);
    if a < 10 {
        assert(decimal_digits(a)[0] == digit_char(a));
        assert(decimal_digits(b)[0] == digit_char(b));
        lemma_digit_char_is_injective(a, b);
    } else {
        let x = decimal_digits(a / 10);
        let y = decimal_digits(b / 10);
        assert(decimal_digits(a).drop_last() =~= x);
        assert(decimal_digits(b).drop_last() =~= y);
        assert(decimal_digits(a).last() == digit_char(a % 10));
        assert(decimal_digits(b).last() == digit_char(b % 10));
        law_decimal_digits_are_injective(a / 10, b / 10);
        lemma_digit_char_is_injective(a % 10, b % 10);
    }
}

/// An integer read from a plain number in decimal is that number: where the
/// literal is the decimal writing of `n`, the value that is read stands for `n`.
pub proof fn law_decimal_literal_is_its_number(t: TypeModel, literal: Seq<char>, outcome: Option<ValueModel>, n: nat)
    requires
        t is Uint || t is Int,
        canonical_decimal(literal),
        literal == decimal_digits(n),
        coercion(t, literal, outcome) is Ok,
    ensures
        t is Uint ==> be_nat(coercion(t, literal, outcome)->Ok_0->Uint_0) == n,
        t is Int ==> be_nat(coercion(t, literal, outcome)->Ok_0->Int_0) == n,
{
    let v = coercion(t, literal, outcome)->Ok_0;
    if t is Uint {
        law_decimal_digits_are_injective(be_nat(v->Uint_0), n);
    } else {
        law_decimal_digits_are_injective(be_nat(v->Int_0), n);
    }
}

/// A hexadecimal literal writes one sequence of bytes only.
pub proof fn law_hex_literal_determines_bytes(a: Seq<u8>, b: Seq<u8>, literal: Seq<char>)
    requires
        hex_agrees(a, literal),
        hex_agrees(b, literal),
    ensures
        a == b,
{
    assert(a.len() == b.len());
    assert forall|i: int| 0 <= i < a.len() implies a[i] == b[i] by {
        let x = a[i] as nat;
        let y = b[i] as nat;
        lemma_digit_char_is_injective(x / 16, y / 16);
        lemma_digit_char_is_injective(x % 16, y % 16);
    }
    assert(a =~= b);
}

/// Hexadecimal digits write one word only.
pub proof fn law_hex_digits_determine_the_word(a: Seq<u8>, b: Seq<u8>, digits: Seq<char>)
    requires
        a.len() == b.len(),
        hex_number_agrees(a, digits),
        hex_number_agrees(b, digits),
    ensures
        a == b,
{
    assert forall|i: int| 0 <= i < a.len() implies a[i] == b[i] by {
        let k = 2 * (a.len() - 1 - i);
        assert(nibble(a, k) == hex_digit_at(digits, k));
        assert(nibble(b, k) == hex_digit_at(digits, k));
        assert(nibble(a, k + 1) == hex_digit_at(digits, k + 1));
        assert(nibble(b, k + 1) == hex_digit_at(digits, k + 1));
        assert(a[i] as nat % 16 == b[i] as nat % 16);
        assert(a[i] as nat / 16 == b[i] as nat / 16);
    }
    assert(a =~= b);
}

/// An address, fixed bytes and dynamic bytes are what their literal writes,
/// whatever the outside reader made of it: two readings that succeed give the
/// same value.
pub proof fn law_bytes_are_what_the_literal_writes(
    t: TypeModel,
    literal: Seq<char>,
    one: Option<ValueModel>,
    other: Option<ValueModel>,
)
    requires
        t is Address || t is FixedBytes || t is Bytes,
        coercion(t, literal, one) is Ok,
        coercion(t, literal, other) is Ok,
    ensures
        coercion(t, literal, one) == coercion(t, literal, other),
{
    let v = coercion(t, literal, one)->Ok_0;
    let w = coercion(t, literal, other)->Ok_0;
    match t {
        TypeModel::Address => {
            law_hex_literal_determines_bytes(v->Address_0, w->Address_0, literal);
        },
        TypeModel::FixedBytes(n) => {
            let a = v->FixedBytes_0;
            let b = w->FixedBytes_0;
            law_hex_literal_determines_bytes(a.subrange(0, n as int), b.subrange(0, n as int), literal);
            assert forall|i: int| 0 <= i < 32 implies a[i] == b[i] by {
                if i < n {
                    assert(a[i] == a.subrange(0, n as int)[i]);
                    assert(b[i] == b.subrange(0, n as int)[i]);
                }
            }
            assert(a =~= b);
        },
        TypeModel::Bytes => {
            law_hex_literal_determines_bytes(v->Bytes_0, w->Bytes_0, literal);
        },
        _ => {},
    }
}

/// An address is read only from `0x` and forty hexadecimal digits, and is
/// then the twenty bytes that they write; any other literal fails with an
/// invalid address.
pub proof fn law_addresses_are_forty_digits(literal: Seq<char>, outcome: Option<ValueModel>)
    ensures
        coercion(TypeModel::Address, literal, outcome) matches Ok(v) ==> {
            &&& hex_literal(literal)
            &&& literal.len() == 42
            &&& v is Address
            &&& v->Address_0.len() == 20
            &&& hex_agrees(v->Address_0, literal)
        },
        coercion(TypeModel::Address, literal, outcome) matches Err(e) ==> e.kind() == ErrorKind::InvalidAddress,
        !(hex_literal(literal) && literal.len() == 42) ==> coercion(
            TypeModel::Address,
            literal,
            outcome) is Err,
{
}

/// A word of `len` bytes stands for a number below 256 to the power of `len`.
pub proof fn lemma_be_nat_below(bytes: Seq<u8>)
    ensures
        be_nat(bytes) < two_to(8 * bytes.len()),
    decreases bytes.len(),
{
    if bytes.len() > 0 {
        lemma_be_nat_below(bytes.drop_last());
        lemma_two_to_plus_eight(8 * (bytes.len() - 1) as nat);
    }
}

/// Eight more in the exponent is a factor of 256.
pub proof fn lemma_two_to_plus_eight(n: nat)
    ensures
        two_to(n + 8) == 256 * two_to(n),
{
    reveal_with_fuel(two_to, 9);
}

/// Zeros at the front of a word add nothing to its number.
pub proof fn lemma_be_nat_skips_zeros(bytes: Seq<u8>, zeros: int)
    requires
        0 <= zeros <= bytes.len(),
        all_bytes(bytes, 0, zeros, 0),
    ensures
        be_nat(bytes) == be_nat(bytes.subrange(zeros, bytes.len() as int)),
    decreases bytes.len(),
{
    if zeros == bytes.len() {
        lemma_be_nat_of_zeros(bytes);
        assert(bytes.subrange(zeros, bytes.len() as int) =~= Seq::<u8>::empty());
    } else {
        let front = bytes.drop_last();
        assert forall|i: int| 0 <= i < zeros implies #[trigger] front[i] == 0 by {
            assert(bytes[i] == 0);
        }
        lemma_be_nat_skips_zeros(front, zeros);
        let rest = bytes.subrange(zeros, bytes.len() as int);
        assert(rest.drop_last() =~= front.subrange(zeros, front.len() as int));
        assert(rest.last() == bytes.last());
    }
}

/// A word of zeros stands for zero.
pub proof fn lemma_be_nat_of_zeros(bytes: Seq<u8>)
    requires
        all_bytes(bytes, 0, bytes.len() as int, 0),
    ensures
        be_nat(bytes) == 0,
    decreases bytes.len(),
{
    if bytes.len() > 0 {
        let front = bytes.drop_last();
        assert forall|i: int| 0 <= i < front.len() implies #[trigger] front[i] == 0 by {
            assert(bytes[i] == 0);
        }
        lemma_be_nat_of_zeros(front);
        assert(bytes[bytes.len() - 1] == 0);
    }
}

/// A word that fits an unsigned integer of `bits` bits stands for a number
/// below two to the power of `bits`.
pub proof fn lemma_uint_fits_bound(word: Seq<u8>, bits: nat)
    requires
        uint_fits(word, bits),
    ensures
        be_nat(word) < two_to(bits),
{
    let zeros = 32 - bits / 8;
    lemma_be_nat_skips_zeros(word, zeros);
    lemma_be_nat_below(word.subrange(zeros, 32));
}

/// An unsigned integer that is read lies within its width: the value carries
/// the width of its type, and its number is below two to that power.
pub proof fn law_unsigned_integers_stay_in_range(bits: nat, literal: Seq<char>, outcome: Option<ValueModel>)
    ensures
        coercion(TypeModel::Uint(bits), literal, outcome) matches Ok(v) ==> {
            &&& v is Uint
            &&& v->Uint_1 == bits
            &&& be_nat(v->Uint_0) < two_to(bits)
        },
        coercion(TypeModel::Uint(bits), literal, outcome) matches Err(e) ==> {
            ||| e.kind() == ErrorKind::OutOfRange
            ||| e.kind() == ErrorKind::MalformedSignature
        },
{
    if let Ok(v) = coercion(TypeModel::Uint(bits), literal, outcome) {
        lemma_uint_fits_bound(v->Uint_0, bits);
    }
}

/// Among inputs of distinct names, the literal found for the name of an
/// entry is the literal of that entry.
pub proof fn lemma_lookup_finds_entry(entries: Seq<InputModel>, i: int)
    requires
        0 <= i < entries.len(),
        forall|a: int, b: int|
            0 <= a < b < entries.len() ==> (#[trigger] entries[a]).name != (#[trigger] entries[b]).name,
    ensures
        lookup(entries, entries[i].name) == Some(entries[i].value),
    decreases entries.len(),
{
    if i > 0 {
        let rest = entries.subrange(1, entries.len() as int);
        assert(entries[0].name != entries[i].name);
        assert forall|a: int, b: int| 0 <= a < b < rest.len() implies (#[trigger] rest[a]).name != (
        #[trigger] rest[b]).name by {
            assert(rest[a] == entries[a + 1]);
            assert(rest[b] == entries[b + 1]);
        }
        lemma_lookup_finds_entry(rest, i - 1);
        assert(rest[i - 1] == entries[i]);
    }
}

/// Where the parameters have distinct names and each literal is stored under
/// its parameter's name, every literal is found again, in the parameters' order.
pub proof fn lemma_paired_inputs_are_gathered(inputs: Seq<ParameterModel>, literals: Seq<Seq<char>>, n: nat)
    requires
        n <= inputs.len() == literals.len(),
        forall|a: int, b: int|
            0 <= a < b < inputs.len() ==> (#[trigger] inputs[a]).name != (#[trigger] inputs[b]).name,
    ensures
        gathered(inputs, paired_inputs(inputs, literals), n) == Ok::<Seq<Seq<char>>, ErrorModel>(
            literals.subrange(0, n as int),
        ),
    decreases n,
{
    let entries = paired_inputs(inputs, literals);
    if n == 0 {
        assert(literals.subrange(0, 0) =~= Seq::<Seq<char>>::empty());
    } else {
        lemma_paired_inputs_are_gathered(inputs, literals, (n - 1) as nat);
        assert forall|a: int, b: int| 0 <= a < b < entries.len() implies (#[trigger] entries[a]).name != (
        #[trigger] entries[b]).name by {
            assert(entries[a].name == inputs[a].name);
            assert(entries[b].name == inputs[b].name);
        }
        lemma_lookup_finds_entry(entries, n - 1);
        assert(entries[n - 1].name == inputs[n - 1].name);
        assert(literals.subrange(0, n as int) =~= literals.subrange(0, n - 1).push(literals[n - 1]));
    }
}

/// Where the parameters have distinct names and each literal is stored under
/// its parameter's name, no name stands in the inputs twice.
pub proof fn law_built_inputs_hold_each_name_once(inputs: Seq<ParameterModel>, literals: Seq<Seq<char>>)
    requires
        forall|a: int, b: int|
            0 <= a < b < inputs.len() ==> (#[trigger] inputs[a]).name != (#[trigger] inputs[b]).name,
    ensures
        names_occur_once(paired_inputs(inputs, literals)),
{
    let entries = paired_inputs(inputs, literals);
    assert forall|a: int, b: int| 0 <= a < b < entries.len() implies (#[trigger] entries[a]).name != (
    #[trigger] entries[b]).name by {
        assert(entries[a].name == inputs[a].name);
        assert(entries[b].name == inputs[b].name);
    }
}

/// A transaction built from a function with distinct parameter names and
/// literals that encode verifies: its inputs hold each literal under its
/// parameter's name, and its data is what they encode to.
pub proof fn law_built_transaction_verifies(tx: TransactionModel, literals: Seq<Seq<char>>)
    requires
        tx.contract_method.names_distinct(),
        tx.contract_inputs_values == paired_inputs(tx.contract_method.inputs, literals),
        encoded_args(tx.contract_method, literals) == Ok::<Seq<u8>, ErrorModel>(tx.data),
    ensures
        verification(tx) is Ok,
{
    let inputs = tx.contract_method.inputs;
    assert(literals.len() == inputs.len());
    lemma_paired_inputs_are_gathered(inputs, literals, inputs.len());
    assert(literals.subrange(0, inputs.len() as int) =~= literals);
}

/// Verification is equality of bytes: where every literal is found and the
/// call encodes, the transaction verifies exactly if its stored data is the
/// encoding, and fails otherwise with a data mismatch that holds both.
pub proof fn law_verification_is_byte_equality(tx: TransactionModel, literals: Seq<Seq<char>>, expected: Seq<u8>)
    requires
        gathered(tx.contract_method.inputs, tx.contract_inputs_values, tx.contract_method.inputs.len()) == Ok::<
            Seq<Seq<char>>,
            ErrorModel,
        >(literals),
        encoded_args(tx.contract_method, literals) == Ok::<Seq<u8>, ErrorModel>(expected),
    ensures
        verification(tx) is Ok <==> tx.data == expected,
        tx.data != expected ==> verification(tx) == Err::<(), ErrorModel>(
            ErrorModel::DataMismatch { expected: expected, actual: tx.data },
        ),
{
}

/// The number that a word stands for in two's complement.
pub open spec fn int_value(word: Seq<u8>) -> int {
    if word[0] >= 128 {
        be_nat(word) - two_to(8 * word.len())
    } else {
        be_nat(word) as int
    }
}

/// Exponents add where powers multiply.
pub proof fn lemma_two_to_adds(a: nat, b: nat)
    ensures
        two_to(a + b) == two_to(a) * two_to(b),
    decreases b,
{
    if b > 0 {
        lemma_two_to_adds(a, (b - 1) as nat);
        assert(two_to(a + b) == 2 * two_to((a + b - 1) as nat));
        assert(two_to(b) == 2 * two_to((b - 1) as nat));
        assert(2 * (two_to(a) * two_to((b - 1) as nat)) == two_to(a) * (2 * two_to((b - 1) as nat)))
            by (nonlinear_arith);
    } else {
        assert(two_to(a) * 1 == two_to(a)) by (nonlinear_arith);
    }
}

/// The number of two words, one behind the other: the first is moved up by
/// the length of the second.
pub proof fn lemma_be_nat_concat(front: Seq<u8>, back: Seq<u8>)
    ensures
        be_nat(front + back) == be_nat(front) * two_to(8 * back.len()) + be_nat(back),
    decreases back.len(),
{
    if back.len() == 0 {
        assert(front + back =~= front);
        assert(be_nat(front) * 1 == be_nat(front)) by (nonlinear_arith);
    } else {
        let whole = front + back;
        assert(whole.drop_last() =~= front + back.drop_last());
        assert(whole.last() == back.last());
        lemma_be_nat_concat(front, back.drop_last());
        lemma_two_to_plus_eight(8 * (back.len() - 1) as nat);
        let f = be_nat(front);
        let t = two_to(8 * (back.len() - 1) as nat);
        assert((f * t) * 256 == f * (256 * t)) by (nonlinear_arith);
    }
}

/// A word of nothing but the byte 255 stands for one less than the power of its length.
pub proof fn lemma_be_nat_of_ones(bytes: Seq<u8>)
    requires
        all_bytes(bytes, 0, bytes.len() as int, 255),
    ensures
        be_nat(bytes) + 1 == two_to(8 * bytes.len()),
    decreases bytes.len(),
{
    if bytes.len() > 0 {
        let front = bytes.drop_last();
        assert forall|i: int| 0 <= i < front.len() implies #[trigger] front[i] == 255 by {
            assert(bytes[i] == 255);
        }
        lemma_be_nat_of_ones(front);
        lemma_two_to_plus_eight(8 * (bytes.len() - 1) as nat);
        assert(bytes[bytes.len() - 1] == 255);
    }
}

/// The first byte of a word bounds its number from both sides.
pub proof fn lemma_be_nat_by_first_byte(bytes: Seq<u8>)
    requires
        bytes.len() > 0,
    ensures
        bytes[0] * two_to(8 * (bytes.len() - 1) as nat) <= be_nat(bytes),
        be_nat(bytes) < (bytes[0] + 1) * two_to(8 * (bytes.len() - 1) as nat),
{
    let first = bytes.subrange(0, 1);
    let rest = bytes.subrange(1, bytes.len() as int);
    assert(bytes =~= first + rest);
    lemma_be_nat_concat(first, rest);
    lemma_be_nat_below(rest);
    assert(first.drop_last() =~= Seq::<u8>::empty());
    assert(be_nat(first) == bytes[0]) by {
        assert(first.last() == bytes[0]);
        assert(be_nat(first.drop_last()) == 0);
    }
    let t = two_to(8 * (bytes.len() - 1) as nat);
    let b = bytes[0] as int;
    assert((b + 1) * t == b * t + t) by (nonlinear_arith);
}

/// A word that fits a signed integer of `bits` bits stands, in two's
/// complement, for a number from minus two to the power of `bits` less one up
/// to, but not including, two to that power.
pub proof fn lemma_int_fits_bound(word: Seq<u8>, bits: nat)
    requires
        int_fits(word, bits),
    ensures
        -two_to((bits - 1) as nat) <= int_value(word) < two_to((bits - 1) as nat),
{
    let k = bits / 8;
    let z = 32 - k;
    let front = word.subrange(0, z as int);
    let low = word.subrange(z as int, 32);
    let t = two_to(8 * (k - 1) as nat);
    assert(word =~= front + low);
    lemma_be_nat_concat(front, low);
    lemma_be_nat_by_first_byte(low);
    lemma_be_nat_below(low);
    lemma_two_to_adds(8 * (k - 1) as nat, 7);
    assert(two_to(7) == 128) by {
        reveal_with_fuel(two_to, 8);
    }
    assert(two_to((bits - 1) as nat) == t * 128);
    assert(two_to(bits) == 2 * two_to((bits - 1) as nat));
    assert(low[0] == word[z as int]);
    let first = low[0] as int;
    if word[z as int] >= 128 {
        assert forall|i: int| 0 <= i < front.len() implies #[trigger] front[i] == 255 by {
            assert(word[i] == 255);
        }
        lemma_be_nat_of_ones(front);
        lemma_two_to_adds(8 * front.len(), 8 * low.len());
        assert(word[0] >= 128) by {
            if z > 0 {
                assert(word[0] == 255);
            }
        }
        let f = be_nat(front) as int;
        let p = two_to(8 * low.len()) as int;
        assert(f * p == (f + 1) * p - p) by (nonlinear_arith);
        assert(128 * t <= first * t) by (nonlinear_arith)
            requires
                128 <= first,
                0 <= t,
        ;
    } else {
        assert forall|i: int| 0 <= i < z implies #[trigger] word[i] == 0 by {}
        lemma_be_nat_skips_zeros(word, z as int);
        assert(word[0] < 128) by {
            if z > 0 {
                assert(word[0] == 0);
            }
        }
        assert((first + 1) * t <= 128 * t) by (nonlinear_arith)
            requires
                first + 1 <= 128,
                0 <= t,
        ;
    }
}

/// A signed integer that is read lies within its width: the value carries
/// the width of its type, and its number in two's complement is at least
/// minus two to the power of the width less one, and below two to that power.
pub proof fn law_signed_integers_stay_in_range(bits: nat, literal: Seq<char>, outcome: Option<ValueModel>)
    ensures
        coercion(TypeModel::Int(bits), literal, outcome) matches Ok(v) ==> {
            &&& v is Int
            &&& v->Int_1 == bits
            &&& -two_to((bits - 1) as nat) <= int_value(v->Int_0) < two_to((bits - 1) as nat)
        },
        coercion(TypeModel::Int(bits), literal, outcome) matches Err(e) ==> {
            ||| e.kind() == ErrorKind::OutOfRange
            ||| e.kind() == ErrorKind::MalformedSignature
        },
{
    if let Ok(v) = coercion(TypeModel::Int(bits), literal, outcome) {
        lemma_int_fits_bound(v->Int_0, bits);
    }
}

impl DraftModel {
    /// Every transaction of the draft's batch verifies.
    pub open spec fn verified(self) -> bool {
        batch_verification(self.batch.transactions, self.batch.transactions.len()) is Ok
    }
}

impl StageModel {
    /// Every transaction built so far verifies, and the function whose
    /// literals are being asked for has parameters of distinct names.
    pub open spec fn sound(self) -> bool {
        match self {
            StageModel::Name(draft) => draft.verified(),
            StageModel::Description(draft, _) => draft.verified(),
            StageModel::Recipient(draft, _) => draft.verified(),
            StageModel::Amount(draft, _, _) => draft.verified(),
            StageModel::Signature(draft, _, _, _) => draft.verified(),
            StageModel::Input(draft, _, _, _, function, _) => draft.verified() && function.names_distinct(),
            _ => true,
        }
    }
}

impl ProgressModel {
    /// The stage that the dialogue goes on with is sound, or the finished
    /// batch verifies.
    pub open spec fn sound(self) -> bool {
        match self {
            ProgressModel::Ask(stage, _) => stage.sound(),
            ProgressModel::Done(batch) => batch_verification(batch.transactions, batch.transactions.len()) is Ok,
        }
    }
}

/// Verifying the first transactions of a batch does not look at the later ones.
pub proof fn lemma_batch_verification_of_prefix(txs: Seq<TransactionModel>, tx: TransactionModel, n: nat)
    requires
        n <= txs.len(),
    ensures
        batch_verification(txs.push(tx), n) == batch_verification(txs, n),
    decreases n,
{
    if n > 0 {
        lemma_batch_verification_of_prefix(txs, tx, (n - 1) as nat);
        assert(txs.push(tx)[n - 1] == txs[n - 1]);
    }
}

/// A verified draft with one more transaction that verifies is verified.
pub proof fn lemma_extended_draft_verified(draft: DraftModel, tx: TransactionModel)
    requires
        draft.verified(),
        verification(tx) is Ok,
    ensures
        extended(draft, tx).verified(),
        continued(extended(draft, tx)).sound(),
{
    let txs = draft.batch.transactions;
    lemma_batch_verification_of_prefix(txs, tx, txs.len());
    assert(txs.push(tx)[txs.len() as int] == tx);
}

/// What a sound stage goes on with, once literals are known, is sound.
pub proof fn lemma_collected_is_sound(
    draft: DraftModel,
    metadata: MetadataModel,
    to: Seq<u8>,
    value: Seq<u8>,
    function: DescriptorModel,
    inputs: Seq<Seq<char>>,
)
    requires
        draft.verified(),
        function.names_distinct(),
    ensures
        collected(draft, metadata, to, value, function, inputs) matches Ok(p) ==> p.sound(),
{
    if inputs.len() >= function.inputs.len() {
        if let Ok(data) = encoded_args(function, inputs) {
            let tx = TransactionModel {
                metadata: metadata,
                to: to,
                value: value,
                data: data,
                contract_method: function,
                contract_inputs_values: paired_inputs(function.inputs, inputs),
            };
            law_built_transaction_verifies(tx, inputs);
            lemma_extended_draft_verified(draft, tx);
        }
    }
}

/// The dialogue builds only batches that verify: it begins at a sound stage,
/// every answer leads from a sound stage to a sound stage, and the batch that
/// it ends with verifies.
pub proof fn law_dialogue_builds_verified_batches(stage: StageModel, text: Seq<char>)
    requires
        stage.sound(),
    ensures
        StageModel::Count.sound(),
        answered(stage, text) matches Ok(p) ==> p.sound(),
{
    match stage {
        StageModel::Signature(draft, metadata, to, value) => {
            if let Ok(function) = signature_outcome(text, parsed_function(text)) {
                lemma_collected_is_sound(draft, metadata, to, value, function, Seq::empty());
            }
        },
        StageModel::Input(draft, metadata, to, value, function, inputs) => {
            lemma_collected_is_sound(draft, metadata, to, value, function, inputs.push(text));
        },
        _ => {},
    }
}

/// The word with every byte taken from 255.
pub open spec fn inverted(word: Seq<u8>) -> Seq<u8> {
    Seq::new(word.len(), |i: int| (255 - word[i]) as u8)
}

/// A word and its inverse add up to one less than the power of their length.
pub proof fn lemma_be_nat_of_inverted(word: Seq<u8>)
    ensures
        be_nat(inverted(word)) + be_nat(word) + 1 == two_to(8 * word.len()),
    decreases word.len(),
{
    if word.len() > 0 {
        let front = word.drop_last();
        lemma_be_nat_of_inverted(front);
        assert(inverted(word).drop_last() =~= inverted(front));
        assert(inverted(word).last() == 255 - word.last());
        lemma_two_to_plus_eight(8 * (word.len() - 1) as nat);
    } else {
        assert(inverted(word) =~= word);
    }
}

/// The last byte that is not zero stands at or behind every byte that is not zero.
pub proof fn lemma_last_nonzero_bounds(word: Seq<u8>, i: int)
    requires
        0 <= i < word.len(),
        word[i] != 0,
    ensures
        i <= last_nonzero(word) < word.len(),
    decreases word.len(),
{
    if word.last() == 0 {
        lemma_last_nonzero_bounds(word.drop_last(), i);
    }
}

/// Two's complement negates: a word that is not zero and its complement add
/// up to the power of their length, and the complement of zero is zero.
pub proof fn law_twos_complement_negates(word: Seq<u8>)
    ensures
        last_nonzero(word) >= 0 ==> be_nat(word) + be_nat(twos_complement(word)) == two_to(8 * word.len()),
        last_nonzero(word) < 0 ==> be_nat(word) == 0 && be_nat(twos_complement(word)) == 0,
    decreases word.len(),
{
    if word.len() > 0 {
        let front = word.drop_last();
        let complement = twos_complement(word);
        lemma_two_to_plus_eight(8 * (word.len() - 1) as nat);
        if word.last() != 0 {
            assert(complement.drop_last() =~= inverted(front));
            assert(complement.last() == 256 - word.last());
            lemma_be_nat_of_inverted(front);
        } else {
            law_twos_complement_negates(front);
            assert(last_nonzero(word) == last_nonzero(front));
            if last_nonzero(front) >= 0 {
                assert(last_nonzero(front) < front.len()) by {
                    lemma_last_nonzero_in_range(front);
                }
            }
            assert(complement.drop_last() =~= twos_complement(front));
            assert(complement.last() == 0) by {
                lemma_last_nonzero_in_range(front);
            }
        }
    } else {
        assert(twos_complement(word) =~= word);
    }
}

/// The place of the last byte that is not zero lies within the word, or is minus one.
pub proof fn lemma_last_nonzero_in_range(word: Seq<u8>)
    ensures
        -1 <= last_nonzero(word) < word.len(),
    decreases word.len(),
{
    if word.len() > 0 && word.last() == 0 {
        lemma_last_nonzero_in_range(word.drop_last());
    }
}

/// A signed integer read from a minus sign and a plain number in decimal is
/// the negative of that number: where the literal is a minus sign and the
/// decimal writing of `n`, the value that is read stands for minus `n`.
pub proof fn law_negative_literal_is_its_number(
    bits: nat,
    literal: Seq<char>,
    outcome: Option<ValueModel>,
    n: nat,
)
    requires
        literal.len() > 0,
        literal[0] == '-',
        canonical_decimal(literal.subrange(1, literal.len() as int)),
        literal.subrange(1, literal.len() as int) == decimal_digits(n),
        coercion(TypeModel::Int(bits), literal, outcome) is Ok,
    ensures
        int_value(coercion(TypeModel::Int(bits), literal, outcome)->Ok_0->Int_0) == -n,
{
    let v = coercion(TypeModel::Int(bits), literal, outcome)->Ok_0;
    let word = v->Int_0;
    let body = literal.subrange(1, literal.len() as int);
    assert('0' <= body[0] <= '9');
    assert(trimmed(body) == body);
    assert(!hex_literal(body)) by {
        if body.len() >= 2 {
            assert('0' <= body[1] <= '9');
        }
    }
    law_decimal_digits_are_injective(be_nat(twos_complement(word)), n);
    law_twos_complement_negates(word);
    lemma_last_nonzero_in_range(word);
    if word[0] >= 128 {
        lemma_last_nonzero_bounds(word, 0);
    } else {
        lemma_be_nat_of_zeros(word);
        if last_nonzero(word) >= 0 {
            assert(word[last_nonzero(word)] != 0) by {
                lemma_last_nonzero_is_nonzero(word);
            }
        }
    }
}

/// The byte at the place of the last byte that is not zero is not zero.
pub proof fn lemma_last_nonzero_is_nonzero(word: Seq<u8>)
    requires
        last_nonzero(word) >= 0,
    ensures
        last_nonzero(word) < word.len(),
        word[last_nonzero(word)] != 0,
    decreases word.len(),
{
    if word.len() > 0 && word.last() == 0 {
        lemma_last_nonzero_is_nonzero(word.drop_last());
    }
}

} // verus!
