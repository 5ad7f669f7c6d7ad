//! Reading a literal against a type.
use vstd::prelude::*;
use vstd::string::*;
use crate::abi_type::{lemma_shape_holds_no_integer, named_type, type_models, TypeModel, TypeNode};
use crate::error::{CodecError, ErrorKind, ErrorModel};
use crate::sol::{coerced, sol_coerce, u256_decimal};
use crate::text::{
    be_nat, decimal_digits, hex_agrees, hex_literal, hex_literal_digits, hex_number_agrees, hex_writes,
    integer_literal, is_hex_char, is_integer_literal, negate, trimmed, twos_complement, unsigned_part,
    writes_hex_number,
};
use crate::value::{all_bytes, all_bytes_are, value_models, TypedValue, ValueModel};

verus! {

/// The literals that are handed to the outside reader with a type. An
/// integer is written as [`integer_literal`] says, so that no unit, fraction
/// or exponent reaches the reader; and no other type that holds an integer is
/// handed to it at all. The reader adds the exponent of a number to that of
/// its unit without a check, which may overflow.
pub open spec fn safe_to_read(t: TypeModel, literal: Seq<char>) -> bool {
    match t {
        TypeModel::Uint(_) => integer_literal(literal),
        TypeModel::Int(_) => integer_literal(literal),
        _ => !t.has_integer(),
    }
}

/// The literals that may be read against a leaf at all. An integer is a minus
/// sign or none, then decimal digits, or `0x` and hexadecimal digits. An
/// address is `0x` and forty hexadecimal digits; fixed bytes are `0x` and two
/// digits a byte; dynamic bytes are `0x` and whole bytes of digits; a boolean
/// is `true` or `false`.
pub open spec fn admissible(t: TypeModel, literal: Seq<char>) -> bool {
    match t {
        TypeModel::Uint(_) => integer_literal(literal),
        TypeModel::Int(_) => integer_literal(literal),
        TypeModel::Address => hex_literal(literal) && literal.len() == 42,
        TypeModel::FixedBytes(n) => hex_literal(literal) && literal.len() == 2 + 2 * n,
        TypeModel::Bytes => hex_literal(literal) && literal.len() % 2 == 0,
        TypeModel::Bool => literal == "true"@ || literal == "false"@,
        _ => true,
    }
}

/// The kind of failure of a leaf. A string cannot fail, and a function
/// pointer is no type of the grammar; their kinds, and that of lists and
/// tuples, stand here for completeness.
pub open spec fn scalar_kind(t: TypeModel) -> ErrorKind {
    match t {
        TypeModel::Uint(_) => ErrorKind::OutOfRange,
        TypeModel::Int(_) => ErrorKind::OutOfRange,
        TypeModel::Address => ErrorKind::InvalidAddress,
        TypeModel::Bool => ErrorKind::InvalidBool,
        TypeModel::FixedBytes(_) => ErrorKind::InvalidLength,
        TypeModel::Bytes => ErrorKind::InvalidLength,
        TypeModel::Function => ErrorKind::MalformedSignature,
        _ => ErrorKind::ArityMismatch,
    }
}

/// A failure of a literal against a type, with both.
pub open spec fn failure(t: TypeModel, literal: Seq<char>, kind: ErrorKind) -> ErrorModel {
    ErrorModel::Coercion { kind: kind, literal: literal, ty: t.text() }
}

/// The word is the number that digits without a sign write: in hexadecimal
/// behind `0x`, place for place; else in decimal, zeros at the front aside.
pub open spec fn magnitude_written(word: Seq<u8>, body: Seq<char>) -> bool {
    if hex_literal(body) {
        hex_number_agrees(word, body.subrange(2, body.len() as int))
    } else {
        decimal_digits(be_nat(word)) == trimmed(body)
    }
}

/// The word is the number that an integer literal writes. Without a minus
/// sign the word is the number of the digits, and where it is signed its
/// first bit is clear. With a minus sign the word is signed, is zero or has
/// its first bit set, and negated is the number of the digits.
pub open spec fn number_written(word: Seq<u8>, literal: Seq<char>, signed: bool) -> bool {
    if literal.len() > 0 && literal[0] == '-' {
        signed && (word[0] >= 128 || all_bytes(word, 0, 32, 0)) && magnitude_written(
            twos_complement(word),
            literal.subrange(1, literal.len() as int),
        )
    } else {
        (signed ==> word[0] < 128) && magnitude_written(word, literal)
    }
}

/// The value holds what the literal writes: an integer is the number of its
/// literal, and an address, fixed bytes and dynamic bytes hold exactly the
/// bytes of the literal's digits. Of every other value nothing is asked.
pub open spec fn written(v: ValueModel, literal: Seq<char>) -> bool {
    match v {
        ValueModel::Uint(w, _) => w.len() == 32 && integer_literal(literal) && number_written(w, literal, false),
        ValueModel::Int(w, _) => w.len() == 32 && integer_literal(literal) && number_written(w, literal, true),
        ValueModel::Address(a) => hex_literal(literal) && hex_agrees(a, literal),
        ValueModel::FixedBytes(w, n) => hex_literal(literal) && n <= w.len() && hex_agrees(
            w.subrange(0, n as int),
            literal,
        ),
        ValueModel::Bytes(b) => hex_literal(literal) && hex_agrees(b, literal),
        _ => true,
    }
}

/// What reading `literal` against the leaf `t` comes to, where `outcome` is
/// what the outside reader made of it. A type outside the grammar is refused
/// as such. A boolean and a string never reach the reader: the one is `true`
/// or `false`, the other is the literal as it stands. A list or tuple is no
/// leaf: an arity mismatch. Elsewhere the literal must be admissible, and the
/// reader's value must conform to the type and hold what the literal writes;
/// that value is then the result, whole. Anything else is the failure of the
/// leaf's kind.
pub open spec fn coercion(t: TypeModel, literal: Seq<char>, outcome: Option<ValueModel>) -> Result<
    ValueModel,
    ErrorModel,
> {
    if !t.well_formed() {
        Err(ErrorModel::MalformedSignature { text: t.text() })
    } else if t is Bool {
        if literal == "true"@ {
            Ok(ValueModel::Bool(true))
        } else if literal == "false"@ {
            Ok(ValueModel::Bool(false))
        } else {
            Err(failure(t, literal, ErrorKind::InvalidBool))
        }
    } else if t is String {
        Ok(ValueModel::String(literal))
    } else if t.compound() {
        Err(failure(t, literal, ErrorKind::ArityMismatch))
    } else if admissible(t, literal) && outcome is Some && outcome->Some_0.conforms(t) && written(
        outcome->Some_0,
        literal,
    ) {
        Ok(outcome->Some_0)
    } else {
        Err(failure(t, literal, scalar_kind(t)))
    }
}

/// What reading `literal` against the leaf `t` comes to: the [`coercion`]
/// with what the outside reader makes of the literal.
pub open spec fn leaf_reading(t: TypeModel, literal: Seq<char>) -> Result<ValueModel, ErrorModel> {
    coercion(t, literal, coerced(t, literal))
}

/// The types of the elements of a list of `n` elements of the type `e`.
pub open spec fn repeated(e: TypeModel, n: nat) -> Seq<TypeModel> {
    Seq::new(n, |i: int| e)
}

/// What the parts of a literal come to against a type, where `tree` is the
/// literal taken apart: lists and tuples of its leaves as text. A leaf is read
/// as [`leaf_reading`] says, with its own text and type. A list is the values
/// of its elements, a tuple those of its fields, in order, and the first part
/// that fails is the failure of the whole. Where the tree has not the shape of
/// the type, a fixed array not its length or a tuple not its number of
/// fields, that is an arity mismatch of `whole` against the type at that place.
pub open spec fn filled(t: TypeModel, tree: ValueModel, whole: Seq<char>) -> Result<ValueModel, ErrorModel>
    decreases tree, 0nat,
{
    match (t, tree) {
        (TypeModel::Array(e), ValueModel::Array(vs)) => match filled_first(repeated(*e, vs.len()), vs, vs.len(), whole) {
            Ok(values) => Ok(ValueModel::Array(values)),
            Err(x) => Err(x),
        },
        (TypeModel::FixedArray(e, k), ValueModel::FixedArray(vs)) => if vs.len() != k {
            Err(failure(t, whole, ErrorKind::ArityMismatch))
        } else {
            match filled_first(repeated(*e, vs.len()), vs, vs.len(), whole) {
                Ok(values) => Ok(ValueModel::FixedArray(values)),
                Err(x) => Err(x),
            }
        },
        (TypeModel::Tuple(ts), ValueModel::Tuple(vs)) => if vs.len() != ts.len() {
            Err(failure(t, whole, ErrorKind::ArityMismatch))
        } else {
            match filled_first(ts, vs, vs.len(), whole) {
                Ok(values) => Ok(ValueModel::Tuple(values)),
                Err(x) => Err(x),
            }
        },
        (_, ValueModel::String(s)) => if t.compound() {
            Err(failure(t, whole, ErrorKind::ArityMismatch))
        } else {
            leaf_reading(t, s)
        },
        _ => Err(failure(t, whole, ErrorKind::ArityMismatch)),
    }
}

/// What the first `n` parts of a list or tuple come to against their types:
/// their values in order, or the failure of the first that fails.
pub open spec fn filled_first(types: Seq<TypeModel>, trees: Seq<ValueModel>, n: nat, whole: Seq<char>) -> Result<
    Seq<ValueModel>,
    ErrorModel,
>
    decreases trees, n,
{
    if n == 0 || n > trees.len() {
        Ok(Seq::empty())
    } else {
        match filled_first(types, trees, (n - 1) as nat, whole) {
            Err(x) => Err(x),
            Ok(values) => match filled(types[n - 1], trees[n - 1], whole) {
                Ok(v) => Ok(values.push(v)),
                Err(x) => Err(x),
            },
        }
    }
}

/// What taking a literal apart and reading its parts comes to, where `tree`
/// is what the outside reader made of the literal against the shape of the
/// type: the parts [`filled`], or, where the reader could not take the
/// literal apart, an arity mismatch.
pub open spec fn assembly(t: TypeModel, literal: Seq<char>, tree: Option<ValueModel>) -> Result<
    ValueModel,
    ErrorModel,
> {
    if !t.well_formed() {
        Err(ErrorModel::MalformedSignature { text: t.text() })
    } else {
        match tree {
            Some(tree) => filled(t, tree, literal),
            None => Err(failure(t, literal, ErrorKind::ArityMismatch)),
        }
    }
}

/// What reading `literal` against `t` comes to. A leaf is read as
/// [`leaf_reading`] says. The literal of a list or tuple is taken apart by the
/// outside reader, against the shape of the type, and every leaf in it is then
/// read by itself: see [`assembly`].
pub open spec fn reading(t: TypeModel, literal: Seq<char>) -> Result<ValueModel, ErrorModel> {
    if t.compound() {
        assembly(t, literal, coerced(t.shape(), literal))
    } else {
        leaf_reading(t, literal)
    }
}

/// The model of a coercion's result.
pub open spec fn value_result(r: Result<TypedValue, CodecError>) -> Result<ValueModel, ErrorModel> {
    match r {
        Ok(v) => Ok(v@),
        Err(e) => Err(e@),
    }
}

/// The model of what a reader hands back.
pub open spec fn outcome_model(o: Option<TypedValue>) -> Option<ValueModel> {
    match o {
        Some(v) => Some(v@),
        None => None,
    }
}

/// Whether two texts are the same.
pub fn same_text(a: &str, b: &str) -> (r: bool)
    ensures
        r == (a@ == b@),
{
    a.to_owned() == b.to_owned()
}

/// Whether `literal` may be read against `ty` at all.
pub fn is_admissible(ty: &TypeNode, literal: &str) -> (b: bool)
    ensures
        b == admissible(ty@, literal@),
{
    match ty {
        TypeNode::Uint(_) => is_integer_literal(literal),
        TypeNode::Int(_) => is_integer_literal(literal),
        TypeNode::Address => match hex_literal_digits(literal) {
            Some(n) => n == 40,
            None => false,
        },
        TypeNode::FixedBytes(k) => match hex_literal_digits(literal) {
            Some(n) => n % 2 == 0 && n / 2 == *k,
            None => false,
        },
        TypeNode::Bytes => match hex_literal_digits(literal) {
            Some(n) => n % 2 == 0,
            None => false,
        },
        TypeNode::Bool => same_text(literal, "true") || same_text(literal, "false"),
        _ => true,
    }
}

/// Whether the word is the number that the decimal digits of the text from
/// `start` on write, zeros at their front aside.
fn writes_decimal_number(word: &[u8; 32], literal: &str, start: usize) -> (r: bool)
    requires
        start < literal@.len(),
        forall|j: int| start <= j < literal@.len() ==> '0' <= #[trigger] literal@[j] <= '9',
        literal.is_ascii(),
    ensures
        r == (decimal_digits(be_nat(word@)) == trimmed(literal@.subrange(start as int, literal@.len() as int))),
{
    broadcast use is_ascii_spec_bytes;

    let bytes = literal.as_bytes();
    let n: usize = bytes.len();
    let ghost body = literal@.subrange(start as int, n as int);
    let mut j: usize = start;
    assert(body.subrange(0, body.len() as int) =~= body);
    while j + 1 < n && bytes[j] == 48u8
        invariant
            start <= j < n,
            n == literal@.len(),
            literal.is_ascii(),
            bytes@ == literal.spec_bytes(),
            body == literal@.subrange(start as int, n as int),
            trimmed(body) == trimmed(body.subrange(j - start, body.len() as int)),
        decreases n - j,
    {
        let ghost rest = body.subrange(j - start, body.len() as int);
        assert(rest[0] == literal@[j as int]);
        assert(rest.subrange(1, rest.len() as int) =~= body.subrange(j + 1 - start, body.len() as int));
        j += 1;
    }
    let ghost rest = body.subrange(j - start, body.len() as int);
    assert(rest[0] == literal@[j as int]);
    assert(trimmed(rest) == rest);
    let digits = literal.substring_ascii(j, n);
    assert(digits@ =~= rest);
    same_text(u256_decimal(word).as_str(), digits)
}

/// Whether the word is the number that the integer literal writes: see
/// [`number_written`].
fn is_number_written(word: &[u8; 32], literal: &str, signed: bool) -> (r: bool)
    requires
        integer_literal(literal@),
    ensures
        r == number_written(word@, literal@, signed),
{
    broadcast use is_ascii_spec_bytes;

    proof {
        vstd::array::array_len_matches_n(word);
    }
    assert(literal.is_ascii()) by {
        let body = unsigned_part(literal@);
        assert forall|i: int| 0 <= i < literal@.len() implies '\0' <= #[trigger] literal@[i] <= '\u{7f}' by {
            if literal@[0] == '-' {
                if i > 0 {
                    assert(literal@[i] == body[i - 1]);
                    if hex_literal(body) && i - 1 >= 2 {
                        assert(is_hex_char(body[i - 1]));
                    }
                }
            } else {
                if hex_literal(body) && i >= 2 {
                    assert(is_hex_char(body[i]));
                }
            }
        }
    }
    let bytes = literal.as_bytes();
    if bytes[0] == 45u8 {
        if !(signed && (word[0] >= 128 || all_bytes_are(word, 0, 32, 0))) {
            return false;
        }
        let magnitude = negate(word);
        let ghost body = literal@.subrange(1, literal@.len() as int);
        assert(body == unsigned_part(literal@));
        assert forall|j: int| 1 <= j < literal@.len() implies literal@[j] == #[trigger] body[j - 1] by {}
        if bytes.len() >= 3 && bytes[1] == 48u8 && bytes[2] == 120u8 {
            assert(hex_literal(body));
            assert forall|j: int| 3 <= j < literal@.len() implies is_hex_char(#[trigger] literal@[j]) by {
                assert(is_hex_char(body[j - 1]));
            }
            assert(body.subrange(2, body.len() as int) =~= literal@.subrange(3, literal@.len() as int));
            return writes_hex_number(&magnitude, literal, 3);
        } else {
            assert(!hex_literal(body));
            assert forall|j: int| 1 <= j < literal@.len() implies '0' <= #[trigger] literal@[j] <= '9' by {
                assert('0' <= body[j - 1] <= '9');
            }
            return writes_decimal_number(&magnitude, literal, 1);
        }
    }
    if signed && word[0] >= 128 {
        return false;
    }
    if bytes.len() >= 2 && bytes[0] == 48u8 && bytes[1] == 120u8 {
        assert(hex_literal(literal@));
        writes_hex_number(word, literal, 2)
    } else {
        assert(!hex_literal(literal@));
        assert(literal@.subrange(0, literal@.len() as int) =~= literal@);
        writes_decimal_number(word, literal, 0)
    }
}

/// Whether the value holds what the literal writes: see [`written`].
pub fn is_written(v: &TypedValue, literal: &str) -> (b: bool)
    ensures
        b == written(v@, literal@),
{
    match v {
        TypedValue::Uint(w, _) => {
            proof {
                vstd::array::array_len_matches_n(w);
            }
            is_integer_literal(literal) && is_number_written(w, literal, false)
        },
        TypedValue::Int(w, _) => {
            proof {
                vstd::array::array_len_matches_n(w);
            }
            is_integer_literal(literal) && is_number_written(w, literal, true)
        },
        TypedValue::Address(a) => {
            let bytes = a.as_slice();
            assert(bytes@.subrange(0, 20) =~= a@);
            hex_writes(bytes, 20, literal)
        },
        TypedValue::FixedBytes(w, n) => {
            let bytes = w.as_slice();
            if *n <= 32 {
                hex_writes(bytes, *n, literal)
            } else {
                false
            }
        },
        TypedValue::Bytes(b) => {
            let bytes = b.as_slice();
            assert(bytes@.subrange(0, bytes@.len() as int) =~= b@);
            hex_writes(bytes, b.len(), literal)
        },
        _ => true,
    }
}

/// The kind of failure of a leaf: see [`scalar_kind`].
pub fn kind_of_scalar(ty: &TypeNode) -> (kind: ErrorKind)
    ensures
        kind == scalar_kind(ty@),
{
    match ty {
        TypeNode::Uint(_) => ErrorKind::OutOfRange,
        TypeNode::Int(_) => ErrorKind::OutOfRange,
        TypeNode::Address => ErrorKind::InvalidAddress,
        TypeNode::Bool => ErrorKind::InvalidBool,
        TypeNode::FixedBytes(_) => ErrorKind::InvalidLength,
        TypeNode::Bytes => ErrorKind::InvalidLength,
        TypeNode::Function => ErrorKind::MalformedSignature,
        _ => ErrorKind::ArityMismatch,
    }
}

/// A failure of `literal` against `ty`.
fn fail(ty: &TypeNode, literal: &str, kind: ErrorKind) -> (e: CodecError)
    ensures
        e@ == failure(ty@, literal@, kind),
{
    CodecError::Coercion { kind, literal: String::from_str(literal), ty: ty.to_text() }
}

/// Decides what reading a leaf comes to, given what the outside reader made
/// of the literal: see [`coercion`].
pub fn check_coerced(ty: &TypeNode, literal: &str, outcome: Option<TypedValue>) -> (r: Result<
    TypedValue,
    CodecError,
>)
    ensures
        value_result(r) == coercion(ty@, literal@, outcome_model(outcome)),
{
    if !ty.is_well_formed() {
        return Err(CodecError::MalformedSignature { text: ty.to_text() });
    }
    match ty {
        TypeNode::Bool => {
            if same_text(literal, "true") {
                Ok(TypedValue::Bool(true))
            } else if same_text(literal, "false") {
                Ok(TypedValue::Bool(false))
            } else {
                Err(fail(ty, literal, ErrorKind::InvalidBool))
            }
        },
        TypeNode::String => Ok(TypedValue::String(String::from_str(literal))),
        _ => {
            if ty.is_compound() {
                return Err(fail(ty, literal, ErrorKind::ArityMismatch));
            }
            if !is_admissible(ty, literal) {
                return Err(fail(ty, literal, kind_of_scalar(ty)));
            }
            match outcome {
                Some(v) => {
                    if v.conforms_to(ty) && is_written(&v, literal) {
                        Ok(v)
                    } else {
                        Err(fail(ty, literal, kind_of_scalar(ty)))
                    }
                },
                None => Err(fail(ty, literal, kind_of_scalar(ty))),
            }
        },
    }
}

/// Reads `literal` against the leaf `ty`: see [`leaf_reading`]. The outside
/// reader is asked for admissible literals only, and never for booleans,
/// strings, lists and tuples.
pub fn read_leaf(ty: &TypeNode, literal: &str) -> (r: Result<TypedValue, CodecError>)
    ensures
        value_result(r) == leaf_reading(ty@, literal@),
{
    if !ty.is_well_formed() || ty.is_compound() || !is_admissible(ty, literal) {
        return check_coerced(ty, literal, None);
    }
    match ty {
        TypeNode::Bool => check_coerced(ty, literal, None),
        TypeNode::String => check_coerced(ty, literal, None),
        _ => {
            let outcome = sol_coerce(ty, literal);
            check_coerced(ty, literal, outcome)
        },
    }
}

/// A value that a leaf is read as is one of the leaf's type.
pub proof fn lemma_coercion_conforms(t: TypeModel, literal: Seq<char>, outcome: Option<ValueModel>)
    ensures
        coercion(t, literal, outcome) matches Ok(v) ==> v.conforms(t),
{
}

/// The value that the parts of a literal come to is one of the type.
pub proof fn lemma_filled_conforms(t: TypeModel, tree: ValueModel, whole: Seq<char>)
    ensures
        filled(t, tree, whole) matches Ok(v) ==> v.conforms(t),
    decreases tree, 0nat,
{
    match (t, tree) {
        (TypeModel::Array(e), ValueModel::Array(vs)) => {
            lemma_filled_first_conform(repeated(*e, vs.len()), vs, vs.len(), whole);
        },
        (TypeModel::FixedArray(e, k), ValueModel::FixedArray(vs)) => {
            lemma_filled_first_conform(repeated(*e, vs.len()), vs, vs.len(), whole);
        },
        (TypeModel::Tuple(ts), ValueModel::Tuple(vs)) => {
            lemma_filled_first_conform(ts, vs, vs.len(), whole);
        },
        (_, ValueModel::String(s)) => {
            lemma_coercion_conforms(t, s, coerced(t, s));
        },
        _ => {},
    }
}

/// The values that the first parts come to are as many as the parts, each
/// one of the type at its place.
pub proof fn lemma_filled_first_conform(types: Seq<TypeModel>, trees: Seq<ValueModel>, n: nat, whole: Seq<char>)
    requires
        n <= trees.len(),
    ensures
        filled_first(types, trees, n, whole) matches Ok(values) ==> values.len() == n && forall|i: int|
            0 <= i < n ==> (#[trigger] values[i]).conforms(types[i]),
    decreases trees, n,
{
    if n > 0 {
        lemma_filled_first_conform(types, trees, (n - 1) as nat, whole);
        lemma_filled_conforms(types[n - 1], trees[n - 1], whole);
    }
}

/// A value that is read is one of the type it was read against.
pub proof fn lemma_reading_conforms(t: TypeModel, literal: Seq<char>)
    ensures
        reading(t, literal) matches Ok(v) ==> v.conforms(t),
{
    if t.compound() {
        if let Some(tree) = coerced(t.shape(), literal) {
            lemma_filled_conforms(t, tree, literal);
        }
    } else {
        lemma_coercion_conforms(t, literal, coerced(t, literal));
    }
}

/// Once a part has failed, reading further parts changes nothing.
pub proof fn lemma_filled_first_stays_failed(
    types: Seq<TypeModel>,
    trees: Seq<ValueModel>,
    k: nat,
    n: nat,
    whole: Seq<char>,
)
    requires
        k <= n <= trees.len(),
        filled_first(types, trees, k, whole) is Err,
    ensures
        filled_first(types, trees, n, whole) == filled_first(types, trees, k, whole),
    decreases n,
{
    if k < n {
        lemma_filled_first_stays_failed(types, trees, k, (n - 1) as nat, whole);
    }
}

/// Reads each part of a list or tuple against its type: against `element`
/// where `uniform`, else against the field of `fields` at its place. See
/// [`filled_first`].
fn fill_each(element: &TypeNode, fields: &Vec<TypeNode>, uniform: bool, trees: &Vec<TypedValue>, whole: &str) -> (r:
    Result<Vec<TypedValue>, CodecError>)
    requires
        !uniform ==> fields@.len() == trees@.len(),
    ensures
        match r {
            Ok(values) => filled_first(
                if uniform { repeated(element@, trees@.len() as nat) } else { type_models(fields@) },
                value_models(trees@),
                trees@.len() as nat,
                whole@,
            ) == Ok::<Seq<ValueModel>, ErrorModel>(value_models(values@)),
            Err(e) => filled_first(
                if uniform { repeated(element@, trees@.len() as nat) } else { type_models(fields@) },
                value_models(trees@),
                trees@.len() as nat,
                whole@,
            ) == Err::<Seq<ValueModel>, ErrorModel>(e@),
        },
    decreases trees, 1nat,
{
    let ghost types = if uniform {
        repeated(element@, trees@.len() as nat)
    } else {
        type_models(fields@)
    };
    let ghost models = value_models(trees@);
    let mut values: Vec<TypedValue> = Vec::new();
    let mut i: usize = 0;
    assert(value_models(values@) =~= Seq::empty());
    while i < trees.len()
        invariant
            i <= trees.len(),
            !uniform ==> fields@.len() == trees@.len(),
            types == if uniform { repeated(element@, trees@.len() as nat) } else { type_models(fields@) },
            models == value_models(trees@),
            filled_first(types, models, i as nat, whole@) == Ok::<Seq<ValueModel>, ErrorModel>(value_models(values@)),
        decreases trees.len() - i,
    {
        assert(models[i as int] == trees@[i as int]@);
        let part = if uniform {
            assert(types[i as int] == element@);
            fill(element, &trees[i], whole)
        } else {
            assert(types[i as int] == fields@[i as int]@);
            fill(&fields[i], &trees[i], whole)
        };
        match part {
            Ok(v) => {
                let ghost before = value_models(values@);
                values.push(v);
                assert(value_models(values@) =~= before.push(v@));
            },
            Err(e) => {
                proof {
                    assert(filled_first(types, models, (i + 1) as nat, whole@) == Err::<Seq<ValueModel>, ErrorModel>(
                        e@,
                    ));
                    lemma_filled_first_stays_failed(types, models, (i + 1) as nat, models.len(), whole@);
                }
                return Err(e);
            },
        }
        i += 1;
    }
    Ok(values)
}

/// Reads the parts of a literal that was taken apart: see [`filled`].
pub fn fill(ty: &TypeNode, tree: &TypedValue, whole: &str) -> (r: Result<TypedValue, CodecError>)
    ensures
        value_result(r) == filled(ty@, tree@, whole@),
    decreases tree, 0nat,
{
    match (ty, tree) {
        (TypeNode::Array(e), TypedValue::Array(vs)) => {
            proof {
                assert(tree@->Array_0 =~= value_models(vs@));
            }
            let none: Vec<TypeNode> = Vec::new();
            match fill_each(e, &none, true, vs, whole) {
                Ok(values) => {
                    let r = TypedValue::Array(values);
                    assert(r@->Array_0 =~= value_models(values@));
                    Ok(r)
                },
                Err(x) => Err(x),
            }
        },
        (TypeNode::FixedArray(e, k), TypedValue::FixedArray(vs)) => {
            proof {
                assert(tree@->FixedArray_0 =~= value_models(vs@));
            }
            if vs.len() != *k {
                return Err(fail(ty, whole, ErrorKind::ArityMismatch));
            }
            let none: Vec<TypeNode> = Vec::new();
            match fill_each(e, &none, true, vs, whole) {
                Ok(values) => {
                    let r = TypedValue::FixedArray(values);
                    assert(r@->FixedArray_0 =~= value_models(values@));
                    Ok(r)
                },
                Err(x) => Err(x),
            }
        },
        (TypeNode::Tuple(ts), TypedValue::Tuple(vs)) => {
            proof {
                assert(tree@->Tuple_0 =~= value_models(vs@));
                assert(ty@->Tuple_0 =~= type_models(ts@));
            }
            if vs.len() != ts.len() {
                return Err(fail(ty, whole, ErrorKind::ArityMismatch));
            }
            match fill_each(ty, ts, false, vs, whole) {
                Ok(values) => {
                    let r = TypedValue::Tuple(values);
                    assert(r@->Tuple_0 =~= value_models(values@));
                    Ok(r)
                },
                Err(x) => Err(x),
            }
        },
        (_, TypedValue::String(s)) => {
            if ty.is_compound() {
                Err(fail(ty, whole, ErrorKind::ArityMismatch))
            } else {
                read_leaf(ty, s.as_str())
            }
        },
        _ => Err(fail(ty, whole, ErrorKind::ArityMismatch)),
    }
}

/// Decides what taking a literal apart and reading its parts comes to, given
/// what the outside reader made of the literal against the shape of the type:
/// see [`assembly`].
pub fn assemble_value(ty: &TypeNode, literal: &str, tree: Option<TypedValue>) -> (r: Result<TypedValue, CodecError>)
    ensures
        value_result(r) == assembly(ty@, literal@, outcome_model(tree)),
{
    if !ty.is_well_formed() {
        return Err(CodecError::MalformedSignature { text: ty.to_text() });
    }
    match tree {
        Some(tree) => fill(ty, &tree, literal),
        None => Err(fail(ty, literal, ErrorKind::ArityMismatch)),
    }
}

/// Reads `literal` against `ty`: see [`reading`].
pub fn coerce(ty: &TypeNode, literal: &str) -> (r: Result<TypedValue, CodecError>)
    ensures
        value_result(r) == reading(ty@, literal@),
{
    if ty.is_compound() {
        let shape = ty.to_shape();
        proof {
            lemma_shape_holds_no_integer(ty@);
        }
        let tree = sol_coerce(&shape, literal);
        assemble_value(ty, literal, tree)
    } else {
        read_leaf(ty, literal)
    }
}

/// What reading a literal against the type that a text names comes to: the
/// [`coercion`] against that type, or, where the text names no type, a
/// malformed signature with the text.
pub open spec fn named_coercion(ty: Seq<char>, arg: Seq<char>) -> Result<ValueModel, ErrorModel> {
    match named_type(ty) {
        Some(t) => reading(t, arg),
        None => Err(ErrorModel::MalformedSignature { text: ty }),
    }
}

/// Reads `arg` against the type that the text `ty` names: see [`named_coercion`].
pub fn coerce_value(ty: &str, arg: &str) -> (r: Result<TypedValue, CodecError>)
    ensures
        value_result(r) == named_coercion(ty@, arg@),
{
    match TypeNode::parse(ty) {
        Ok(node) => coerce(&node, arg),
        Err(e) => Err(e),
    }
}

} // verus!
