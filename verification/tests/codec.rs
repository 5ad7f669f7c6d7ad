use msup::abi_type::TypeNode;
use msup::coerce::{
    assemble_value, check_coerced, coerce, coerce_value, fill, is_admissible, is_written, kind_of_scalar, read_leaf,
};
use msup::descriptor::{assemble, name_parameter, FunctionDescriptor};
use msup::encode::{coerce_all, encode, encode_function_args};
use msup::error::{CodecError, ErrorKind};
use msup::text::{
    decimal_string, hex_literal_digits, hex_string, hex_writes, is_decimal_text, is_integer_literal, negate, writes_hex_number,
};
use msup::value::TypedValue;

fn word(last: u8) -> [u8; 32] {
    let mut w = [0u8; 32];
    w[31] = last;
    w
}

fn strings(items: &[&str]) -> Vec<String> {
    items.iter().map(|s| s.to_string()).collect()
}

fn selector_of(signature: &str) -> Vec<u8> {
    alloy_primitives::keccak256(signature.as_bytes())[..4].to_vec()
}

#[test]
fn unnamed_parameters_get_synthesized_names() {
    let f = FunctionDescriptor::parse("f(uint256,address)").unwrap();
    assert_eq!(f.name, "f");
    assert_eq!(f.inputs.len(), 2);
    assert_eq!(f.inputs[0].name, "unnamed_param0");
    assert_eq!(f.inputs[1].name, "unnamed_param1");
    assert_eq!(f.inputs[0].ty, TypeNode::Uint(256));
    assert_eq!(f.inputs[1].ty, TypeNode::Address);
    assert!(f.outputs.is_empty());
}

#[test]
fn only_unnamed_parameters_are_renamed() {
    let f = FunctionDescriptor::parse("f(uint256 a, address, bool c)").unwrap();
    assert_eq!(f.inputs[0].name, "a");
    assert_eq!(f.inputs[1].name, "unnamed_param1");
    assert_eq!(f.inputs[2].name, "c");
}

#[test]
fn parameter_names_count_from_zero_in_decimal() {
    assert_eq!(name_parameter(&String::new(), 0), "unnamed_param0");
    assert_eq!(name_parameter(&String::new(), 12), "unnamed_param12");
    assert_eq!(name_parameter(&"to".to_string(), 12), "to");
}

#[test]
fn returned_types_follow_the_parameters() {
    let f = FunctionDescriptor::parse("deposit(uint256 amount)(bytes32 depositHash)").unwrap();
    assert_eq!(f.name, "deposit");
    assert_eq!(f.inputs[0].name, "amount");
    assert_eq!(f.outputs, vec![TypeNode::FixedBytes(32)]);
}

#[test]
fn malformed_signatures_are_refused() {
    for text in ["f(uint256", "f(uint256))", "", "f(foo x)", "f(uint7 x)", "f(uint256 a, address a)"] {
        let err = FunctionDescriptor::parse(text).unwrap_err();
        assert_eq!(err, CodecError::MalformedSignature { text: text.to_string() });
        assert_eq!(err.kind(), ErrorKind::MalformedSignature);
    }
}

#[test]
fn a_given_name_may_not_clash_with_a_synthesized_one() {
    assert!(FunctionDescriptor::parse("f(uint256 unnamed_param1, address)").is_err());
    assert!(FunctionDescriptor::parse("f(uint256 unnamed_param0, address)").is_ok());
}

#[test]
fn assembling_needs_a_type_for_each_name() {
    let names = strings(&["a", ""]);
    let one = vec![TypeNode::Bool];
    assert_eq!(assemble("f".to_string(), &names, &one, vec![]), None);
    let two = vec![TypeNode::Bool, TypeNode::Uint(8)];
    let d = assemble("f".to_string(), &names, &two, vec![TypeNode::String]).unwrap();
    assert_eq!(d.inputs[1].name, "unnamed_param1");
    assert_eq!(d.inputs[1].ty, TypeNode::Uint(8));
    assert_eq!(d.outputs, vec![TypeNode::String]);
    let bad = vec![TypeNode::Bool, TypeNode::Uint(7)];
    assert_eq!(assemble("f".to_string(), &names, &bad, vec![]), None);
    assert_eq!(assemble("f".to_string(), &names, &two, vec![TypeNode::Function]), None);
}

#[test]
fn canonical_text_of_types() {
    assert_eq!(TypeNode::Uint(256).to_text(), "uint256");
    assert_eq!(TypeNode::Int(8).to_text(), "int8");
    assert_eq!(TypeNode::Address.to_text(), "address");
    assert_eq!(TypeNode::Bool.to_text(), "bool");
    assert_eq!(TypeNode::FixedBytes(32).to_text(), "bytes32");
    assert_eq!(TypeNode::Bytes.to_text(), "bytes");
    assert_eq!(TypeNode::String.to_text(), "string");
    let tuple = TypeNode::Tuple(vec![TypeNode::Uint(256), TypeNode::Address]);
    let nested = TypeNode::FixedArray(Box::new(TypeNode::Array(Box::new(tuple))), 2);
    assert_eq!(nested.to_text(), "(uint256,address)[][2]");
    assert_eq!(TypeNode::Tuple(vec![]).to_text(), "()");
    assert_eq!(TypeNode::Tuple(vec![TypeNode::Bool]).to_text(), "(bool)");
}

#[test]
fn well_formed_types_are_those_of_the_grammar() {
    assert!(TypeNode::Uint(8).is_well_formed());
    assert!(TypeNode::Uint(256).is_well_formed());
    assert!(!TypeNode::Uint(0).is_well_formed());
    assert!(!TypeNode::Uint(12).is_well_formed());
    assert!(!TypeNode::Int(264).is_well_formed());
    assert!(TypeNode::FixedBytes(1).is_well_formed());
    assert!(!TypeNode::FixedBytes(0).is_well_formed());
    assert!(!TypeNode::FixedBytes(33).is_well_formed());
    assert!(!TypeNode::Function.is_well_formed());
    assert!(!TypeNode::Array(Box::new(TypeNode::Uint(9))).is_well_formed());
    assert!(!TypeNode::Tuple(vec![TypeNode::Bool, TypeNode::Function]).is_well_formed());
    assert!(TypeNode::Tuple(vec![]).is_well_formed());
}

#[test]
fn a_copy_of_a_type_is_the_type() {
    let tuple = TypeNode::Tuple(vec![TypeNode::Uint(256), TypeNode::Array(Box::new(TypeNode::Bool))]);
    assert_eq!(tuple.duplicate(), tuple);
}

#[test]
fn canonical_signature_has_types_only() {
    let f = FunctionDescriptor::parse("transfer(address to, uint256 amount)(bool ok)").unwrap();
    assert_eq!(f.canonical_signature(), "transfer(address,uint256)");
    let g = FunctionDescriptor::parse("f(uint x, (bool,bytes)[] y)").unwrap();
    assert_eq!(g.canonical_signature(), "f(uint256,(bool,bytes)[])");
    let h = FunctionDescriptor::parse("nothing()").unwrap();
    assert_eq!(h.canonical_signature(), "nothing()");
}

#[test]
fn selector_depends_on_the_canonical_signature_only() {
    let f = FunctionDescriptor::parse("transfer(address to, uint256 amount)").unwrap();
    let g = FunctionDescriptor::parse("transfer(address,uint256)(bool)").unwrap();
    let h = FunctionDescriptor::parse("transfer(address recipient, uint value)").unwrap();
    assert_eq!(f.selector(), [0xa9, 0x05, 0x9c, 0xbb]);
    assert_eq!(g.selector(), f.selector());
    assert_eq!(h.selector(), f.selector());
    let other = FunctionDescriptor::parse("transfer(address to, uint128 amount)").unwrap();
    assert_ne!(other.selector(), f.selector());
}

#[test]
fn fixed_bytes_need_their_exact_length() {
    let err = coerce(&TypeNode::FixedBytes(4), "0x1234").unwrap_err();
    assert_eq!(err.kind(), ErrorKind::InvalidLength);
    assert_eq!(
        err,
        CodecError::Coercion {
            kind: ErrorKind::InvalidLength,
            literal: "0x1234".to_string(),
            ty: "bytes4".to_string()
        }
    );
    let mut w = [0u8; 32];
    w[0] = 0x11;
    w[1] = 0x22;
    w[2] = 0x33;
    w[3] = 0x44;
    assert_eq!(coerce(&TypeNode::FixedBytes(4), "0x11223344"), Ok(TypedValue::FixedBytes(w, 4)));
    assert_eq!(coerce_value("bytes4", "0x11223344"), Ok(TypedValue::FixedBytes(w, 4)));
    for literal in ["11223344", "0x1122334455", "0x112233zz", "0X11223344", ""] {
        assert_eq!(coerce_value("bytes4", literal).unwrap_err().kind(), ErrorKind::InvalidLength);
    }
}

#[test]
fn integers_stay_within_their_width() {
    let err = coerce_value("uint8", "256").unwrap_err();
    assert_eq!(err.kind(), ErrorKind::OutOfRange);
    assert_eq!(
        err,
        CodecError::Coercion { kind: ErrorKind::OutOfRange, literal: "256".to_string(), ty: "uint8".to_string() }
    );
    assert_eq!(coerce_value("uint8", "255"), Ok(TypedValue::Uint(word(255), 8)));
    assert_eq!(coerce_value("uint8", "0xff"), Ok(TypedValue::Uint(word(255), 8)));
    assert_eq!(coerce_value("uint8", "-1").unwrap_err().kind(), ErrorKind::OutOfRange);
    assert_eq!(coerce_value("uint8", "abc").unwrap_err().kind(), ErrorKind::OutOfRange);
    let mut big = [0u8; 32];
    big[30] = 1;
    assert_eq!(coerce_value("uint16", "256"), Ok(TypedValue::Uint(big, 16)));
    assert_eq!(coerce_value("uint256", "0"), Ok(TypedValue::Uint([0u8; 32], 256)));
    let max = "115792089237316195423570985008687907853269984665640564039457584007913129639935";
    assert_eq!(coerce_value("uint256", max), Ok(TypedValue::Uint([0xff; 32], 256)));
    let over = "115792089237316195423570985008687907853269984665640564039457584007913129639936";
    assert_eq!(coerce_value("uint256", over).unwrap_err().kind(), ErrorKind::OutOfRange);
}

#[test]
fn signed_integers_are_held_in_twos_complement() {
    assert_eq!(coerce_value("int8", "-1"), Ok(TypedValue::Int([0xff; 32], 8)));
    let mut low = [0xff; 32];
    low[31] = 0x80;
    assert_eq!(coerce_value("int8", "-128"), Ok(TypedValue::Int(low, 8)));
    assert_eq!(coerce_value("int8", "127"), Ok(TypedValue::Int(word(127), 8)));
    assert_eq!(coerce_value("int8", "128").unwrap_err().kind(), ErrorKind::OutOfRange);
    assert_eq!(coerce_value("int8", "-129").unwrap_err().kind(), ErrorKind::OutOfRange);
}

#[test]
fn addresses_are_prefixed_and_forty_digits_long() {
    let mut a = [0u8; 20];
    a[19] = 1;
    assert_eq!(
        coerce_value("address", "0x0000000000000000000000000000000000000001"),
        Ok(TypedValue::Address(a))
    );
    let mixed = "0xd8dA6BF26964aF9D7eEd9e03E53415D37aA96045";
    let bytes = [
        0xd8, 0xda, 0x6b, 0xf2, 0x69, 0x64, 0xaf, 0x9d, 0x7e, 0xed, 0x9e, 0x03, 0xe5, 0x34, 0x15, 0xd3, 0x7a, 0xa9,
        0x60, 0x45,
    ];
    assert_eq!(coerce_value("address", mixed), Ok(TypedValue::Address(bytes)));
    for literal in [
        "0x00000000000000000000000000000000000001",
        "0000000000000000000000000000000000000001",
        "0x000000000000000000000000000000000000000g",
        "0x00000000000000000000000000000000000000001",
        "",
    ] {
        let err = coerce_value("address", literal).unwrap_err();
        assert_eq!(
            err,
            CodecError::Coercion {
                kind: ErrorKind::InvalidAddress,
                literal: literal.to_string(),
                ty: "address".to_string()
            }
        );
    }
}

#[test]
fn booleans_are_true_or_false() {
    assert_eq!(coerce_value("bool", "true"), Ok(TypedValue::Bool(true)));
    assert_eq!(coerce_value("bool", "false"), Ok(TypedValue::Bool(false)));
    for literal in ["True", "1", "", " true", "falsy"] {
        assert_eq!(coerce_value("bool", literal).unwrap_err().kind(), ErrorKind::InvalidBool);
    }
}

#[test]
fn strings_are_taken_as_they_stand() {
    for literal in ["hi", "", "  spaced  ", "\"quoted\"", "'", "[1,2]", "caf\u{e9}"] {
        assert_eq!(coerce_value("string", literal), Ok(TypedValue::String(literal.to_string())));
    }
}

#[test]
fn dynamic_bytes_are_whole_bytes_of_hex() {
    assert_eq!(coerce_value("bytes", "0x"), Ok(TypedValue::Bytes(vec![])));
    assert_eq!(coerce_value("bytes", "0x00ffA1"), Ok(TypedValue::Bytes(vec![0x00, 0xff, 0xa1])));
    for literal in ["0x123", "00ff", "0xzz", ""] {
        assert_eq!(coerce_value("bytes", literal).unwrap_err().kind(), ErrorKind::InvalidLength);
    }
}

#[test]
fn arrays_and_tuples_are_read_element_by_element() {
    assert_eq!(
        coerce_value("uint8[]", "[1, 2,3]"),
        Ok(TypedValue::Array(vec![
            TypedValue::Uint(word(1), 8),
            TypedValue::Uint(word(2), 8),
            TypedValue::Uint(word(3), 8)
        ]))
    );
    assert_eq!(coerce_value("uint8[]", "[]"), Ok(TypedValue::Array(vec![])));
    assert_eq!(
        coerce_value("bool[2]", "[true,false]"),
        Ok(TypedValue::FixedArray(vec![TypedValue::Bool(true), TypedValue::Bool(false)]))
    );
    assert_eq!(
        coerce_value("(uint8,bool)", "(7,true)"),
        Ok(TypedValue::Tuple(vec![TypedValue::Uint(word(7), 8), TypedValue::Bool(true)]))
    );
    assert_eq!(
        coerce_value("uint8[][]", "[[1],[2,3]]"),
        Ok(TypedValue::Array(vec![
            TypedValue::Array(vec![TypedValue::Uint(word(1), 8)]),
            TypedValue::Array(vec![TypedValue::Uint(word(2), 8), TypedValue::Uint(word(3), 8)])
        ]))
    );
}

#[test]
fn a_wrong_number_of_elements_is_an_arity_mismatch() {
    for (ty, literal) in [("bool[2]", "[true]"), ("bool[2]", "[true,false,true]"), ("(uint8,bool)", "(7)")] {
        let err = coerce_value(ty, literal).unwrap_err();
        assert_eq!(
            err,
            CodecError::Coercion { kind: ErrorKind::ArityMismatch, literal: literal.to_string(), ty: ty.to_string() }
        );
    }
}

#[test]
fn a_wrong_element_fails_with_its_own_kind() {
    assert_eq!(coerce_value("uint8[]", "[256]").unwrap_err().kind(), ErrorKind::OutOfRange);
    assert_eq!(coerce_value("uint8[][]", "[[1],[256]]").unwrap_err().kind(), ErrorKind::OutOfRange);
    assert_eq!(coerce_value("bool[]", "[true,no]").unwrap_err().kind(), ErrorKind::InvalidBool);
    assert_eq!(coerce_value("address[]", "[0x01]").unwrap_err().kind(), ErrorKind::InvalidAddress);
    assert_eq!(coerce_value("bytes2[]", "[0x01]").unwrap_err().kind(), ErrorKind::InvalidLength);
    assert_eq!(coerce_value("uint8[2]", "[256,1]").unwrap_err().kind(), ErrorKind::OutOfRange);
    assert_eq!(coerce_value("uint8[2]", "[1,2,3]").unwrap_err().kind(), ErrorKind::ArityMismatch);
    assert_eq!(coerce_value("uint8[2]", "[]").unwrap_err().kind(), ErrorKind::ArityMismatch);
    assert_eq!(coerce_value("string[]", "[a").unwrap_err().kind(), ErrorKind::ArityMismatch);
    assert_eq!(coerce_value("uint8[2][]", "[[1,2,3]]").unwrap_err().kind(), ErrorKind::ArityMismatch);
    assert_eq!(coerce_value("(uint8,bool)", "(256,true)").unwrap_err().kind(), ErrorKind::OutOfRange);
    assert_eq!(coerce_value("(uint8,bool)", "(255,maybe)").unwrap_err().kind(), ErrorKind::InvalidBool);
    assert_eq!(coerce_value("(uint8,bool)", "(256,maybe)").unwrap_err().kind(), ErrorKind::OutOfRange);
    assert_eq!(coerce_value("(bool,address)", "(true,0x01)").unwrap_err().kind(), ErrorKind::InvalidAddress);
    assert_eq!(coerce_value("(bool,bytes2)[]", "[(true,0x0102),(true,0x01)]").unwrap_err().kind(), ErrorKind::InvalidLength);
    assert_eq!(coerce_value("(uint8,(bool,uint8[2]))", "(1,(true,[1,2,3]))").unwrap_err().kind(), ErrorKind::ArityMismatch);
    assert_eq!(coerce_value("(uint8,(bool,uint8[2]))", "(1,(true,[1,256]))").unwrap_err().kind(), ErrorKind::OutOfRange);
    assert_eq!(coerce_value("(uint8,bool)", "(1,true,2)").unwrap_err().kind(), ErrorKind::ArityMismatch);
    assert_eq!(kind_of_scalar(&TypeNode::Uint(8)), ErrorKind::OutOfRange);
    assert_eq!(kind_of_scalar(&TypeNode::Int(8)), ErrorKind::OutOfRange);
    assert_eq!(kind_of_scalar(&TypeNode::Address), ErrorKind::InvalidAddress);
    assert_eq!(kind_of_scalar(&TypeNode::Bool), ErrorKind::InvalidBool);
    assert_eq!(kind_of_scalar(&TypeNode::Bytes), ErrorKind::InvalidLength);
    assert_eq!(kind_of_scalar(&TypeNode::FixedBytes(2)), ErrorKind::InvalidLength);
    assert_eq!(kind_of_scalar(&TypeNode::Function), ErrorKind::MalformedSignature);
    assert_eq!(kind_of_scalar(&TypeNode::String), ErrorKind::ArityMismatch);
}

#[test]
fn a_long_exponent_never_reaches_the_reader() {
    let long = "1e9223372036854775807gwei";
    for ty in ["uint8", "uint256", "int256"] {
        assert_eq!(coerce_value(ty, long).unwrap_err().kind(), ErrorKind::OutOfRange);
    }
    let nested = "[1e9223372036854775807gwei]";
    assert_eq!(
        coerce_value("uint8[]", nested),
        Err(CodecError::Coercion {
            kind: ErrorKind::OutOfRange,
            literal: long.to_string(),
            ty: "uint8".to_string()
        })
    );
    assert_eq!(coerce_value("uint256[1]", nested).unwrap_err().kind(), ErrorKind::OutOfRange);
    assert_eq!(coerce_value("(bool,int8)", "(true,2E-9223372036854775808ether)").unwrap_err().kind(), ErrorKind::OutOfRange);
    assert_eq!(coerce_value("(bool,uint256)", "(true,1.5e1234567890)").unwrap_err().kind(), ErrorKind::OutOfRange);
    assert!(!is_admissible(&TypeNode::Uint(8), long));
    assert_eq!(read_leaf(&TypeNode::Uint(8), long).unwrap_err().kind(), ErrorKind::OutOfRange);
    assert_eq!(
        coerce_value("string[]", nested),
        Ok(TypedValue::Array(vec![TypedValue::String("1e9223372036854775807gwei".to_string())]))
    );
    let f = FunctionDescriptor::parse("f(uint256 a, uint8[] b)").unwrap();
    let err = encode_function_args(&f, &strings(&[long, nested])).unwrap_err();
    assert_eq!(err.kind(), ErrorKind::OutOfRange);
    let err = encode_function_args(&f, &strings(&["1", nested])).unwrap_err();
    assert_eq!(err.kind(), ErrorKind::OutOfRange);
}

#[test]
fn every_leaf_of_a_list_is_read_as_a_literal_of_its_own() {
    let mut to = [0u8; 20];
    to[0] = 0xe0;
    to[19] = 1;
    assert_eq!(
        coerce_value("(uint8,address)", "(1, 0xe000000000000000000000000000000000000001)"),
        Ok(TypedValue::Tuple(vec![TypedValue::Uint(word(1), 8), TypedValue::Address(to)]))
    );
    assert_eq!(
        coerce_value("string[]", "[\"a,b\", c ,'d]']"),
        Ok(TypedValue::Array(vec![
            TypedValue::String("a,b".to_string()),
            TypedValue::String("c".to_string()),
            TypedValue::String("d]".to_string())
        ]))
    );
    assert_eq!(
        coerce_value("int16[2]", "[-0x1, 0255]"),
        Ok(TypedValue::FixedArray(vec![TypedValue::Int([0xff; 32], 16), TypedValue::Int(word(255), 16)]))
    );
    for (ty, literal, leaf, leaf_ty, kind) in [
        ("uint256[]", "[1 gwei]", "1 gwei", "uint256", ErrorKind::OutOfRange),
        ("uint256[]", "[1, 1e3]", "1e3", "uint256", ErrorKind::OutOfRange),
        ("(bool,uint8)", "(true,256)", "256", "uint8", ErrorKind::OutOfRange),
        ("(bool,uint8)", "(1,2)", "1", "bool", ErrorKind::InvalidBool),
        (
            "address[]",
            "[0000000000000000000000000000000000000001]",
            "0000000000000000000000000000000000000001",
            "address",
            ErrorKind::InvalidAddress,
        ),
        ("(string,bytes)[]", "[(a,0x01),(b,01)]", "01", "bytes", ErrorKind::InvalidLength),
        ("bytes2[1]", "[0x01]", "0x01", "bytes2", ErrorKind::InvalidLength),
    ] {
        assert_eq!(
            coerce_value(ty, literal),
            Err(CodecError::Coercion { kind, literal: leaf.to_string(), ty: leaf_ty.to_string() })
        );
    }
}

#[test]
fn the_parts_of_a_literal_are_read_against_their_types() {
    let text = |s: &str| TypedValue::String(s.to_string());
    let list = TypeNode::Array(Box::new(TypeNode::Uint(8)));
    assert_eq!(
        fill(&list, &TypedValue::Array(vec![text("1"), text("0x02")]), "whole"),
        Ok(TypedValue::Array(vec![TypedValue::Uint(word(1), 8), TypedValue::Uint(word(2), 8)]))
    );
    assert_eq!(fill(&list, &TypedValue::Array(vec![]), "whole"), Ok(TypedValue::Array(vec![])));
    assert_eq!(
        fill(&list, &TypedValue::Array(vec![text("1"), text("300"), text("x")]), "whole"),
        Err(CodecError::Coercion { kind: ErrorKind::OutOfRange, literal: "300".to_string(), ty: "uint8".to_string() })
    );
    let arity = |ty: &str| CodecError::Coercion {
        kind: ErrorKind::ArityMismatch,
        literal: "whole".to_string(),
        ty: ty.to_string(),
    };
    assert_eq!(fill(&list, &text("1"), "whole"), Err(arity("uint8[]")));
    assert_eq!(fill(&list, &TypedValue::Tuple(vec![text("1")]), "whole"), Err(arity("uint8[]")));
    assert_eq!(fill(&list, &TypedValue::Array(vec![TypedValue::Array(vec![])]), "whole"), Err(arity("uint8")));
    let pair = TypeNode::FixedArray(Box::new(TypeNode::Bool), 2);
    assert_eq!(fill(&pair, &TypedValue::FixedArray(vec![text("true")]), "whole"), Err(arity("bool[2]")));
    assert_eq!(
        fill(&pair, &TypedValue::FixedArray(vec![text("true"), text("false")]), "whole"),
        Ok(TypedValue::FixedArray(vec![TypedValue::Bool(true), TypedValue::Bool(false)]))
    );
    let tuple = TypeNode::Tuple(vec![TypeNode::String, TypeNode::Array(Box::new(TypeNode::Bool))]);
    assert_eq!(
        fill(&tuple, &TypedValue::Tuple(vec![text(" kept "), TypedValue::Array(vec![text("true")])]), "whole"),
        Ok(TypedValue::Tuple(vec![text(" kept "), TypedValue::Array(vec![TypedValue::Bool(true)])]))
    );
    assert_eq!(fill(&tuple, &TypedValue::Tuple(vec![text("a")]), "whole"), Err(arity("(string,bool[])")));
    assert_eq!(fill(&TypeNode::Bool, &TypedValue::Bool(true), "whole"), Err(arity("bool")));
    assert_eq!(fill(&TypeNode::Bool, &text("true"), "whole"), Ok(TypedValue::Bool(true)));
    assert_eq!(assemble_value(&list, "whole", None), Err(arity("uint8[]")));
    assert_eq!(
        assemble_value(&list, "whole", Some(TypedValue::Array(vec![text("7")]))),
        Ok(TypedValue::Array(vec![TypedValue::Uint(word(7), 8)]))
    );
    let bad = TypeNode::Array(Box::new(TypeNode::Uint(7)));
    assert_eq!(
        assemble_value(&bad, "whole", Some(TypedValue::Array(vec![]))),
        Err(CodecError::MalformedSignature { text: "uint7[]".to_string() })
    );
    assert_eq!(
        check_coerced(&list, "[1]", Some(TypedValue::Array(vec![]))),
        Err(CodecError::Coercion {
            kind: ErrorKind::ArityMismatch,
            literal: "[1]".to_string(),
            ty: "uint8[]".to_string()
        })
    );
}

#[test]
fn integers_are_decimal_or_prefixed_hexadecimal() {
    for text in ["0", "7", "007", "-1", "-0", "0x0", "0xff", "0xFF", "-0x1f", "115792089237316195423570985008687907853269984665640564039457584007913129639936"] {
        assert!(is_integer_literal(text));
    }
    for text in ["", "-", "+1", "0x", "-0x", "0X1", "1e3", "1 ether", "1.0", "0b1", "0o7", " 1", "1 ", "--1", "0x-1", "1_000", "ff", "\u{661}"] {
        assert!(!is_integer_literal(text));
        assert_eq!(
            coerce_value("uint256", text),
            Err(CodecError::Coercion {
                kind: ErrorKind::OutOfRange,
                literal: text.to_string(),
                ty: "uint256".to_string()
            })
        );
        assert_eq!(coerce_value("int256", text).unwrap_err().kind(), ErrorKind::OutOfRange);
    }
    let mut w = [0u8; 32];
    w[30] = 1;
    assert_eq!(coerce_value("uint16", "0x0100"), Ok(TypedValue::Uint(w, 16)));
    assert_eq!(coerce_value("uint16", "0x0000000000000000000000000000000000000000000000000000000000000000000100"), Ok(TypedValue::Uint(w, 16)));
    assert_eq!(coerce_value("uint16", "000256"), Ok(TypedValue::Uint(w, 16)));
    assert_eq!(coerce_value("int16", "0x0100"), Ok(TypedValue::Int(w, 16)));
    assert_eq!(coerce_value("int8", "-0x1"), Ok(TypedValue::Int([0xff; 32], 8)));
    assert_eq!(coerce_value("int8", "-0"), Ok(TypedValue::Int([0; 32], 8)));
    assert_eq!(coerce_value("uint8", "0x100").unwrap_err().kind(), ErrorKind::OutOfRange);
    assert_eq!(coerce_value("uint8", "-0").unwrap_err().kind(), ErrorKind::OutOfRange);
}

#[test]
fn a_word_is_the_number_its_hexadecimal_digits_write() {
    let mut w = [0u8; 32];
    w[31] = 0xff;
    w[30] = 0x0a;
    assert!(writes_hex_number(&w, "0x0aff", 2));
    assert!(writes_hex_number(&w, "0xAfF", 2));
    assert!(writes_hex_number(&w, "0x0000000000000000000000000000000000000000000000000000000000000000000aff", 2));
    assert!(writes_hex_number(&w, "-0xaff", 3));
    assert!(!writes_hex_number(&w, "0xafe", 2));
    assert!(!writes_hex_number(&w, "0xff", 2));
    assert!(!writes_hex_number(&w, "0x1aff", 2));
    assert!(!writes_hex_number(&w, "0x", 2));
    assert!(writes_hex_number(&[0u8; 32], "0x", 2));
    assert!(writes_hex_number(&[0u8; 32], "0x000", 2));
    assert!(writes_hex_number(&[0xff; 32], "0xffffffffffffffffffffffffffffffffffffffffffffffffffffffffffffffff", 2));
    assert!(!writes_hex_number(&[0xff; 32], "0x1ffffffffffffffffffffffffffffffffffffffffffffffffffffffffffffffff", 2));
}

#[test]
fn the_shape_of_a_type_has_strings_for_leaves() {
    let ty = TypeNode::parse("(uint8,(bool,address[2])[],bytes,string)").unwrap();
    assert_eq!(ty.to_shape().to_text(), "(string,(string,string[2])[],string,string)");
    assert_eq!(TypeNode::Uint(8).to_shape(), TypeNode::String);
    assert_eq!(TypeNode::Function.to_shape(), TypeNode::String);
    assert_eq!(TypeNode::Tuple(vec![]).to_shape(), TypeNode::Tuple(vec![]));
    assert!(ty.is_compound());
    assert!(!TypeNode::Address.is_compound());
}

#[test]
fn a_text_that_is_no_type_is_a_malformed_signature() {
    for ty in ["uint7", "foo", "", "uint256[", "bytes33", "function"] {
        let err = coerce_value(ty, "1").unwrap_err();
        assert_eq!(err.kind(), ErrorKind::MalformedSignature);
    }
    assert_eq!(
        coerce(&TypeNode::Uint(7), "1"),
        Err(CodecError::MalformedSignature { text: "uint7".to_string() })
    );
}

#[test]
fn admissible_literals() {
    assert!(is_admissible(&TypeNode::Address, "0x00000000000000000000000000000000000000aB"));
    assert!(!is_admissible(&TypeNode::Address, "0x00"));
    assert!(is_admissible(&TypeNode::FixedBytes(1), "0x0f"));
    assert!(!is_admissible(&TypeNode::FixedBytes(1), "0x0"));
    assert!(is_admissible(&TypeNode::Bytes, "0x"));
    assert!(!is_admissible(&TypeNode::Bytes, "0x0"));
    assert!(is_admissible(&TypeNode::Bool, "true"));
    assert!(!is_admissible(&TypeNode::Bool, "yes"));
    assert!(!is_admissible(&TypeNode::Uint(8), "anything"));
    assert!(is_admissible(&TypeNode::Uint(8), "12"));
    assert!(is_admissible(&TypeNode::Int(8), "-0x0c"));
    assert!(is_admissible(&TypeNode::Tuple(vec![TypeNode::Uint(8)]), "anything"));
    assert!(is_admissible(&TypeNode::String, ""));
}

#[test]
fn hex_literals_and_their_digits() {
    assert_eq!(hex_literal_digits("0x"), Some(0));
    assert_eq!(hex_literal_digits("0x0aF"), Some(3));
    assert_eq!(hex_literal_digits("0X0a"), None);
    assert_eq!(hex_literal_digits("0a"), None);
    assert_eq!(hex_literal_digits("0x0g"), None);
    assert_eq!(hex_literal_digits("0x0\u{e9}"), None);
    assert_eq!(hex_literal_digits("0"), None);
    assert_eq!(hex_literal_digits(""), None);
}

#[test]
fn a_read_value_must_conform_to_its_type() {
    let ty = TypeNode::Uint(8);
    assert_eq!(check_coerced(&ty, "255", Some(TypedValue::Uint(word(255), 8))), Ok(TypedValue::Uint(word(255), 8)));
    let mut wide = [0u8; 32];
    wide[30] = 1;
    for outcome in [
        None,
        Some(TypedValue::Uint(wide, 8)),
        Some(TypedValue::Uint(word(1), 16)),
        Some(TypedValue::Int(word(1), 8)),
        Some(TypedValue::Bool(true)),
    ] {
        assert_eq!(check_coerced(&ty, "1", outcome).unwrap_err().kind(), ErrorKind::OutOfRange);
    }
    let pair = TypeNode::FixedArray(Box::new(TypeNode::Bool), 2);
    let short = Some(TypedValue::FixedArray(vec![TypedValue::Bool(true)]));
    assert_eq!(check_coerced(&pair, "[true]", short).unwrap_err().kind(), ErrorKind::ArityMismatch);
    assert_eq!(check_coerced(&pair, "[maybe]", None).unwrap_err().kind(), ErrorKind::ArityMismatch);
    assert_eq!(check_coerced(&TypeNode::Bool, "true", None), Ok(TypedValue::Bool(true)));
    assert_eq!(check_coerced(&TypeNode::String, "s", None), Ok(TypedValue::String("s".to_string())));
}

#[test]
fn conformance_of_values() {
    assert!(TypedValue::Uint(word(1), 8).conforms_to(&TypeNode::Uint(8)));
    assert!(!TypedValue::Uint(word(1), 8).conforms_to(&TypeNode::Uint(16)));
    assert!(!TypedValue::Uint(word(1), 8).conforms_to(&TypeNode::Int(8)));
    assert!(TypedValue::Int([0xff; 32], 8).conforms_to(&TypeNode::Int(8)));
    let mut half = [0xff; 32];
    half[0] = 0;
    assert!(!TypedValue::Int(half, 8).conforms_to(&TypeNode::Int(8)));
    assert!(TypedValue::Int(half, 256).conforms_to(&TypeNode::Int(256)));
    let mut padded = [0u8; 32];
    padded[0] = 0xab;
    assert!(TypedValue::FixedBytes(padded, 1).conforms_to(&TypeNode::FixedBytes(1)));
    assert!(!TypedValue::FixedBytes(word(1), 1).conforms_to(&TypeNode::FixedBytes(1)));
    assert!(TypedValue::Address([7; 20]).conforms_to(&TypeNode::Address));
    assert!(!TypedValue::Function([7; 24]).conforms_to(&TypeNode::Function));
    let values = TypedValue::Tuple(vec![TypedValue::Bool(true), TypedValue::String("x".to_string())]);
    assert!(values.conforms_to(&TypeNode::Tuple(vec![TypeNode::Bool, TypeNode::String])));
    assert!(!values.conforms_to(&TypeNode::Tuple(vec![TypeNode::Bool])));
    assert!(!values.conforms_to(&TypeNode::Tuple(vec![TypeNode::String, TypeNode::Bool])));
    let list = TypedValue::Array(vec![TypedValue::Bool(true), TypedValue::Uint(word(1), 8)]);
    assert!(!list.conforms_to(&TypeNode::Array(Box::new(TypeNode::Bool))));
    assert!(TypedValue::Array(vec![]).conforms_to(&TypeNode::Array(Box::new(TypeNode::Bool))));
    let fixed = TypedValue::FixedArray(vec![TypedValue::Bool(true)]);
    assert!(fixed.conforms_to(&TypeNode::FixedArray(Box::new(TypeNode::Bool), 1)));
    assert!(!fixed.conforms_to(&TypeNode::FixedArray(Box::new(TypeNode::Bool), 2)));
}

#[test]
fn transfer_encodes_to_selector_and_two_words() {
    let f = FunctionDescriptor::parse("transfer(address to, uint256 amount)").unwrap();
    let args = strings(&["0x0000000000000000000000000000000000000001", "100"]);
    let data = encode_function_args(&f, &args).unwrap();
    let mut expected = vec![0xa9, 0x05, 0x9c, 0xbb];
    expected.extend_from_slice(&word(1));
    expected.extend_from_slice(&word(100));
    assert_eq!(data, expected);
}

#[test]
fn encoding_twice_gives_the_same_bytes() {
    let f = FunctionDescriptor::parse("f(string memo, uint8[] list, (bool,bytes) pair)").unwrap();
    let args = strings(&["hello", "[1,2,3]", "(true,0x00ff)"]);
    let first = encode_function_args(&f, &args).unwrap();
    let second = encode_function_args(&f, &args).unwrap();
    assert_eq!(first, second);
    let again = FunctionDescriptor::parse("f(string memo, uint8[] list, (bool,bytes) pair)").unwrap();
    assert_eq!(encode_function_args(&again, &strings(&["hello", "[1,2,3]", "(true,0x00ff)"])).unwrap(), first);
}

#[test]
fn a_string_is_encoded_in_the_tail() {
    let f = FunctionDescriptor::parse("transfer(string memo)").unwrap();
    let data = encode_function_args(&f, &strings(&["hi"])).unwrap();
    let mut expected = selector_of("transfer(string)");
    expected.extend_from_slice(&word(32));
    expected.extend_from_slice(&word(2));
    let mut text = [0u8; 32];
    text[0] = b'h';
    text[1] = b'i';
    expected.extend_from_slice(&text);
    assert_eq!(data, expected);
    assert_eq!(data.len(), 4 + 3 * 32);
}

#[test]
fn static_and_dynamic_values_share_the_head() {
    let f = FunctionDescriptor::parse("f(uint8 a, bytes b, bool c)").unwrap();
    let data = encode_function_args(&f, &strings(&["1", "0xabcd", "true"])).unwrap();
    let mut expected = selector_of("f(uint8,bytes,bool)");
    expected.extend_from_slice(&word(1));
    expected.extend_from_slice(&word(96));
    expected.extend_from_slice(&word(1));
    expected.extend_from_slice(&word(2));
    let mut bytes = [0u8; 32];
    bytes[0] = 0xab;
    bytes[1] = 0xcd;
    expected.extend_from_slice(&bytes);
    assert_eq!(data, expected);
}

#[test]
fn no_parameters_encode_to_the_selector_alone() {
    let f = FunctionDescriptor::parse("pause()").unwrap();
    assert_eq!(encode_function_args(&f, &vec![]).unwrap(), selector_of("pause()"));
}

#[test]
fn a_wrong_number_of_values_is_an_arity_mismatch() {
    let f = FunctionDescriptor::parse("transfer(address to, uint256 amount)").unwrap();
    let one = strings(&["0x0000000000000000000000000000000000000001"]);
    assert_eq!(encode_function_args(&f, &one), Err(CodecError::ArityMismatch { parameters: 2, values: 1 }));
    let three = strings(&["0x0000000000000000000000000000000000000001", "1", "2"]);
    let err = encode_function_args(&f, &three).unwrap_err();
    assert_eq!(err, CodecError::ArityMismatch { parameters: 2, values: 3 });
    assert_eq!(err.kind(), ErrorKind::ArityMismatch);
    assert_eq!(encode(&f, &vec![TypedValue::Address([0; 20])]), Err(CodecError::ArityMismatch { parameters: 2, values: 1 }));
}

#[test]
fn the_first_literal_that_fails_decides() {
    let f = FunctionDescriptor::parse("f(uint8 a, bool b, address c)").unwrap();
    let err = encode_function_args(&f, &strings(&["1", "maybe", "nowhere"])).unwrap_err();
    assert_eq!(err.kind(), ErrorKind::InvalidBool);
    let err = encode_function_args(&f, &strings(&["300"])).unwrap_err();
    assert_eq!(err.kind(), ErrorKind::OutOfRange);
    let values = coerce_all(&f, &strings(&["1", "true"])).unwrap();
    assert_eq!(values, vec![TypedValue::Uint(word(1), 8), TypedValue::Bool(true)]);
}

#[test]
fn encoding_values_directly() {
    let f = FunctionDescriptor::parse("transfer(address to, uint256 amount)").unwrap();
    let mut to = [0u8; 20];
    to[19] = 1;
    let values = vec![TypedValue::Address(to), TypedValue::Uint(word(100), 256)];
    let args = strings(&["0x0000000000000000000000000000000000000001", "100"]);
    assert_eq!(encode(&f, &values), encode_function_args(&f, &args));
}

#[test]
fn numbers_in_decimal() {
    assert_eq!(decimal_string(0), "0");
    assert_eq!(decimal_string(9), "9");
    assert_eq!(decimal_string(10), "10");
    assert_eq!(decimal_string(256), "256");
    assert_eq!(decimal_string(u64::MAX), "18446744073709551615");
}

#[test]
fn bytes_in_hexadecimal() {
    assert_eq!(hex_string(&vec![]), "0x");
    assert_eq!(hex_string(&vec![0x00, 0x0f, 0xa9, 0xff]), "0x000fa9ff");
}

#[test]
fn a_hex_literal_writes_its_bytes() {
    assert!(hex_writes(&[0xab, 0xcd], 2, "0xabcd"));
    assert!(hex_writes(&[0xab, 0xcd], 2, "0xABcD"));
    assert!(hex_writes(&[0xab, 0xcd], 1, "0xab"));
    assert!(hex_writes(&[0xab, 0xcd], 0, "0x"));
    assert!(hex_writes(&[], 0, "0x"));
    assert!(!hex_writes(&[0xab, 0xcd], 2, "0xabce"));
    assert!(!hex_writes(&[0xab, 0xcd], 2, "0xbbcd"));
    assert!(!hex_writes(&[0xab, 0xcd], 2, "0xab"));
    assert!(!hex_writes(&[0xab, 0xcd], 1, "0xabcd"));
    assert!(hex_writes(&[0x00, 0x09, 0x0a, 0xf0, 0xff], 5, "0x00090AF0ff"));
}

#[test]
fn decimal_digits_and_nothing_else() {
    for text in ["0", "7", "10", "0255", "00"] {
        assert!(is_decimal_text(text));
    }
    for text in ["", "+1", "-1", "0x1", "1e3", "1 ", "\u{661}"] {
        assert!(!is_decimal_text(text));
    }
}

#[test]
fn a_read_value_must_hold_what_the_literal_writes() {
    let mut one = [0u8; 20];
    one[19] = 1;
    let literal = "0x0000000000000000000000000000000000000001";
    assert!(is_written(&TypedValue::Address(one), literal));
    assert!(!is_written(&TypedValue::Address([0; 20]), literal));
    assert_eq!(check_coerced(&TypeNode::Address, literal, Some(TypedValue::Address(one))), Ok(TypedValue::Address(one)));
    let err = check_coerced(&TypeNode::Address, literal, Some(TypedValue::Address([0; 20]))).unwrap_err();
    assert_eq!(err.kind(), ErrorKind::InvalidAddress);
    let mut padded = [0u8; 32];
    padded[0] = 0xab;
    assert!(is_written(&TypedValue::FixedBytes(padded, 1), "0xAB"));
    assert!(!is_written(&TypedValue::FixedBytes(padded, 1), "0xaa"));
    assert!(!is_written(&TypedValue::FixedBytes(padded, 2), "0xab"));
    assert!(!is_written(&TypedValue::FixedBytes(padded, 33), "0xab"));
    let err = check_coerced(&TypeNode::FixedBytes(1), "0xaa", Some(TypedValue::FixedBytes(padded, 1))).unwrap_err();
    assert_eq!(err.kind(), ErrorKind::InvalidLength);
    assert!(is_written(&TypedValue::Bytes(vec![1, 2]), "0x0102"));
    assert!(!is_written(&TypedValue::Bytes(vec![1, 2]), "0x0201"));
    let err = check_coerced(&TypeNode::Bytes, "0x0201", Some(TypedValue::Bytes(vec![1, 2]))).unwrap_err();
    assert_eq!(err.kind(), ErrorKind::InvalidLength);
    assert!(is_written(&TypedValue::Uint(word(255), 8), "255"));
    assert!(!is_written(&TypedValue::Uint(word(254), 8), "255"));
    assert!(!is_written(&TypedValue::Uint(word(254), 8), "0xff"));
    assert!(is_written(&TypedValue::Uint(word(255), 8), "0xff"));
    assert!(is_written(&TypedValue::Uint(word(255), 8), "0x0FF"));
    assert!(!is_written(&TypedValue::Uint(word(254), 8), "0255"));
    assert!(is_written(&TypedValue::Uint(word(255), 8), "0255"));
    assert!(!is_written(&TypedValue::Uint(word(7), 8), "1 ether"));
    assert!(!is_written(&TypedValue::Uint(word(1), 8), "-1"));
    assert!(!is_written(&TypedValue::Int([0xff; 32], 8), "255"));
    assert!(!is_written(&TypedValue::Int(word(1), 8), "-1"));
    assert!(is_written(&TypedValue::Int([0xff; 32], 8), "-0x01"));
    assert!(is_written(&TypedValue::Int([0xff; 32], 8), "-001"));
    assert!(!is_written(&TypedValue::Int([0xff; 32], 8), "-2"));
    assert!(!is_written(&TypedValue::Int([0xff; 32], 8), "-0x02"));
    let mut low = [0xff; 32];
    low[30] = 0xfe;
    low[31] = 0x00;
    assert!(is_written(&TypedValue::Int(low, 16), "-512"));
    assert!(is_written(&TypedValue::Int(low, 16), "-0x200"));
    assert!(!is_written(&TypedValue::Int(low, 16), "-511"));
    assert!(is_written(&TypedValue::Int([0; 32], 8), "-0"));
    assert!(!is_written(&TypedValue::Int([0; 32], 8), "-1"));
    assert_eq!(negate(&[0; 32]), [0; 32]);
    assert_eq!(negate(&[0xff; 32]), word(1));
    assert_eq!(negate(&word(1)), [0xff; 32]);
    assert_eq!(negate(&low), { let mut w = [0u8; 32]; w[30] = 2; w });
    let mut min = [0u8; 32];
    min[0] = 0x80;
    assert_eq!(negate(&min), min);
    assert_eq!(coerce_value("int16", "-512"), Ok(TypedValue::Int(low, 16)));
    assert_eq!(coerce_value("int256", "-0x8000000000000000000000000000000000000000000000000000000000000000"), Ok(TypedValue::Int(min, 256)));
    assert!(is_written(&TypedValue::Int(word(5), 8), "5"));
    assert!(!is_written(&TypedValue::Int(word(5), 8), "6"));
    assert!(is_written(&TypedValue::Int([0xff; 32], 8), "-1"));
    let err = check_coerced(&TypeNode::Uint(8), "255", Some(TypedValue::Uint(word(254), 8))).unwrap_err();
    assert_eq!(err.kind(), ErrorKind::OutOfRange);
    assert!(is_written(&TypedValue::Bool(true), "false"));
    assert!(is_written(&TypedValue::Array(vec![]), "[1]"));
}
