use msup::descriptor::FunctionDescriptor;
use msup::error::{BatchError, CodecError, ErrorKind};
use msup::generate::{build_transaction, input_prompt, parse_amount, parse_recipient, transaction_title};
use msup::text::is_decimal_text;
use msup::types::{find_input, has_names_once, BatchTransaction, InputValue, MultisigBatch, ObjectMetadata};
use msup::verify::{check_data, check_transaction, copy_bytes, gather_inputs, same_bytes, verify_batch, verify_transaction};

fn word(last: u8) -> [u8; 32] {
    let mut w = [0u8; 32];
    w[31] = last;
    w
}

fn metadata(name: &str) -> ObjectMetadata {
    ObjectMetadata { name: name.to_string(), description: "what it does".to_string() }
}

fn input(name: &str, value: &str) -> InputValue {
    InputValue { name: name.to_string(), value: value.to_string() }
}

fn transfer_data() -> Vec<u8> {
    let mut data = vec![0xa9, 0x05, 0x9c, 0xbb];
    data.extend_from_slice(&word(1));
    data.extend_from_slice(&word(100));
    data
}

fn transfer(to: &str, data: Vec<u8>) -> BatchTransaction {
    BatchTransaction {
        metadata: metadata("transfer"),
        to: [0x11; 20],
        value: [0u8; 32],
        data,
        contract_method: FunctionDescriptor::parse("transfer(address to, uint256 amount)").unwrap(),
        contract_inputs_values: vec![input("amount", "100"), input("to", to)],
    }
}

const ONE: &str = "0x0000000000000000000000000000000000000001";

#[test]
fn a_transaction_whose_data_matches_its_inputs_verifies() {
    let tx = transfer(ONE, transfer_data());
    assert_eq!(check_transaction(&tx), Ok(()));
    assert_eq!(verify_transaction(1, &tx), Ok(()));
}

#[test]
fn an_address_of_thirty_eight_digits_is_not_an_address() {
    let short = "0x00000000000000000000000000000000000001";
    let tx = transfer(short, transfer_data());
    let err = verify_transaction(1, &tx).unwrap_err();
    assert_eq!(err.index, 1);
    assert_eq!(
        err.error,
        CodecError::Coercion {
            kind: ErrorKind::InvalidAddress,
            literal: short.to_string(),
            ty: "address".to_string()
        }
    );
}

#[test]
fn one_flipped_byte_is_a_data_mismatch() {
    for place in [0usize, 3, 4, 35, 67] {
        let mut stored = transfer_data();
        stored[place] ^= 0x01;
        let tx = transfer(ONE, stored.clone());
        let err = verify_transaction(3, &tx).unwrap_err();
        assert_eq!(
            err,
            BatchError { index: 3, error: CodecError::DataMismatch { expected: transfer_data(), actual: stored } }
        );
        assert_eq!(err.error.kind(), ErrorKind::DataMismatch);
    }
}

#[test]
fn data_of_another_length_is_a_data_mismatch() {
    let mut stored = transfer_data();
    stored.push(0);
    assert_eq!(check_transaction(&transfer(ONE, stored)).unwrap_err().kind(), ErrorKind::DataMismatch);
    assert_eq!(check_transaction(&transfer(ONE, vec![])).unwrap_err().kind(), ErrorKind::DataMismatch);
}

#[test]
fn a_parameter_without_a_literal_is_a_missing_input() {
    let mut tx = transfer(ONE, transfer_data());
    tx.contract_inputs_values = vec![input("to", ONE), input("Amount", "100")];
    let err = verify_transaction(2, &tx).unwrap_err();
    assert_eq!(err, BatchError { index: 2, error: CodecError::MissingInput { name: "amount".to_string() } });
    assert_eq!(err.error.kind(), ErrorKind::MissingInput);
    tx.contract_inputs_values = vec![];
    let err = verify_transaction(2, &tx).unwrap_err();
    assert_eq!(err.error, CodecError::MissingInput { name: "to".to_string() });
}

#[test]
fn literals_are_gathered_in_the_order_of_the_parameters() {
    let tx = transfer(ONE, transfer_data());
    assert_eq!(gather_inputs(&tx), Ok(vec![ONE.to_string(), "100".to_string()]));
}

#[test]
fn the_first_entry_of_a_name_is_found() {
    let entries = vec![input("a", "1"), input("b", "2"), input("a", "3")];
    assert_eq!(find_input(&entries, &"a".to_string()), Some(&"1".to_string()));
    assert_eq!(find_input(&entries, &"b".to_string()), Some(&"2".to_string()));
    assert_eq!(find_input(&entries, &"c".to_string()), None);
    assert_eq!(find_input(&vec![], &"a".to_string()), None);
}

#[test]
fn a_literal_that_cannot_be_read_fails_the_verification() {
    let mut tx = transfer(ONE, transfer_data());
    tx.contract_inputs_values = vec![input("to", ONE), input("amount", "lots")];
    let err = verify_transaction(1, &tx).unwrap_err();
    assert_eq!(err.error.kind(), ErrorKind::OutOfRange);
}

#[test]
fn a_batch_fails_at_its_first_failing_transaction() {
    let mut bad = transfer_data();
    bad[67] = 99;
    let mut worse = transfer_data();
    worse[0] = 0;
    let batch = MultisigBatch {
        chain_id: 10,
        metadata: metadata("batch"),
        transactions: vec![transfer(ONE, transfer_data()), transfer(ONE, bad.clone()), transfer(ONE, worse)],
    };
    let err = verify_batch(&batch).unwrap_err();
    assert_eq!(err.index, 2);
    assert_eq!(err.error, CodecError::DataMismatch { expected: transfer_data(), actual: bad });
    let good = MultisigBatch {
        chain_id: 10,
        metadata: metadata("batch"),
        transactions: vec![transfer(ONE, transfer_data()), transfer(ONE, transfer_data())],
    };
    assert_eq!(verify_batch(&good), Ok(()));
    let empty = MultisigBatch { chain_id: 10, metadata: metadata("batch"), transactions: vec![] };
    assert_eq!(verify_batch(&empty), Ok(()));
}

#[test]
fn comparing_and_copying_bytes() {
    assert!(same_bytes(&vec![], &vec![]));
    assert!(same_bytes(&vec![1, 2], &vec![1, 2]));
    assert!(!same_bytes(&vec![1, 2], &vec![1, 3]));
    assert!(!same_bytes(&vec![1, 2], &vec![1]));
    assert_eq!(copy_bytes(&vec![9, 8, 7]), vec![9, 8, 7]);
    assert_eq!(check_data(vec![1, 2], &vec![1, 2]), Ok(()));
    assert_eq!(
        check_data(vec![1, 2], &vec![2, 1]),
        Err(CodecError::DataMismatch { expected: vec![1, 2], actual: vec![2, 1] })
    );
}

#[test]
fn a_built_transaction_verifies() {
    let function = FunctionDescriptor::parse("f(uint256, string memo, bool[2])").unwrap();
    let inputs = vec!["7".to_string(), "hello".to_string(), "[true,false]".to_string()];
    let tx = build_transaction(metadata("built"), [0x22; 20], word(5), function, &inputs).unwrap();
    assert_eq!(tx.metadata, metadata("built"));
    assert_eq!(tx.to, [0x22; 20]);
    assert_eq!(tx.value, word(5));
    assert_eq!(
        tx.contract_inputs_values,
        vec![input("unnamed_param0", "7"), input("memo", "hello"), input("unnamed_param2", "[true,false]")]
    );
    assert_eq!(tx.data.len(), 4 + 4 * 32 + 2 * 32);
    assert_eq!(verify_transaction(1, &tx), Ok(()));
}

#[test]
fn building_fails_as_encoding_does() {
    let function = FunctionDescriptor::parse("f(uint8 a, bool b)").unwrap();
    let inputs = vec!["1".to_string()];
    assert_eq!(
        build_transaction(metadata("built"), [0; 20], word(0), function, &inputs),
        Err(CodecError::ArityMismatch { parameters: 2, values: 1 })
    );
    let function = FunctionDescriptor::parse("f(uint8 a, bool b)").unwrap();
    let inputs = vec!["1".to_string(), "no".to_string()];
    let err = build_transaction(metadata("built"), [0; 20], word(0), function, &inputs).unwrap_err();
    assert_eq!(err.kind(), ErrorKind::InvalidBool);
}

#[test]
fn recipients_and_amounts() {
    let mut one = [0u8; 20];
    one[19] = 1;
    assert_eq!(parse_recipient(ONE), Ok(one));
    assert_eq!(parse_recipient("0x01").unwrap_err().kind(), ErrorKind::InvalidAddress);
    assert_eq!(parse_amount("100"), Ok(word(100)));
    assert_eq!(parse_amount("0"), Ok([0u8; 32]));
    for text in ["", "0x10", "1e3", "1 ether", "-1", " 1", "1.0"] {
        assert_eq!(
            parse_amount(text),
            Err(CodecError::Coercion {
                kind: ErrorKind::OutOfRange,
                literal: text.to_string(),
                ty: "uint256".to_string()
            })
        );
    }
    let over = "115792089237316195423570985008687907853269984665640564039457584007913129639936";
    assert_eq!(parse_amount(over).unwrap_err().kind(), ErrorKind::OutOfRange);
    assert!(is_decimal_text("0123456789"));
    assert!(!is_decimal_text(""));
    assert!(!is_decimal_text("12a"));
    assert!(!is_decimal_text("\u{663}"));
}

#[test]
fn questions_for_the_user() {
    assert_eq!(input_prompt(1, "to"), "Enter the value for input #1 (to):");
    assert_eq!(input_prompt(12, "unnamed_param11"), "Enter the value for input #12 (unnamed_param11):");
    assert_eq!(transaction_title(3), "Transaction #3");
}

#[test]
fn built_inputs_hold_each_name_once() {
    let function = FunctionDescriptor::parse("f(uint256, string memo, bool)").unwrap();
    let inputs = vec!["7".to_string(), "hello".to_string(), "true".to_string()];
    let tx = build_transaction(metadata("built"), [0x22; 20], word(5), function, &inputs).unwrap();
    assert!(has_names_once(&tx.contract_inputs_values));
    assert!(has_names_once(&vec![]));
    assert!(!has_names_once(&vec![input("a", "1"), input("b", "2"), input("a", "3")]));
}
