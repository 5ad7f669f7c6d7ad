use msup::descriptor::FunctionDescriptor;
use msup::error::{CodecError, ErrorKind};
use msup::render::{append_header, append_transaction, details_section, inputs_section, render_batch_doc};
use msup::types::{BatchTransaction, InputValue, MultisigBatch, ObjectMetadata};

fn word(last: u8) -> [u8; 32] {
    let mut w = [0u8; 32];
    w[31] = last;
    w
}

fn input(name: &str, value: &str) -> InputValue {
    InputValue { name: name.to_string(), value: value.to_string() }
}

const VITALIK: [u8; 20] = [
    0xd8, 0xda, 0x6b, 0xf2, 0x69, 0x64, 0xaf, 0x9d, 0x7e, 0xed, 0x9e, 0x03, 0xe5, 0x34, 0x15, 0xd3, 0x7a, 0xa9, 0x60,
    0x45,
];

const ONE: &str = "0x0000000000000000000000000000000000000001";

fn transfer() -> BatchTransaction {
    let mut data = vec![0xa9, 0x05, 0x9c, 0xbb];
    data.extend_from_slice(&word(1));
    data.extend_from_slice(&word(100));
    let mut value = [0u8; 32];
    value[30] = 1;
    BatchTransaction {
        metadata: ObjectMetadata { name: "Send".to_string(), description: "Pays out.".to_string() },
        to: VITALIK,
        value,
        data,
        contract_method: FunctionDescriptor::parse("transfer(address to, uint256 amount)(bool)").unwrap(),
        contract_inputs_values: vec![input("to", ONE), input("amount", "100")],
    }
}

fn batch(transactions: Vec<BatchTransaction>) -> MultisigBatch {
    MultisigBatch {
        chain_id: 11155111,
        metadata: ObjectMetadata { name: "Upgrade".to_string(), description: "Two steps.".to_string() },
        transactions,
    }
}

const HEADER: &str =
    "# Upgrade\nTwo steps.\n\nThe batch will be executed on chain ID `11155111`, and contains `1` transactions.\n";

const DETAILS: &str = "\n## Tx #1: Send\nPays out.\n\n**Function Signature:** `transfer(address,uint256)`\n\n**To:** `0xd8dA6BF26964aF9D7eEd9e03E53415D37aA96045`\n\n**Value:** `256 WEI`\n\n**Raw Input Data:** `0xa9059cbb00000000000000000000000000000000000000000000000000000000000000010000000000000000000000000000000000000000000000000000000000000064`\n\n### Inputs\n";

const INPUTS: &str = "**to:** `0x0000000000000000000000000000000000000001`\n\n**amount:** `100`\n\n";

#[test]
fn the_header_names_the_batch_and_counts_its_transactions() {
    let mut writer = String::from("before\n");
    append_header(&mut writer, &batch(vec![transfer()]));
    assert_eq!(writer, format!("before\n{}", HEADER));
}

#[test]
fn the_section_of_a_transaction() {
    assert_eq!(details_section(1, &transfer()), DETAILS);
    assert_eq!(inputs_section(&transfer().contract_inputs_values), INPUTS);
    assert_eq!(inputs_section(&vec![]), "");
    let mut writer = String::from("x");
    assert_eq!(append_transaction(&mut writer, 1, &transfer()), Ok(()));
    assert_eq!(writer, format!("x{}{}", DETAILS, INPUTS));
}

#[test]
fn a_transaction_that_does_not_verify_is_not_written() {
    let mut tx = transfer();
    tx.data[10] = 1;
    let mut writer = String::from("kept");
    let err = append_transaction(&mut writer, 4, &tx).unwrap_err();
    assert_eq!(err.index, 4);
    assert_eq!(err.error.kind(), ErrorKind::DataMismatch);
    assert_eq!(writer, "kept");
}

#[test]
fn the_whole_document() {
    assert_eq!(render_batch_doc(&batch(vec![transfer()])), Ok(format!("{}{}{}", HEADER, DETAILS, INPUTS)));
    let two = render_batch_doc(&batch(vec![transfer(), transfer()])).unwrap();
    assert!(two.contains("contains `2` transactions"));
    assert!(two.contains("\n## Tx #2: Send\n"));
    let none = render_batch_doc(&batch(vec![])).unwrap();
    assert_eq!(
        none,
        "# Upgrade\nTwo steps.\n\nThe batch will be executed on chain ID `11155111`, and contains `0` transactions.\n"
    );
}

#[test]
fn rendering_stops_at_the_first_transaction_that_fails() {
    let mut second = transfer();
    second.contract_inputs_values.pop();
    let mut third = transfer();
    third.data.clear();
    let err = render_batch_doc(&batch(vec![transfer(), second, third])).unwrap_err();
    assert_eq!(err.index, 2);
    assert_eq!(err.error, CodecError::MissingInput { name: "amount".to_string() });
}

#[test]
fn a_large_value_is_written_in_decimal() {
    let mut tx = transfer();
    tx.value = [0xff; 32];
    let section = details_section(7, &tx);
    assert!(section.starts_with("\n## Tx #7: Send\n"));
    assert!(section.contains(
        "**Value:** `115792089237316195423570985008687907853269984665640564039457584007913129639935 WEI`"
    ));
    tx.value = [0; 32];
    assert!(details_section(7, &tx).contains("**Value:** `0 WEI`"));
    tx.to = [0; 20];
    assert!(details_section(7, &tx).contains("**To:** `0x0000000000000000000000000000000000000000`"));
}
