use msup::dialogue::{ask, collect, complete, proceed, start, Draft, Progress, Question, Stage};
use msup::descriptor::FunctionDescriptor;
use msup::error::{CodecError, ErrorKind};
use msup::generate::parse_count;
use msup::types::{MultisigBatch, ObjectMetadata};
use msup::verify::verify_batch;

const ONE: &str = "0x0000000000000000000000000000000000000001";

fn word(last: u8) -> [u8; 32] {
    let mut w = [0u8; 32];
    w[31] = last;
    w
}

fn plain(prompt: &str) -> Question {
    Question { title: None, prompt: prompt.to_string(), help: None }
}

fn metadata(name: &str, description: &str) -> ObjectMetadata {
    ObjectMetadata { name: name.to_string(), description: description.to_string() }
}

fn empty_draft(total: u64) -> Draft {
    Draft { total, batch: MultisigBatch { chain_id: 1, metadata: metadata("b", "d"), transactions: vec![] } }
}

fn next(stage: Stage, answer: &str, expected: Question) -> Stage {
    match stage.answer(answer).unwrap() {
        Progress::Ask(stage, question) => {
            assert_eq!(question, expected);
            stage
        }
        Progress::Done(batch) => panic!("finished early: {:?}", batch),
    }
}

#[test]
fn counts_are_decimal_numbers_of_sixty_four_bits() {
    assert_eq!(parse_count("0"), Some(0));
    assert_eq!(parse_count("12"), Some(12));
    assert_eq!(parse_count("+5"), Some(5));
    assert_eq!(parse_count("00012"), Some(12));
    assert_eq!(parse_count("18446744073709551615"), Some(u64::MAX));
    assert_eq!(parse_count("18446744073709551616"), None);
    assert_eq!(parse_count("99999999999999999999999"), None);
    for text in ["", "+", "-1", "1 ", " 1", "0x10", "1_000", "++1", "1+", "\u{661}"] {
        assert_eq!(parse_count(text), None);
    }
}

#[test]
fn the_dialogue_begins_with_the_number_of_transactions() {
    let (stage, question) = start();
    assert_eq!(stage, Stage::Count);
    assert_eq!(question, plain("Number of transactions in the multisig batch:"));
    assert_eq!(ask("Name:"), plain("Name:"));
}

#[test]
fn a_whole_dialogue_ends_with_a_batch_that_verifies() {
    let (stage, _) = start();
    let stage = next(stage, "2", plain("Chain ID that the batch transaction will be performed on:"));
    assert_eq!(stage, Stage::ChainId(2));
    let stage = next(stage, "10", plain("Enter the name of the batch:"));
    assert_eq!(stage, Stage::BatchName(2, 10));
    let stage = next(stage, "Upgrade", plain("Enter the description of the batch:"));
    let first = Question { title: Some("Transaction #1".to_string()), prompt: "Name:".to_string(), help: None };
    let stage = next(stage, "Two steps.", first);
    let stage = next(stage, "Send", plain("Description:"));
    let stage = next(stage, "Pays out.", plain("Address of the contract to call:"));
    let stage = next(stage, ONE, plain("Value to send (in WEI):"));
    let signature = Question {
        title: None,
        prompt: "Enter the function signature of the contract to call".to_string(),
        help: Some("Example: `deposit(uint256 amount)(bytes32 depositHash)`".to_string()),
    };
    let stage = next(stage, "7", signature);
    let stage = next(stage, "transfer(address to, uint256)", plain("Enter the value for input #1 (to):"));
    let stage = next(stage, ONE, plain("Enter the value for input #2 (unnamed_param1):"));
    let second = Question { title: Some("Transaction #2".to_string()), prompt: "Name:".to_string(), help: None };
    let stage = next(stage, "100", second);
    let stage = next(stage, "Stop", plain("Description:"));
    let stage = next(stage, "", plain("Address of the contract to call:"));
    let stage = next(stage, ONE, plain("Value to send (in WEI):"));
    let stage = match stage.answer("0").unwrap() {
        Progress::Ask(stage, _) => stage,
        Progress::Done(_) => panic!("finished early"),
    };
    let batch = match stage.answer("pause()").unwrap() {
        Progress::Done(batch) => batch,
        Progress::Ask(stage, _) => panic!("not finished: {:?}", stage),
    };
    assert_eq!(batch.chain_id, 10);
    assert_eq!(batch.metadata, metadata("Upgrade", "Two steps."));
    assert_eq!(batch.transactions.len(), 2);
    let first = &batch.transactions[0];
    assert_eq!(first.metadata, metadata("Send", "Pays out."));
    assert_eq!(first.value, word(7));
    assert_eq!(first.to[19], 1);
    let mut data = vec![0xa9, 0x05, 0x9c, 0xbb];
    data.extend_from_slice(&word(1));
    data.extend_from_slice(&word(100));
    assert_eq!(first.data, data);
    assert_eq!(first.contract_inputs_values.len(), 2);
    assert_eq!(first.contract_inputs_values[1].name, "unnamed_param1");
    assert_eq!(first.contract_inputs_values[1].value, "100");
    let second = &batch.transactions[1];
    assert_eq!(second.metadata, metadata("Stop", ""));
    assert_eq!(second.data.len(), 4);
    assert!(second.contract_inputs_values.is_empty());
    assert_eq!(verify_batch(&batch), Ok(()));
}

#[test]
fn a_batch_of_no_transactions_is_finished_at_once() {
    let (stage, _) = start();
    let stage = next(stage, "0", plain("Chain ID that the batch transaction will be performed on:"));
    let stage = next(stage, "1", plain("Enter the name of the batch:"));
    let stage = next(stage, "Empty", plain("Enter the description of the batch:"));
    let done = stage.answer("Nothing to do.").unwrap();
    assert_eq!(
        done,
        Progress::Done(MultisigBatch { chain_id: 1, metadata: metadata("Empty", "Nothing to do."), transactions: vec![] })
    );
}

#[test]
fn answers_that_cannot_be_read_end_the_dialogue() {
    let not_a_count = |text: &str| CodecError::Coercion {
        kind: ErrorKind::OutOfRange,
        literal: text.to_string(),
        ty: "uint64".to_string(),
    };
    assert_eq!(Stage::Count.answer("many"), Err(not_a_count("many")));
    assert_eq!(Stage::ChainId(1).answer("-1"), Err(not_a_count("-1")));
    let err = Stage::Recipient(empty_draft(1), metadata("n", "d")).answer("0x01").unwrap_err();
    assert_eq!(err.kind(), ErrorKind::InvalidAddress);
    let err = Stage::Amount(empty_draft(1), metadata("n", "d"), [0; 20]).answer("1 ether").unwrap_err();
    assert_eq!(err.kind(), ErrorKind::OutOfRange);
    let err = Stage::Signature(empty_draft(1), metadata("n", "d"), [0; 20], word(0)).answer("f(").unwrap_err();
    assert_eq!(err, CodecError::MalformedSignature { text: "f(".to_string() });
    let function = FunctionDescriptor::parse("f(bool flag)").unwrap();
    let stage = Stage::Input(empty_draft(1), metadata("n", "d"), [0; 20], word(0), function, vec![]);
    assert_eq!(stage.answer("perhaps").unwrap_err().kind(), ErrorKind::InvalidBool);
}

#[test]
fn going_on_after_a_transaction() {
    assert_eq!(proceed(empty_draft(0)), Progress::Done(empty_draft(0).batch));
    let expected = Question { title: Some("Transaction #1".to_string()), prompt: "Name:".to_string(), help: None };
    assert_eq!(proceed(empty_draft(3)), Progress::Ask(Stage::Name(empty_draft(3)), expected));
}

#[test]
fn literals_are_asked_for_one_by_one() {
    let function = || FunctionDescriptor::parse("f(bool flag, uint8 n)").unwrap();
    let asked = collect(empty_draft(1), metadata("n", "d"), [0; 20], word(0), function(), vec!["true".to_string()]);
    let stage = Stage::Input(empty_draft(1), metadata("n", "d"), [0; 20], word(0), function(), vec!["true".to_string()]);
    assert_eq!(asked, Ok(Progress::Ask(stage, plain("Enter the value for input #2 (n):"))));
    let inputs = vec!["true".to_string(), "3".to_string()];
    let done = collect(empty_draft(1), metadata("n", "d"), [0; 20], word(0), function(), inputs.clone());
    let same = complete(empty_draft(1), metadata("n", "d"), [0; 20], word(0), function(), inputs);
    assert_eq!(done, same);
    match done.unwrap() {
        Progress::Done(batch) => {
            assert_eq!(batch.transactions.len(), 1);
            assert_eq!(batch.transactions[0].data.len(), 4 + 64);
        }
        Progress::Ask(stage, _) => panic!("not finished: {:?}", stage),
    }
    let short = complete(empty_draft(1), metadata("n", "d"), [0; 20], word(0), function(), vec!["true".to_string()]);
    assert_eq!(short, Err(CodecError::ArityMismatch { parameters: 2, values: 1 }));
}
