//! The round trip: stored call data is held against what the declared call encodes to.
use vstd::prelude::*;
use crate::descriptor::ParameterModel;
use crate::encode::{encode_function_args, encoded_args};
use crate::error::{BatchError, CodecError, ErrorModel};
use crate::text::texts;
use crate::types::{find_input, lookup, BatchTransaction, InputModel, MultisigBatch, TransactionModel};

verus! {

/// The literals of the first `n` parameters, in the parameters' order, or a
/// missing input with the name of the first parameter that has none.
pub open spec fn gathered(inputs: Seq<ParameterModel>, entries: Seq<InputModel>, n: nat) -> Result<
    Seq<Seq<char>>,
    ErrorModel,
>
    decreases n,
{
    if n == 0 {
        Ok(Seq::empty())
    } else {
        match gathered(inputs, entries, (n - 1) as nat) {
            Err(e) => Err(e),
            Ok(literals) => match lookup(entries, inputs[n - 1].name) {
                Some(literal) => Ok(literals.push(literal)),
                None => Err(ErrorModel::MissingInput { name: inputs[n - 1].name }),
            },
        }
    }
}

/// Nothing where the stored data is the expected data, byte for byte; else a
/// data mismatch with both.
pub open spec fn data_check(expected: Seq<u8>, stored: Seq<u8>) -> Result<(), ErrorModel> {
    if expected == stored {
        Ok(())
    } else {
        Err(ErrorModel::DataMismatch { expected: expected, actual: stored })
    }
}

/// What verifying a transaction comes to. Each parameter's literal is looked
/// up by the parameter's name; the literals are read and the call encoded; the
/// stored data is held against the result. The first failure on that way is
/// the outcome.
pub open spec fn verification(tx: TransactionModel) -> Result<(), ErrorModel> {
    match gathered(tx.contract_method.inputs, tx.contract_inputs_values, tx.contract_method.inputs.len()) {
        Err(e) => Err(e),
        Ok(literals) => match encoded_args(tx.contract_method, literals) {
            Err(e) => Err(e),
            Ok(expected) => data_check(expected, tx.data),
        },
    }
}

/// What verifying the first `n` transactions comes to: nothing where each
/// verifies, else the number of the first that does not, counted from one,
/// and its failure.
pub open spec fn batch_verification(txs: Seq<TransactionModel>, n: nat) -> Result<(), (nat, ErrorModel)>
    decreases n,
{
    if n == 0 {
        Ok(())
    } else {
        match batch_verification(txs, (n - 1) as nat) {
            Err(e) => Err(e),
            Ok(_) => match verification(txs[n - 1]) {
                Ok(_) => Ok(()),
                Err(e) => Err((n, e)),
            },
        }
    }
}

/// The model of a result that holds nothing.
pub open spec fn unit_result(r: Result<(), CodecError>) -> Result<(), ErrorModel> {
    match r {
        Ok(_) => Ok(()),
        Err(e) => Err(e@),
    }
}

/// The model of a result within a batch.
pub open spec fn batch_result(r: Result<(), BatchError>) -> Result<(), (nat, ErrorModel)> {
    match r {
        Ok(_) => Ok(()),
        Err(e) => Err(e@),
    }
}

/// The model of a result that holds literals.
pub open spec fn literals_result(r: Result<Vec<String>, CodecError>) -> Result<Seq<Seq<char>>, ErrorModel> {
    match r {
        Ok(literals) => Ok(texts(literals@)),
        Err(e) => Err(e@),
    }
}

/// Whether two byte vectors are the same, byte for byte.
pub fn same_bytes(a: &Vec<u8>, b: &Vec<u8>) -> (r: bool)
    ensures
        r == (a@ == b@),
{
    if a.len() != b.len() {
        return false;
    }
    let mut i: usize = 0;
    while i < a.len()
        invariant
            i <= a.len(),
            a.len() == b.len(),
            forall|j: int| 0 <= j < i ==> a@[j] == b@[j],
        decreases a.len() - i,
    {
        if a[i] != b[i] {
            return false;
        }
        i += 1;
    }
    assert(a@ =~= b@);
    true
}

/// A copy of a byte vector.
pub fn copy_bytes(bytes: &Vec<u8>) -> (copy: Vec<u8>)
    ensures
        copy@ == bytes@,
{
    let mut copy: Vec<u8> = Vec::new();
    let mut i: usize = 0;
    while i < bytes.len()
        invariant
            i <= bytes.len(),
            copy@ == bytes@.subrange(0, i as int),
        decreases bytes.len() - i,
    {
        copy.push(bytes[i]);
        assert(copy@ =~= bytes@.subrange(0, i + 1));
        i += 1;
    }
    assert(copy@ =~= bytes@);
    copy
}

/// Holds the stored data against the expected data: see [`data_check`].
pub fn check_data(expected: Vec<u8>, stored: &Vec<u8>) -> (r: Result<(), CodecError>)
    ensures
        unit_result(r) == data_check(expected@, stored@),
{
    if same_bytes(&expected, stored) {
        Ok(())
    } else {
        Err(CodecError::DataMismatch { expected, actual: copy_bytes(stored) })
    }
}

/// Looks up the literal of each parameter of a transaction's call: see [`gathered`].
pub fn gather_inputs(tx: &BatchTransaction) -> (r: Result<Vec<String>, CodecError>)
    ensures
        literals_result(r) == gathered(
            tx@.contract_method.inputs,
            tx@.contract_inputs_values,
            tx@.contract_method.inputs.len(),
        ),
{
    let ghost inputs = tx@.contract_method.inputs;
    let ghost entries = tx@.contract_inputs_values;
    let mut literals: Vec<String> = Vec::new();
    let mut i: usize = 0;
    assert(texts(literals@) =~= Seq::empty());
    while i < tx.contract_method.inputs.len()
        invariant
            i <= tx.contract_method.inputs.len(),
            inputs == tx@.contract_method.inputs,
            entries == tx@.contract_inputs_values,
            gathered(inputs, entries, i as nat) == Ok::<Seq<Seq<char>>, ErrorModel>(texts(literals@)),
        decreases tx.contract_method.inputs.len() - i,
    {
        assert(inputs[i as int] == tx.contract_method.inputs@[i as int]@);
        match find_input(&tx.contract_inputs_values, &tx.contract_method.inputs[i].name) {
            Some(literal) => {
                let ghost before = texts(literals@);
                literals.push(literal.clone());
                assert(texts(literals@) =~= before.push(literal@));
            },
            None => {
                proof {
                    assert(gathered(inputs, entries, (i + 1) as nat) is Err);
                    lemma_gathered_stays_failed(inputs, entries, (i + 1) as nat, inputs.len());
                }
                return Err(CodecError::MissingInput { name: tx.contract_method.inputs[i].name.clone() });
            },
        }
        i += 1;
    }
    Ok(literals)
}

/// Once a parameter has no literal, looking further changes nothing.
pub proof fn lemma_gathered_stays_failed(inputs: Seq<ParameterModel>, entries: Seq<InputModel>, k: nat, n: nat)
    requires
        k <= n,
        gathered(inputs, entries, k) is Err,
    ensures
        gathered(inputs, entries, n) == gathered(inputs, entries, k),
    decreases n,
{
    if k < n {
        lemma_gathered_stays_failed(inputs, entries, k, (n - 1) as nat);
    }
}

/// Verifies one transaction: see [`verification`].
pub fn check_transaction(tx: &BatchTransaction) -> (r: Result<(), CodecError>)
    ensures
        unit_result(r) == verification(tx@),
{
    let literals = gather_inputs(tx)?;
    let expected = encode_function_args(&tx.contract_method, &literals)?;
    check_data(expected, &tx.data)
}

/// Verifies the transaction of number `index`: see [`verification`]. A failure
/// is reported with the number.
pub fn verify_transaction(index: usize, tx: &BatchTransaction) -> (r: Result<(), BatchError>)
    ensures
        match r {
            Ok(_) => verification(tx@) is Ok,
            Err(e) => e.index == index && verification(tx@) == Err::<(), ErrorModel>(e.error@),
        },
{
    match check_transaction(tx) {
        Ok(_) => Ok(()),
        Err(error) => Err(BatchError { index, error }),
    }
}

/// Verifies every transaction of a batch, in order, and stops at the first
/// that fails: see [`batch_verification`].
pub fn verify_batch(batch: &MultisigBatch) -> (r: Result<(), BatchError>)
    ensures
        batch_result(r) == batch_verification(batch@.transactions, batch@.transactions.len()),
{
    let ghost txs = batch@.transactions;
    let mut i: usize = 0;
    while i < batch.transactions.len()
        invariant
            i <= batch.transactions.len(),
            txs == batch@.transactions,
            batch_verification(txs, i as nat) is Ok,
        decreases batch.transactions.len() - i,
    {
        assert(txs[i as int] == batch.transactions@[i as int]@);
        match verify_transaction(i + 1, &batch.transactions[i]) {
            Ok(_) => {},
            Err(e) => {
                proof {
                    assert(batch_verification(txs, (i + 1) as nat) == Err::<(), (nat, ErrorModel)>(e@));
                    lemma_batch_stays_failed(txs, (i + 1) as nat, txs.len());
                }
                return Err(e);
            },
        }
        i += 1;
    }
    Ok(())
}

/// Once a transaction has failed, verifying further changes nothing.
pub proof fn lemma_batch_stays_failed(txs: Seq<TransactionModel>, k: nat, n: nat)
    requires
        k <= n,
        batch_verification(txs, k) is Err,
    ensures
        batch_verification(txs, n) == batch_verification(txs, k),
    decreases n,
{
    if k < n {
        lemma_batch_stays_failed(txs, k, (n - 1) as nat);
    }
}

} // verus!
