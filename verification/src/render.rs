//! Rendering a batch as a Markdown document, one section a transaction.
use vstd::prelude::*;
use vstd::string::*;
use crate::error::{BatchError, ErrorModel};
use crate::sol::{address_text, checksum_text, u256_decimal};
use crate::text::{be_nat, decimal_digits, decimal_string, hex_string, prefixed_hex};
use crate::types::{input_models, BatchModel, BatchTransaction, InputModel, InputValue, MultisigBatch, TransactionModel};
use crate::verify::{batch_verification, lemma_batch_stays_failed, verification, verify_transaction};

verus! {

/// The head of the document: the batch's name as a title, its description,
/// and a sentence with the chain and the number of transactions.
pub open spec fn header_text(b: BatchModel) -> Seq<char> {
    "# "@ + b.metadata.name + "\n"@ + b.metadata.description + "\n\n"@
        + "The batch will be executed on chain ID `"@ + decimal_digits(b.chain_id) + "`, and contains `"@
        + decimal_digits(b.transactions.len()) + "` transactions.\n"@
}

/// A line for each of the first `n` inputs: the name in bold, then the literal.
pub open spec fn inputs_text(entries: Seq<InputModel>, n: nat) -> Seq<char>
    decreases n,
{
    if n == 0 {
        Seq::empty()
    } else {
        inputs_text(entries, (n - 1) as nat) + "**"@ + entries[n - 1].name + ":** `"@ + entries[n - 1].value
            + "`\n\n"@
    }
}

/// What stands in a transaction's section before its inputs: a heading with
/// the number and name, the description, the canonical signature, the
/// recipient as a checksummed address, the value in decimal, the call data in
/// hexadecimal, and the heading of the inputs.
pub open spec fn details_text(i: nat, tx: TransactionModel) -> Seq<char> {
    "\n"@ + "## Tx #"@ + decimal_digits(i) + ": "@ + tx.metadata.name + "\n"@ + tx.metadata.description + "\n"@
        + "\n"@ + "**Function Signature:** `"@ + tx.contract_method.canonical_signature() + "`\n\n"@
        + "**To:** `"@ + checksum_text(tx.to) + "`\n\n"@ + "**Value:** `"@ + decimal_digits(be_nat(tx.value))
        + " WEI`\n\n"@ + "**Raw Input Data:** `"@ + prefixed_hex(tx.data) + "`\n"@ + "\n"@ + "### Inputs\n"@
}

/// The section of the transaction of number `i`.
pub open spec fn transaction_text(i: nat, tx: TransactionModel) -> Seq<char> {
    details_text(i, tx) + inputs_text(tx.contract_inputs_values, tx.contract_inputs_values.len())
}

/// The sections of the first `n` transactions, numbered from one.
pub open spec fn transactions_text(txs: Seq<TransactionModel>, n: nat) -> Seq<char>
    decreases n,
{
    if n == 0 {
        Seq::empty()
    } else {
        transactions_text(txs, (n - 1) as nat) + transaction_text(n, txs[n - 1])
    }
}

/// The whole document: the head, then the section of each transaction.
pub open spec fn document_text(b: BatchModel) -> Seq<char> {
    header_text(b) + transactions_text(b.transactions, b.transactions.len())
}

/// Appends the head of the document for `batch` to the writer.
pub fn append_header(writer: &mut String, batch: &MultisigBatch)
    ensures
        final(writer)@ == old(writer)@ + header_text(batch@),
{
    let mut head = String::from_str("# ");
    head.append(batch.metadata.name.as_str());
    head.append("\n");
    head.append(batch.metadata.description.as_str());
    head.append("\n\n");
    head.append("The batch will be executed on chain ID `");
    head.append(decimal_string(batch.chain_id).as_str());
    head.append("`, and contains `");
    head.append(decimal_string(batch.transactions.len() as u64).as_str());
    head.append("` transactions.\n");
    writer.append(head.as_str());
}

/// The lines of a transaction's inputs: see [`inputs_text`].
pub fn inputs_section(entries: &Vec<InputValue>) -> (s: String)
    ensures
        s@ == inputs_text(input_models(entries@), entries@.len()),
{
    let ghost models = input_models(entries@);
    let mut s = String::new();
    let mut i: usize = 0;
    while i < entries.len()
        invariant
            i <= entries.len(),
            models == input_models(entries@),
            s@ == inputs_text(models, i as nat),
        decreases entries.len() - i,
    {
        assert(models[i as int] == entries@[i as int]@);
        s.append("**");
        s.append(entries[i].name.as_str());
        s.append(":** `");
        s.append(entries[i].value.as_str());
        s.append("`\n\n");
        i += 1;
    }
    s
}

/// What stands in the section of transaction `i` before its inputs: see
/// [`details_text`].
pub fn details_section(i: usize, tx: &BatchTransaction) -> (s: String)
    ensures
        s@ == details_text(i as nat, tx@),
{
    let mut s = String::from_str("\n");
    s.append("## Tx #");
    s.append(decimal_string(i as u64).as_str());
    s.append(": ");
    s.append(tx.metadata.name.as_str());
    s.append("\n");
    s.append(tx.metadata.description.as_str());
    s.append("\n");
    s.append("\n");
    s.append("**Function Signature:** `");
    s.append(tx.contract_method.canonical_signature().as_str());
    s.append("`\n\n");
    s.append("**To:** `");
    s.append(address_text(&tx.to).as_str());
    s.append("`\n\n");
    s.append("**Value:** `");
    s.append(u256_decimal(&tx.value).as_str());
    s.append(" WEI`\n\n");
    s.append("**Raw Input Data:** `");
    s.append(hex_string(&tx.data).as_str());
    s.append("`\n");
    s.append("\n");
    s.append("### Inputs\n");
    s
}

/// Verifies the transaction of number `i` and, where it verifies, appends its
/// section to the writer. Where it does not, the writer is left as it was.
pub fn append_transaction(writer: &mut String, i: usize, tx: &BatchTransaction) -> (r: Result<(), BatchError>)
    ensures
        match r {
            Ok(_) => verification(tx@) is Ok && final(writer)@ == old(writer)@ + transaction_text(i as nat, tx@),
            Err(e) => e.index == i && verification(tx@) == Err::<(), ErrorModel>(e.error@) && final(writer)@
                == old(writer)@,
        },
{
    verify_transaction(i, tx)?;
    let mut section = details_section(i, tx);
    section.append(inputs_section(&tx.contract_inputs_values).as_str());
    writer.append(section.as_str());
    Ok(())
}

/// Renders the document of a batch. Every transaction is verified before its
/// section is written, and the first that fails ends the rendering with its
/// failure.
pub fn render_batch_doc(batch: &MultisigBatch) -> (r: Result<String, BatchError>)
    ensures
        match r {
            Ok(document) => batch_verification(batch@.transactions, batch@.transactions.len()) is Ok
                && document@ == document_text(batch@),
            Err(e) => batch_verification(batch@.transactions, batch@.transactions.len()) == Err::<
                (),
                (nat, ErrorModel),
            >(e@),
        },
{
    let ghost txs = batch@.transactions;
    let mut document = String::new();
    append_header(&mut document, batch);
    let mut i: usize = 0;
    assert(document@ =~= header_text(batch@) + transactions_text(txs, 0));
    while i < batch.transactions.len()
        invariant
            i <= batch.transactions.len(),
            txs == batch@.transactions,
            batch_verification(txs, i as nat) is Ok,
            document@ == header_text(batch@) + transactions_text(txs, i as nat),
        decreases batch.transactions.len() - i,
    {
        assert(txs[i as int] == batch.transactions@[i as int]@);
        match append_transaction(&mut document, i + 1, &batch.transactions[i]) {
            Ok(_) => {
                assert(document@ =~= header_text(batch@) + transactions_text(txs, (i + 1) as nat));
            },
            Err(e) => {
                proof {
                    assert(batch_verification(txs, (i + 1) as nat) == Err::<(), (nat, ErrorModel)>(e@));
                    lemma_batch_stays_failed(txs, (i + 1) as nat, txs.len());
                }
                return Err(e);
            },
        }
        i += 1;
    }
    Ok(document)
}

} // verus!
