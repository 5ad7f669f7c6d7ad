//! The dialogue that builds a batch: what to ask next, and what each answer
//! leads to. Asking is left to the caller; every decision is made here.
use vstd::prelude::*;
use vstd::string::*;
use crate::descriptor::{signature_outcome, DescriptorModel, FunctionDescriptor};
use crate::encode::encoded_args;
use crate::error::{CodecError, ErrorKind, ErrorModel};
use crate::generate::{
    amount, build_transaction, count, input_prompt, input_prompt_text, paired_inputs, parse_amount, parse_count,
    parse_recipient, recipient, transaction_title,
};
use crate::sol::parsed_function;
use crate::text::{decimal_digits, texts};
use crate::types::{BatchModel, MetadataModel, MultisigBatch, ObjectMetadata, TransactionModel};

verus! {

/// What has been settled so far: how many transactions there will be, and the
/// batch with those that are complete.
#[derive(Debug, PartialEq, Eq)]
pub struct Draft {
    /// The number of transactions asked for.
    pub total: u64,
    /// The batch as far as it is built.
    pub batch: MultisigBatch,
}

/// The mathematical model of a [`Draft`].
pub ghost struct DraftModel {
    pub total: u64,
    pub batch: BatchModel,
}

impl View for Draft {
    type V = DraftModel;

    open spec fn view(&self) -> DraftModel {
        DraftModel { total: self.total, batch: self.batch@ }
    }
}

/// Where the dialogue stands: the question that is open, with all that the
/// answers so far have settled.
#[derive(Debug, PartialEq, Eq)]
pub enum Stage {
    /// The number of transactions is asked for.
    Count,
    /// The chain is asked for; the number of transactions is known.
    ChainId(u64),
    /// The batch's name is asked for; the number and the chain are known.
    BatchName(u64, u64),
    /// The batch's description is asked for; its name is known too.
    BatchDescription(u64, u64, String),
    /// The next transaction's name is asked for.
    Name(Draft),
    /// The transaction's description is asked for; its name is known.
    Description(Draft, String),
    /// The address to call is asked for.
    Recipient(Draft, ObjectMetadata),
    /// The value to send is asked for.
    Amount(Draft, ObjectMetadata, [u8; 20]),
    /// The signature of the function to call is asked for.
    Signature(Draft, ObjectMetadata, [u8; 20], [u8; 32]),
    /// The literal of the next parameter is asked for; those of the
    /// parameters before it are known.
    Input(Draft, ObjectMetadata, [u8; 20], [u8; 32], FunctionDescriptor, Vec<String>),
}

/// The mathematical model of a [`Stage`].
pub ghost enum StageModel {
    Count,
    ChainId(u64),
    BatchName(u64, u64),
    BatchDescription(u64, u64, Seq<char>),
    Name(DraftModel),
    Description(DraftModel, Seq<char>),
    Recipient(DraftModel, MetadataModel),
    Amount(DraftModel, MetadataModel, Seq<u8>),
    Signature(DraftModel, MetadataModel, Seq<u8>, Seq<u8>),
    Input(DraftModel, MetadataModel, Seq<u8>, Seq<u8>, DescriptorModel, Seq<Seq<char>>),
}

impl View for Stage {
    type V = StageModel;

    open spec fn view(&self) -> StageModel {
        match self {
            Stage::Count => StageModel::Count,
            Stage::ChainId(total) => StageModel::ChainId(*total),
            Stage::BatchName(total, chain) => StageModel::BatchName(*total, *chain),
            Stage::BatchDescription(total, chain, name) => StageModel::BatchDescription(*total, *chain, name@),
            Stage::Name(draft) => StageModel::Name(draft@),
            Stage::Description(draft, name) => StageModel::Description(draft@, name@),
            Stage::Recipient(draft, metadata) => StageModel::Recipient(draft@, metadata@),
            Stage::Amount(draft, metadata, to) => StageModel::Amount(draft@, metadata@, to@),
            Stage::Signature(draft, metadata, to, value) => StageModel::Signature(
                draft@,
                metadata@,
                to@,
                value@,
            ),
            Stage::Input(draft, metadata, to, value, function, inputs) => StageModel::Input(
                draft@,
                metadata@,
                to@,
                value@,
                function@,
                texts(inputs@),
            ),
        }
    }
}

/// A question for the user: a title to show before it, if it opens a new
/// part; the question itself; and a hint, if there is one.
#[derive(Debug, PartialEq, Eq)]
pub struct Question {
    /// What to show before the question.
    pub title: Option<String>,
    /// The question.
    pub prompt: String,
    /// A hint on how to answer.
    pub help: Option<String>,
}

/// The mathematical model of a [`Question`].
pub ghost struct QuestionModel {
    pub title: Option<Seq<char>>,
    pub prompt: Seq<char>,
    pub help: Option<Seq<char>>,
}

/// The text of a string that may be absent.
pub open spec fn optional_text(s: Option<String>) -> Option<Seq<char>> {
    match s {
        Some(s) => Some(s@),
        None => None,
    }
}

impl View for Question {
    type V = QuestionModel;

    open spec fn view(&self) -> QuestionModel {
        QuestionModel { title: optional_text(self.title), prompt: self.prompt@, help: optional_text(self.help) }
    }
}

/// How the dialogue goes on after an answer: with another question, or with
/// the finished batch.
#[derive(Debug, PartialEq, Eq)]
pub enum Progress {
    /// The dialogue stands at a new stage, and this is its question.
    Ask(Stage, Question),
    /// The batch is complete.
    Done(MultisigBatch),
}

/// The mathematical model of a [`Progress`].
pub ghost enum ProgressModel {
    Ask(StageModel, QuestionModel),
    Done(BatchModel),
}

impl View for Progress {
    type V = ProgressModel;

    open spec fn view(&self) -> ProgressModel {
        match self {
            Progress::Ask(stage, question) => ProgressModel::Ask(stage@, question@),
            Progress::Done(batch) => ProgressModel::Done(batch@),
        }
    }
}

/// The model of a step's result.
pub open spec fn progress_result(r: Result<Progress, CodecError>) -> Result<ProgressModel, ErrorModel> {
    match r {
        Ok(p) => Ok(p@),
        Err(e) => Err(e@),
    }
}

/// A question without title or hint.
pub open spec fn plain_question(prompt: Seq<char>) -> QuestionModel {
    QuestionModel { title: None, prompt: prompt, help: None }
}

/// The failure of a text that is no number of at most 64 bits.
pub open spec fn count_failure(text: Seq<char>) -> ErrorModel {
    ErrorModel::Coercion { kind: ErrorKind::OutOfRange, literal: text, ty: "uint64"@ }
}

/// How the dialogue goes on once a transaction is complete, or none has been
/// begun: with the finished batch where it has as many transactions as were
/// asked for, else with the name of the next transaction, under a title with
/// its number.
pub open spec fn continued(draft: DraftModel) -> ProgressModel {
    if draft.batch.transactions.len() >= draft.total {
        ProgressModel::Done(draft.batch)
    } else {
        ProgressModel::Ask(
            StageModel::Name(draft),
            QuestionModel {
                title: Some("Transaction #"@ + decimal_digits(draft.batch.transactions.len() + 1)),
                prompt: "Name:"@,
                help: None,
            },
        )
    }
}

/// The draft with one more transaction at the end of its batch.
pub open spec fn extended(draft: DraftModel, tx: TransactionModel) -> DraftModel {
    DraftModel {
        total: draft.total,
        batch: BatchModel {
            chain_id: draft.batch.chain_id,
            metadata: draft.batch.metadata,
            transactions: draft.batch.transactions.push(tx),
        },
    }
}

/// How the dialogue goes on once every literal of a call is known: the
/// transaction is built, with the call data that the literals encode to, and
/// joins the batch; where the encoding fails, so does the dialogue.
pub open spec fn completed(
    draft: DraftModel,
    metadata: MetadataModel,
    to: Seq<u8>,
    value: Seq<u8>,
    function: DescriptorModel,
    inputs: Seq<Seq<char>>,
) -> Result<ProgressModel, ErrorModel> {
    match encoded_args(function, inputs) {
        Ok(data) => Ok(
            continued(
                extended(
                    draft,
                    TransactionModel {
                        metadata: metadata,
                        to: to,
                        value: value,
                        data: data,
                        contract_method: function,
                        contract_inputs_values: paired_inputs(function.inputs, inputs),
                    },
                ),
            ),
        ),
        Err(e) => Err(e),
    }
}

/// How the dialogue goes on once some literals of a call are known: with the
/// question for the next parameter's literal, or, where every parameter has
/// one, as [`completed`] says.
pub open spec fn collected(
    draft: DraftModel,
    metadata: MetadataModel,
    to: Seq<u8>,
    value: Seq<u8>,
    function: DescriptorModel,
    inputs: Seq<Seq<char>>,
) -> Result<ProgressModel, ErrorModel> {
    if inputs.len() < function.inputs.len() {
        Ok(
            ProgressModel::Ask(
                StageModel::Input(draft, metadata, to, value, function, inputs),
                plain_question(input_prompt_text(inputs.len() + 1, function.inputs[inputs.len() as int].name)),
            ),
        )
    } else {
        completed(draft, metadata, to, value, function, inputs)
    }
}

/// What an answer leads to at each stage. A number, an address, a value or a
/// signature that cannot be read ends the dialogue with its failure; so does a
/// call that cannot be encoded. Every other answer is taken as it stands.
pub open spec fn answered(stage: StageModel, text: Seq<char>) -> Result<ProgressModel, ErrorModel> {
    match stage {
        StageModel::Count => match count(text) {
            Some(total) => Ok(
                ProgressModel::Ask(
                    StageModel::ChainId(total),
                    plain_question("Chain ID that the batch transaction will be performed on:"@),
                ),
            ),
            None => Err(count_failure(text)),
        },
        StageModel::ChainId(total) => match count(text) {
            Some(chain) => Ok(
                ProgressModel::Ask(StageModel::BatchName(total, chain), plain_question("Enter the name of the batch:"@)),
            ),
            None => Err(count_failure(text)),
        },
        StageModel::BatchName(total, chain) => Ok(
            ProgressModel::Ask(
                StageModel::BatchDescription(total, chain, text),
                plain_question("Enter the description of the batch:"@),
            ),
        ),
        StageModel::BatchDescription(total, chain, name) => Ok(
            continued(
                DraftModel {
                    total: total,
                    batch: BatchModel {
                        chain_id: chain as nat,
                        metadata: MetadataModel { name: name, description: text },
                        transactions: Seq::empty(),
                    },
                },
            ),
        ),
        StageModel::Name(draft) => Ok(
            ProgressModel::Ask(StageModel::Description(draft, text), plain_question("Description:"@)),
        ),
        StageModel::Description(draft, name) => Ok(
            ProgressModel::Ask(
                StageModel::Recipient(draft, MetadataModel { name: name, description: text }),
                plain_question("Address of the contract to call:"@),
            ),
        ),
        StageModel::Recipient(draft, metadata) => match recipient(text) {
            Ok(to) => Ok(
                ProgressModel::Ask(StageModel::Amount(draft, metadata, to), plain_question("Value to send (in WEI):"@)),
            ),
            Err(e) => Err(e),
        },
        StageModel::Amount(draft, metadata, to) => match amount(text) {
            Ok(value) => Ok(
                ProgressModel::Ask(
                    StageModel::Signature(draft, metadata, to, value),
                    QuestionModel {
                        title: None,
                        prompt: "Enter the function signature of the contract to call"@,
                        help: Some("Example: `deposit(uint256 amount)(bytes32 depositHash)`"@),
                    },
                ),
            ),
            Err(e) => Err(e),
        },
        StageModel::Signature(draft, metadata, to, value) => match signature_outcome(text, parsed_function(text)) {
            Ok(function) => collected(draft, metadata, to, value, function, Seq::empty()),
            Err(e) => Err(e),
        },
        StageModel::Input(draft, metadata, to, value, function, inputs) => collected(
            draft,
            metadata,
            to,
            value,
            function,
            inputs.push(text),
        ),
    }
}

/// The first question of the dialogue.
pub fn start() -> (r: (Stage, Question))
    ensures
        r.0@ == StageModel::Count,
        r.1@ == plain_question("Number of transactions in the multisig batch:"@),
{
    (Stage::Count, ask("Number of transactions in the multisig batch:"))
}

/// A question without title or hint.
pub fn ask(prompt: &str) -> (q: Question)
    ensures
        q@ == plain_question(prompt@),
{
    Question { title: None, prompt: String::from_str(prompt), help: None }
}

/// The failure of a text that is no number of at most 64 bits.
fn not_a_count(text: &str) -> (e: CodecError)
    ensures
        e@ == count_failure(text@),
{
    CodecError::Coercion {
        kind: ErrorKind::OutOfRange,
        literal: String::from_str(text),
        ty: String::from_str("uint64"),
    }
}

/// Goes on after a transaction is complete, or before the first: see [`continued`].
pub fn proceed(draft: Draft) -> (p: Progress)
    ensures
        p@ == continued(draft@),
{
    let done: usize = draft.batch.transactions.len();
    if done as u64 >= draft.total {
        Progress::Done(draft.batch)
    } else {
        let title = transaction_title(done as u64 + 1);
        Progress::Ask(
            Stage::Name(draft),
            Question { title: Some(title), prompt: String::from_str("Name:"), help: None },
        )
    }
}

/// Builds the transaction of a call whose literals are all known, adds it to
/// the batch, and goes on: see [`completed`].
pub fn complete(
    draft: Draft,
    metadata: ObjectMetadata,
    to: [u8; 20],
    value: [u8; 32],
    function: FunctionDescriptor,
    inputs: Vec<String>,
) -> (r: Result<Progress, CodecError>)
    ensures
        progress_result(r) == completed(draft@, metadata@, to@, value@, function@, texts(inputs@)),
{
    let tx = build_transaction(metadata, to, value, function, &inputs)?;
    let Draft { total, batch } = draft;
    let MultisigBatch { chain_id, metadata, mut transactions } = batch;
    let ghost before = batch@.transactions;
    transactions.push(tx);
    let next = Draft { total, batch: MultisigBatch { chain_id, metadata, transactions } };
    assert(next@.batch.transactions =~= before.push(tx@));
    Ok(proceed(next))
}

/// Goes on after some literals of a call are known: see [`collected`].
pub fn collect(
    draft: Draft,
    metadata: ObjectMetadata,
    to: [u8; 20],
    value: [u8; 32],
    function: FunctionDescriptor,
    inputs: Vec<String>,
) -> (r: Result<Progress, CodecError>)
    ensures
        progress_result(r) == collected(draft@, metadata@, to@, value@, function@, texts(inputs@)),
{
    let known: usize = inputs.len();
    if known < function.inputs.len() {
        let question = input_prompt(known + 1, function.inputs[known].name.as_str());
        Ok(
            Progress::Ask(
                Stage::Input(draft, metadata, to, value, function, inputs),
                Question { title: None, prompt: question, help: None },
            ),
        )
    } else {
        complete(draft, metadata, to, value, function, inputs)
    }
}

impl Stage {
    /// Takes the answer to the open question and says how the dialogue goes
    /// on: see [`answered`].
    pub fn answer(self, text: &str) -> (r: Result<Progress, CodecError>)
        ensures
            progress_result(r) == answered(self@, text@),
    {
        match self {
            Stage::Count => match parse_count(text) {
                Some(total) => Ok(
                    Progress::Ask(
                        Stage::ChainId(total),
                        ask("Chain ID that the batch transaction will be performed on:"),
                    ),
                ),
                None => Err(not_a_count(text)),
            },
            Stage::ChainId(total) => match parse_count(text) {
                Some(chain) => Ok(Progress::Ask(Stage::BatchName(total, chain), ask("Enter the name of the batch:"))),
                None => Err(not_a_count(text)),
            },
            Stage::BatchName(total, chain) => Ok(
                Progress::Ask(
                    Stage::BatchDescription(total, chain, String::from_str(text)),
                    ask("Enter the description of the batch:"),
                ),
            ),
            Stage::BatchDescription(total, chain, name) => {
                let draft = Draft {
                    total,
                    batch: MultisigBatch {
                        chain_id: chain,
                        metadata: ObjectMetadata { name, description: String::from_str(text) },
                        transactions: Vec::new(),
                    },
                };
                assert(draft@.batch.transactions =~= Seq::empty());
                Ok(proceed(draft))
            },
            Stage::Name(draft) => Ok(
                Progress::Ask(Stage::Description(draft, String::from_str(text)), ask("Description:")),
            ),
            Stage::Description(draft, name) => Ok(
                Progress::Ask(
                    Stage::Recipient(draft, ObjectMetadata { name, description: String::from_str(text) }),
                    ask("Address of the contract to call:"),
                ),
            ),
            Stage::Recipient(draft, metadata) => {
                let to = parse_recipient(text)?;
                Ok(Progress::Ask(Stage::Amount(draft, metadata, to), ask("Value to send (in WEI):")))
            },
            Stage::Amount(draft, metadata, to) => {
                let value = parse_amount(text)?;
                Ok(
                    Progress::Ask(
                        Stage::Signature(draft, metadata, to, value),
                        Question {
                            title: None,
                            prompt: String::from_str("Enter the function signature of the contract to call"),
                            help: Some(String::from_str("Example: `deposit(uint256 amount)(bytes32 depositHash)`")),
                        },
                    ),
                )
            },
            Stage::Signature(draft, metadata, to, value) => {
                let function = FunctionDescriptor::parse(text)?;
                let inputs: Vec<String> = Vec::new();
                assert(texts(inputs@) =~= Seq::empty());
                collect(draft, metadata, to, value, function, inputs)
            },
            Stage::Input(draft, metadata, to, value, function, inputs) => {
                let mut inputs = inputs;
                let ghost before = texts(inputs@);
                inputs.push(String::from_str(text));
                assert(texts(inputs@) =~= before.push(text@));
                collect(draft, metadata, to, value, function, inputs)
            },
        }
    }
}

} // verus!
