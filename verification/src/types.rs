//! The batch record: a batch, its transactions, and what describes them.
use vstd::prelude::*;
use crate::descriptor::{DescriptorModel, FunctionDescriptor};

verus! {

/// Describes the metadata of an object.
#[derive(Clone, Debug, PartialEq, Eq)]
pub struct ObjectMetadata {
    /// The name of the object.
    pub name: String,
    /// The description of the object.
    pub description: String,
}

/// The mathematical model of an [`ObjectMetadata`].
pub ghost struct MetadataModel {
    pub name: Seq<char>,
    pub description: Seq<char>,
}

impl View for ObjectMetadata {
    type V = MetadataModel;

    open spec fn view(&self) -> MetadataModel {
        MetadataModel { name: self.name@, description: self.description@ }
    }
}

/// The literal given for the parameter of one name.
#[derive(Clone, Debug, PartialEq, Eq)]
pub struct InputValue {
    /// The parameter's name.
    pub name: String,
    /// The literal.
    pub value: String,
}

/// The mathematical model of an [`InputValue`].
pub ghost struct InputModel {
    pub name: Seq<char>,
    pub value: Seq<char>,
}

impl View for InputValue {
    type V = InputModel;

    open spec fn view(&self) -> InputModel {
        InputModel { name: self.name@, value: self.value@ }
    }
}

/// The models of a sequence of inputs, in order.
pub open spec fn input_models(entries: Seq<InputValue>) -> Seq<InputModel> {
    Seq::new(entries.len(), |i: int| entries[i]@)
}

/// No name stands in the inputs twice.
pub open spec fn names_occur_once(entries: Seq<InputModel>) -> bool {
    forall|i: int, j: int| 0 <= i < j < entries.len() ==> (#[trigger] entries[i]).name != (#[trigger] entries[j]).name
}

/// The literal that the inputs hold for a name: that of the first entry of the name.
pub open spec fn lookup(entries: Seq<InputModel>, name: Seq<char>) -> Option<Seq<char>>
    decreases entries.len(),
{
    if entries.len() == 0 {
        None
    } else if entries[0].name == name {
        Some(entries[0].value)
    } else {
        lookup(entries.subrange(1, entries.len() as int), name)
    }
}

/// Describes a transaction within a [`MultisigBatch`].
#[derive(Debug, PartialEq, Eq)]
pub struct BatchTransaction {
    /// The metadata of the transaction.
    pub metadata: ObjectMetadata,
    /// The address of the contract to call.
    pub to: [u8; 20],
    /// The value to send with the transaction: 256 bits, big end first.
    pub value: [u8; 32],
    /// The data to send with the transaction.
    pub data: Vec<u8>,
    /// The function of the contract to call.
    pub contract_method: FunctionDescriptor,
    /// The literal for each parameter of the call, by the parameter's name.
    /// A transaction that this library builds holds each name once; where a
    /// name stands twice, its first entry counts.
    pub contract_inputs_values: Vec<InputValue>,
}

/// The mathematical model of a [`BatchTransaction`].
pub ghost struct TransactionModel {
    pub metadata: MetadataModel,
    pub to: Seq<u8>,
    pub value: Seq<u8>,
    pub data: Seq<u8>,
    pub contract_method: DescriptorModel,
    pub contract_inputs_values: Seq<InputModel>,
}

impl View for BatchTransaction {
    type V = TransactionModel;

    open spec fn view(&self) -> TransactionModel {
        TransactionModel {
            metadata: self.metadata@,
            to: self.to@,
            value: self.value@,
            data: self.data@,
            contract_method: self.contract_method@,
            contract_inputs_values: input_models(self.contract_inputs_values@),
        }
    }
}

/// Describes the definition of a multisig batch.
#[derive(Debug, PartialEq, Eq)]
pub struct MultisigBatch {
    /// The chain that the batch is meant for.
    pub chain_id: u64,
    /// The metadata of the batch.
    pub metadata: ObjectMetadata,
    /// The transactions of the batch, in order.
    pub transactions: Vec<BatchTransaction>,
}

/// The mathematical model of a [`MultisigBatch`].
pub ghost struct BatchModel {
    pub chain_id: nat,
    pub metadata: MetadataModel,
    pub transactions: Seq<TransactionModel>,
}

impl View for MultisigBatch {
    type V = BatchModel;

    open spec fn view(&self) -> BatchModel {
        BatchModel {
            chain_id: self.chain_id as nat,
            metadata: self.metadata@,
            transactions: Seq::new(self.transactions@.len(), |i: int| self.transactions@[i]@),
        }
    }
}

/// Whether no name stands in the inputs twice.
pub fn has_names_once(entries: &Vec<InputValue>) -> (r: bool)
    ensures
        r == names_occur_once(input_models(entries@)),
{
    let ghost all = input_models(entries@);
    let mut j: usize = 0;
    while j < entries.len()
        invariant
            j <= entries.len(),
            all == input_models(entries@),
            forall|a: int, b: int| 0 <= a < b < j ==> (#[trigger] all[a]).name != (#[trigger] all[b]).name,
        decreases entries.len() - j,
    {
        let mut i: usize = 0;
        while i < j
            invariant
                i <= j < entries.len(),
                all == input_models(entries@),
                forall|a: int| 0 <= a < i ==> (#[trigger] all[a]).name != all[j as int].name,
            decreases j - i,
        {
            assert(all[i as int] == entries@[i as int]@);
            assert(all[j as int] == entries@[j as int]@);
            if entries[i].name == entries[j].name {
                return false;
            }
            i += 1;
        }
        j += 1;
    }
    true
}

/// Finds the literal that the inputs hold for a name: see [`lookup`].
pub fn find_input<'a>(entries: &'a Vec<InputValue>, name: &String) -> (r: Option<&'a String>)
    ensures
        match r {
            Some(literal) => lookup(input_models(entries@), name@) == Some(literal@),
            None => lookup(input_models(entries@), name@) is None,
        },
{
    let ghost all = input_models(entries@);
    let mut i: usize = 0;
    assert(all.subrange(0, all.len() as int) =~= all);
    while i < entries.len()
        invariant
            i <= entries.len(),
            all == input_models(entries@),
            lookup(all, name@) == lookup(all.subrange(i as int, all.len() as int), name@),
        decreases entries.len() - i,
    {
        let ghost rest = all.subrange(i as int, all.len() as int);
        assert(rest[0] == entries@[i as int]@);
        if entries[i].name == *name {
            return Some(&entries[i].value);
        }
        assert(rest.subrange(1, rest.len() as int) =~= all.subrange(i + 1, all.len() as int));
        i += 1;
    }
    None
}

} // verus!
