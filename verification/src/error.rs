//! What can go wrong, and with what context it is reported.
use vstd::prelude::*;

verus! {

/// The kinds of failure. Every failure ends the operation that met it.
#[derive(Clone, Copy, Debug, PartialEq, Eq, Structural)]
pub enum ErrorKind {
    /// A signature or a type that does not follow the grammar.
    MalformedSignature,
    /// An integer literal that does not fit its type.
    OutOfRange,
    /// An address literal that is not `0x` and forty hexadecimal digits.
    InvalidAddress,
    /// A boolean literal that is neither `true` nor `false`.
    InvalidBool,
    /// A bytes literal that is not `0x` and the right number of hexadecimal digits.
    InvalidLength,
    /// A wrong number of elements, fields or values.
    ArityMismatch,
    /// A parameter without a literal in the inputs of its transaction.
    MissingInput,
    /// Stored call data that differs from the call data the inputs give.
    DataMismatch,
}

/// A failure of the codec, with what it was working on.
#[derive(Debug, PartialEq, Eq)]
pub enum CodecError {
    /// The text is not a signature, or not a type.
    MalformedSignature { text: String },
    /// The literal cannot be read as a value of the type.
    Coercion { kind: ErrorKind, literal: String, ty: String },
    /// The number of values is not the number of parameters.
    ArityMismatch { parameters: usize, values: usize },
    /// The inputs hold no literal for the parameter of this name.
    MissingInput { name: String },
    /// The stored call data is not what the inputs encode to.
    DataMismatch { expected: Vec<u8>, actual: Vec<u8> },
}

/// The mathematical model of a [`CodecError`].
pub ghost enum ErrorModel {
    MalformedSignature { text: Seq<char> },
    Coercion { kind: ErrorKind, literal: Seq<char>, ty: Seq<char> },
    ArityMismatch { parameters: nat, values: nat },
    MissingInput { name: Seq<char> },
    DataMismatch { expected: Seq<u8>, actual: Seq<u8> },
}

impl View for CodecError {
    type V = ErrorModel;

    open spec fn view(&self) -> ErrorModel {
        match self {
            CodecError::MalformedSignature { text } => ErrorModel::MalformedSignature { text: text@ },
            CodecError::Coercion { kind, literal, ty } => ErrorModel::Coercion {
                kind: *kind,
                literal: literal@,
                ty: ty@,
            },
            CodecError::ArityMismatch { parameters, values } => ErrorModel::ArityMismatch {
                parameters: *parameters as nat,
                values: *values as nat,
            },
            CodecError::MissingInput { name } => ErrorModel::MissingInput { name: name@ },
            CodecError::DataMismatch { expected, actual } => ErrorModel::DataMismatch {
                expected: expected@,
                actual: actual@,
            },
        }
    }
}

impl ErrorModel {
    /// The kind of failure that this error reports.
    pub open spec fn kind(self) -> ErrorKind {
        match self {
            ErrorModel::MalformedSignature { .. } => ErrorKind::MalformedSignature,
            ErrorModel::Coercion { kind, .. } => kind,
            ErrorModel::ArityMismatch { .. } => ErrorKind::ArityMismatch,
            ErrorModel::MissingInput { .. } => ErrorKind::MissingInput,
            ErrorModel::DataMismatch { .. } => ErrorKind::DataMismatch,
        }
    }
}

impl CodecError {
    /// The kind of failure that this error reports.
    pub fn kind(&self) -> (k: ErrorKind)
        ensures
            k == self@.kind(),
    {
        match self {
            CodecError::MalformedSignature { .. } => ErrorKind::MalformedSignature,
            CodecError::Coercion { kind, .. } => *kind,
            CodecError::ArityMismatch { .. } => ErrorKind::ArityMismatch,
            CodecError::MissingInput { .. } => ErrorKind::MissingInput,
            CodecError::DataMismatch { .. } => ErrorKind::DataMismatch,
        }
    }
}

/// A failure within a batch: the number of the transaction, and what failed in it.
#[derive(Debug, PartialEq, Eq)]
pub struct BatchError {
    /// The number of the transaction, counted from one.
    pub index: usize,
    /// What failed.
    pub error: CodecError,
}

impl View for BatchError {
    type V = (nat, ErrorModel);

    open spec fn view(&self) -> (nat, ErrorModel) {
        (self.index as nat, self.error@)
    }
}

} // verus!
