//! Failures in words, for whoever has to mend the batch.
use vstd::prelude::*;
use vstd::string::*;
use crate::error::{BatchError, CodecError, ErrorKind, ErrorModel};
use crate::text::{decimal_digits, decimal_string, hex_string, prefixed_hex};

verus! {

/// A kind of failure in words.
pub open spec fn kind_text(kind: ErrorKind) -> Seq<char> {
    match kind {
        ErrorKind::MalformedSignature => "malformed signature"@,
        ErrorKind::OutOfRange => "integer out of range"@,
        ErrorKind::InvalidAddress => "invalid address"@,
        ErrorKind::InvalidBool => "invalid boolean"@,
        ErrorKind::InvalidLength => "invalid length"@,
        ErrorKind::ArityMismatch => "arity mismatch"@,
        ErrorKind::MissingInput => "missing input"@,
        ErrorKind::DataMismatch => "data mismatch"@,
    }
}

/// A failure in words. A failed reading names its kind, the literal and the
/// type; an arity mismatch gives both counts; a missing input names the
/// parameter; a data mismatch shows the data that the inputs encode to and
/// the data that is stored.
pub open spec fn error_text(e: ErrorModel) -> Seq<char> {
    match e {
        ErrorModel::MalformedSignature { text } => "malformed signature: `"@ + text + "`"@,
        ErrorModel::Coercion { kind, literal, ty } => kind_text(kind) + ": `"@ + literal + "` is no `"@ + ty
            + "`"@,
        ErrorModel::ArityMismatch { parameters, values } => "arity mismatch: "@ + decimal_digits(values)
            + " values for "@ + decimal_digits(parameters) + " parameters"@,
        ErrorModel::MissingInput { name } => "input "@ + name
            + " does not exist in the contractInputValues map"@,
        ErrorModel::DataMismatch { expected, actual } =>
            "Tx data does not match contractInputsValues. Instead Got "@ + prefixed_hex(expected)
            + " instead of "@ + prefixed_hex(actual),
    }
}

/// A failure within a batch in words: the number of the transaction, then the failure.
pub open spec fn batch_error_text(index: nat, e: ErrorModel) -> Seq<char> {
    "tx "@ + decimal_digits(index) + ". "@ + error_text(e)
}

/// A kind of failure in words.
pub fn kind_name(kind: ErrorKind) -> (s: &'static str)
    ensures
        s@ == kind_text(kind),
{
    match kind {
        ErrorKind::MalformedSignature => "malformed signature",
        ErrorKind::OutOfRange => "integer out of range",
        ErrorKind::InvalidAddress => "invalid address",
        ErrorKind::InvalidBool => "invalid boolean",
        ErrorKind::InvalidLength => "invalid length",
        ErrorKind::ArityMismatch => "arity mismatch",
        ErrorKind::MissingInput => "missing input",
        ErrorKind::DataMismatch => "data mismatch",
    }
}

impl CodecError {
    /// This failure in words: see [`error_text`].
    pub fn message(&self) -> (s: String)
        ensures
            s@ == error_text(self@),
    {
        match self {
            CodecError::MalformedSignature { text } => {
                let mut s = String::from_str("malformed signature: `");
                s.append(text.as_str());
                s.append("`");
                s
            },
            CodecError::Coercion { kind, literal, ty } => {
                let mut s = String::from_str(kind_name(*kind));
                s.append(": `");
                s.append(literal.as_str());
                s.append("` is no `");
                s.append(ty.as_str());
                s.append("`");
                s
            },
            CodecError::ArityMismatch { parameters, values } => {
                let mut s = String::from_str("arity mismatch: ");
                s.append(decimal_string(*values as u64).as_str());
                s.append(" values for ");
                s.append(decimal_string(*parameters as u64).as_str());
                s.append(" parameters");
                s
            },
            CodecError::MissingInput { name } => {
                let mut s = String::from_str("input ");
                s.append(name.as_str());
                s.append(" does not exist in the contractInputValues map");
                s
            },
            CodecError::DataMismatch { expected, actual } => {
                let mut s = String::from_str("Tx data does not match contractInputsValues. Instead Got ");
                s.append(hex_string(expected).as_str());
                s.append(" instead of ");
                s.append(hex_string(actual).as_str());
                s
            },
        }
    }
}

impl BatchError {
    /// This failure in words: see [`batch_error_text`].
    pub fn message(&self) -> (s: String)
        ensures
            s@ == batch_error_text(self.index as nat, self.error@),
    {
        let mut s = String::from_str("tx ");
        s.append(decimal_string(self.index as u64).as_str());
        s.append(". ");
        s.append(self.error.message().as_str());
        s
    }
}

} // verus!
