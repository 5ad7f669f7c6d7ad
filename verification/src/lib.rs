//! A typed call-data codec for batches of multisig transactions.
//!
//! A function signature and one literal for each parameter become the call
//! data of a contract call; a stored batch is held against what its declared
//! calls encode to before a document is rendered from it.
//!
//! - [`abi_type`]: the grammar of types, their canonical text, parsing.
//! - [`value`]: typed values, and what it is for a value to be of a type.
//! - [`coerce`]: reading a literal against a type.
//! - [`descriptor`]: function descriptors, canonical signatures, selectors.
//! - [`encode`]: encoding a call from values or from literals.
//! - [`types`]: the batch record.
//! - [`verify`]: the round trip from inputs to stored call data.
//! - [`render`]: the document of a batch.
//! - [`generate`] and [`dialogue`]: building a batch from a user's answers.
//! - [`report`] and [`error`]: failures, and failures in words.
//! - [`text`]: digits, decimal and hexadecimal.
//! - [`laws`]: what holds of the whole.
//! - [`sol`]: the calls into the `alloy` crates, taken on trust.
pub mod abi_type;
pub mod coerce;
pub mod descriptor;
pub mod dialogue;
pub mod encode;
pub mod error;
pub mod generate;
pub mod laws;
pub mod render;
pub mod report;
pub mod sol;
pub mod text;
pub mod types;
pub mod value;
pub mod verify;
