//! What holds of the parser as a whole, proved from the definitions.
//!
//! - [`wellformed`]: a file opens without error exactly when it is
//!   well-formed.
//! - [`tree`]: the children of every master element add up to its body;
//!   unknown elements are kept as bytes; a date counts from 2001; opening
//!   is a function of the bytes.
//! - [`language`]: an IETF language tag outranks an ISO-639 code.
//! - [`seekhead`] and [`locality`]: reading by a truthful SeekHead and
//!   reading in file order give the same file; SeekHeads that name each
//!   other make the file corrupt.

pub mod language;
pub mod locality;
pub mod seekhead;
pub mod tree;
pub mod wellformed;
