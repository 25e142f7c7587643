use vstd::prelude::*;

verus! {

/// The ways an operation of this library can fail.
#[derive(Clone, Debug)]
pub enum Error {
    /// Open, read, write or seek failed on the backing stream.
    Io(String),
    /// Bytes that do not form a valid block (or invalid UTF-8 text).
    Format(String),
    /// A value whose shape no accepted constructor input has, or a chunk whose
    /// columns disagree with the schema it is written under.
    TypeMismatch,
    /// The arrays of a chunk do not all have the same length.
    LengthMismatch,
    /// A physical type that this library does not implement.
    UnsupportedType,
    /// The host stream lacks a capability that the direction needs.
    Capability,
    /// A write after the writer was finalized.
    Finished,
}

impl Error {
    /// A description of the error.
    pub fn message(&self) -> String {
        match self {
            Error::Io(m) => m.clone(),
            Error::Format(m) => m.clone(),
            Error::TypeMismatch => "type mismatch".to_string(),
            Error::LengthMismatch => "arrays of a chunk must all have the same length".to_string(),
            Error::UnsupportedType => "unsupported physical type".to_string(),
            Error::Capability => "the stream lacks a required capability".to_string(),
            Error::Finished => "the writer is already finalized".to_string(),
        }
    }
}

} // verus!
