use vstd::prelude::*;

verus! {

/// Why a pass stopped. Every kind is fatal: the bytes already written stay,
/// and nothing more is written.
#[derive(Debug, Clone, Copy, PartialEq, Eq, Structural)]
pub enum RdbError {
    /// A block of input text is not a valid TOML document.
    MalformedFragment,
    /// A block parsed, but holds no top-level key.
    InvalidKeyedRecord,
    /// A value that has no text form stands where a scalar is needed.
    UnsupportedScalarKind,
}

impl RdbError {
    /// A short description of the error kind.
    pub fn message(&self) -> (r: &'static str)
        ensures
            r@ == match *self {
                RdbError::MalformedFragment => "invalid TOML for Redis"@,
                RdbError::InvalidKeyedRecord => "TOML block holds no key"@,
                RdbError::UnsupportedScalarKind => "value has no text form"@,
            },
    {
        match self {
            RdbError::MalformedFragment => "invalid TOML for Redis",
            RdbError::InvalidKeyedRecord => "TOML block holds no key",
            RdbError::UnsupportedScalarKind => "value has no text form",
        }
    }
}

} // verus!
