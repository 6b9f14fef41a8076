use vstd::prelude::*;

verus! {

/// Failures raised by the program's own checks.
#[derive(Clone, Copy, Debug, PartialEq, Eq, Structural)]
pub enum AutoVerifyError {
    InvalidCollectionAuthority,
    MetadataCreationFailed,
    VerificationFailed,
    Unauthorized,
    InvalidCollectionSeed,
}

/// Failures of a bootstrap or issuance unit: an identity that the ledger
/// already holds, or one of the program's own errors.
#[derive(Clone, Copy, Debug, PartialEq, Eq, Structural)]
pub enum LedgerError {
    AccountInUse,
    Program(AutoVerifyError),
}

} // verus!
