use vstd::prelude::*;

verus! {

/// The failure kinds of the registry protocol.
///
/// Every check an operation performs is local and terminal: the first failing
/// check aborts the whole operation and surfaces its kind to the caller, and
/// no state change commits.
#[derive(Clone, Copy, Debug, PartialEq, Eq, Structural)]
pub enum ErrorCode {
    /// A dependency record fails its deserialization or initialization check.
    Uninitialized,
    /// A supplied salt or record reference does not reproduce the address
    /// derived from the key material.
    AddressDerivationMismatch,
    /// No record exists at the expected derived address.
    NotFound,
    /// A record already exists at the derived address.
    AlreadyExists,
    /// Two records disagree on the asset identity they refer to.
    MintMismatch,
    /// The claimed authority disagrees with the authority recorded in the
    /// metadata.
    UpdateAuthorityMismatch,
    /// The claimed symbol disagrees with the symbol recorded in the metadata.
    SymbolMismatch,
    /// The claimed holder disagrees with the owner recorded in the holding.
    OwnerMismatch,
    /// The held quantity is below the required threshold.
    InsufficientAmount,
    /// A display name exceeds the length limit.
    NameTooLong,
    /// The asset is not a unique, indivisible unit.
    NoNFT,
}

} // verus!
