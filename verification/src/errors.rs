use vstd::prelude::*;

verus! {

/// Failure kinds reported by the vault manager.
///
/// Every handler aborts with exactly one of these; a failed call leaves all
/// modelled account state unchanged.
#[derive(Clone, Copy, Debug, PartialEq, Eq, Structural)]
pub enum VaultError {
    /// An instruction buffer was empty, had a truncated fixed-width segment,
    /// or carried a name that is not valid UTF-8.
    MalformedInstruction,
    /// The instruction tag byte matches no known operation.
    InvalidInstruction,
    /// Persisted account bytes do not form a valid record.
    DataUnpackError,
    /// The wallet that must authorize the operation did not sign.
    UnauthorizedCaller,
    /// A supplied account key differs from the derived address, or no
    /// address could be derived from the seeds.
    AddressMismatch,
    /// Init on an already-initialized account, or a mutating operation on an
    /// absent account.
    AccountStateConflict,
    /// A credential index at or beyond the end of the credential list.
    IndexOutOfRange,
    /// The operation would push an account past a storage ceiling.
    CapacityExceeded,
    /// The host's balance-transfer primitive could not fund the operation:
    /// the payer is short, or a balance or funding floor leaves `u64`.
    TransferFailed,
}

impl VaultError {
    /// A short diagnostic text for callers that report failures.
    pub fn describe(&self) -> (r: &'static str) {
        match self {
            VaultError::MalformedInstruction => "malformed instruction payload",
            VaultError::InvalidInstruction => "unknown instruction tag",
            VaultError::DataUnpackError => "stored account bytes are not a valid record",
            VaultError::UnauthorizedCaller => "required signer is missing",
            VaultError::AddressMismatch => "account key does not match the derived address",
            VaultError::AccountStateConflict => "account is in the wrong lifecycle state",
            VaultError::IndexOutOfRange => "credential index is out of range",
            VaultError::CapacityExceeded => "account would exceed its storage ceiling",
            VaultError::TransferFailed => "balance transfer could not be performed",
        }
    }
}

} // verus!
