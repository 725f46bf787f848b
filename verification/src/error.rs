use vstd::prelude::*;

verus! {

/// What can go wrong while collecting interface facts or reconciling
/// advertisements.
#[derive(Clone, Copy, Debug, PartialEq, Eq, Structural)]
pub enum ErrorCode {
    /// The textual hardware address is not eight colon-separated
    /// two-digit hexadecimal octets.
    InvalidHardwareAddress,
    /// The host could not enumerate its interfaces.
    InterfaceEnumerationFailed,
    /// The registrar rejected a record.
    RegistrationFailed,
    /// The registrar failed to withdraw a record.
    DeregistrationFailed,
    /// No registrar could be created.
    RegistrarUnavailable,
}

} // verus!
