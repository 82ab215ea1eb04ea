use vstd::prelude::*;

verus! {

/// Status words that end a request in place of a payload.
#[derive(Clone, Copy, Debug, PartialEq, Eq, Structural)]
pub enum AppSW {
    /// The user declined on the device.
    Deny,
    /// The request payload is missing or malformed.
    WrongApduLength,
    /// The key could not be derived or is unusable.
    KeyDeriveFail,
}

impl AppSW {
    /// The two-byte status word sent back to the host.
    pub fn code(&self) -> (r: u16)
        ensures
            r == match *self {
                AppSW::Deny => 0x6985u16,
                AppSW::WrongApduLength => 0x6e03u16,
                AppSW::KeyDeriveFail => 0xb009u16,
            },
    {
        match self {
            AppSW::Deny => 0x6985,
            AppSW::WrongApduLength => 0x6e03,
            AppSW::KeyDeriveFail => 0xb009,
        }
    }
}

} // verus!
