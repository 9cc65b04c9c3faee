//! Negotiated policies for authenticated sessions.

use vstd::prelude::*;

verus! {

/// Controls signing of ordinary requests and responses.
///
/// What the protocol itself demands to be signed is signed under both
/// policies. Encryption is independent.
#[derive(Clone, Copy, Debug, PartialEq, Eq, Structural)]
pub enum SigningPolicy {
    /// Require message integrity even when the server does not require it.
    Required,
    /// Omit ordinary message signing when the server permits it.
    WhenRequired,
}

impl Default for SigningPolicy {
    fn default() -> (policy: Self)
        ensures
            policy == SigningPolicy::Required,
    {
        SigningPolicy::Required
    }
}

impl SigningPolicy {
    /// Whether ordinary messages are signed. What the server requires is
    /// always honored.
    pub fn required(self, server_requires: bool) -> (required: bool)
        ensures
            required == (self == SigningPolicy::Required || server_requires),
    {
        match self {
            SigningPolicy::Required => true,
            SigningPolicy::WhenRequired => server_requires,
        }
    }
}

/// Whether guests may talk without signatures.
#[derive(Clone, Copy, Debug, PartialEq, Eq, Structural)]
pub enum GuestPolicy {
    Deny,
    AllowUnsigned,
}

impl GuestPolicy {
    pub fn allows_unsigned(self) -> (allows: bool)
        ensures
            allows == (self == GuestPolicy::AllowUnsigned),
    {
        match self {
            GuestPolicy::Deny => false,
            GuestPolicy::AllowUnsigned => true,
        }
    }
}

} // verus!
