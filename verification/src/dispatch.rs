//! Who sends a call, and why a call is refused.

use vstd::prelude::*;

verus! {

/// Where a call comes from.
#[derive(Debug, PartialEq, Eq)]
pub enum RawOrigin<AccountId> {
    /// The system itself ordains it.
    Root,
    /// An account signed it.
    Signed(AccountId),
    /// Nobody signed it.
    Unsigned,
}

/// Why a call is refused.
#[derive(Debug, PartialEq, Eq)]
pub enum DispatchError {
    /// The call must be signed by an account.
    ExpectedSigned,
    /// The call must come from the system.
    ExpectedRoot,
    /// The reported equivocation is none.
    InvalidEquivocation,
}

impl DispatchError {
    /// What the error says.
    pub fn message(&self) -> (r: &'static str)
        ensures
            r@ == match *self {
                DispatchError::ExpectedSigned => "bad origin: expected to be a signed origin"@,
                DispatchError::ExpectedRoot => "bad origin: expected to be a root origin"@,
                DispatchError::InvalidEquivocation => "invalid equivocation"@,
            },
    {
        match *self {
            DispatchError::ExpectedSigned => "bad origin: expected to be a signed origin",
            DispatchError::ExpectedRoot => "bad origin: expected to be a root origin",
            DispatchError::InvalidEquivocation => "invalid equivocation",
        }
    }
}

/// The account that signed the call, or an error where none did.
pub fn ensure_signed<AccountId>(origin: RawOrigin<AccountId>) -> (r: Result<
    AccountId,
    DispatchError,
>)
    ensures
        r == match origin {
            RawOrigin::Signed(who) => Ok::<AccountId, DispatchError>(who),
            _ => Err(DispatchError::ExpectedSigned),
        },
{
    match origin {
        RawOrigin::Signed(who) => Ok(who),
        _ => Err(DispatchError::ExpectedSigned),
    }
}

/// An error where the call does not come from the system.
pub fn ensure_root<AccountId>(origin: RawOrigin<AccountId>) -> (r: Result<(), DispatchError>)
    ensures
        r == match origin {
            RawOrigin::Root => Ok::<(), DispatchError>(()),
            _ => Err(DispatchError::ExpectedRoot),
        },
{
    match origin {
        RawOrigin::Root => Ok(()),
        _ => Err(DispatchError::ExpectedRoot),
    }
}

} // verus!
