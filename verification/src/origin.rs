//! Who a call comes from.
use vstd::prelude::*;

verus! {

/// The origin of a dispatched call.
#[derive(Clone, Copy, Debug, PartialEq, Eq)]
pub enum Origin {
    /// The chain itself.
    Root,
    /// A transaction signed by an account.
    Signed(u128),
    /// An unsigned transaction.
    Unsigned,
}

/// The account that signed a call, or the refusal of a call that no account signed.
pub fn ensure_signed(origin: Origin) -> (r: Result<u128, &'static str>)
    ensures
        match origin {
            Origin::Signed(who) => r == Ok::<u128, &'static str>(who),
            _ => r == Err::<u128, &'static str>("bad origin: expected to be a signed origin"),
        },
{
    match origin {
        Origin::Signed(who) => Ok(who),
        _ => Err("bad origin: expected to be a signed origin"),
    }
}

} // verus!
