//! Paying a transaction's fee in the token being moved.
use crate::module::Module;
use crate::currency::Currency;
use crate::state::TokenState;
use vstd::prelude::*;

verus! {

/// How a transaction pool should treat a transaction that passed validation.
pub struct ValidTransaction {
    /// Higher goes first.
    pub priority: u64,
    /// Tags that must be provided by earlier transactions.
    pub requires: Vec<Vec<u8>>,
    /// Tags that this transaction provides.
    pub provides: Vec<Vec<u8>>,
    /// For how many blocks the transaction stays valid.
    pub longevity: u64,
    /// Whether the transaction may be gossiped to other nodes.
    pub propagate: bool,
}

/// A transaction extension through which the sender pays `value` of the
/// token `id` as the transaction's fee.
#[derive(Clone, Copy, PartialEq, Eq)]
pub struct TakeTokenFees {
    id: u32,
    value: u64,
}

impl TakeTokenFees {
    pub closed spec fn spec_id(self) -> u32 {
        self.id
    }

    pub closed spec fn spec_value(self) -> u64 {
        self.value
    }

    /// Pays the fee `value` in the token `id`.
    pub fn new(id: u32, value: u64) -> (r: Self)
        ensures
            r.spec_id() == id,
            r.spec_value() == value,
    {
        TakeTokenFees { id, value }
    }

    /// The fee extension's debug rendering, which shows neither field.
    pub fn debug_string(&self) -> (r: String)
        ensures
            r@ == "TokenFee ( id: ?, fee: ? )"@,
    {
        "TokenFee ( id: ?, fee: ? )".to_owned()
    }

    /// The extension adds nothing to the signed payload.
    pub fn additional_signed(&self) -> (r: Result<(), &'static str>)
        ensures
            r == Ok::<(), &'static str>(()),
    {
        Ok(())
    }

    /// Validates a transaction of `who` by paying the fee, in the token
    /// `id`, to the author of the current block. `author` is the block's
    /// author as the chain reports it, `None` when none is known. The
    /// transaction is always valid; its priority is the fee when the fee
    /// was paid, and 0 when no author is known (nothing moves) or `who`
    /// holds less than the fee (nothing moves either).
    pub fn validate<C: Currency>(
        &self,
        module: &mut Module<C>,
        who: u128,
        author: Option<u128>,
    ) -> (r: Result<ValidTransaction, &'static str>)
        requires
            old(module)@.wf(),
        ensures
            final(module)@.wf(),
            final(module).native() == old(module).native(),
            r matches Ok(v) && {
                &&& v.priority == (if author is Some && old(module)@.balance_of(self.spec_id(), who)
                    >= self.spec_value() {
                    self.spec_value()
                } else {
                    0
                })
                &&& v.requires@ == Seq::<Vec<u8>>::empty()
                &&& v.provides@ == Seq::<Vec<u8>>::empty()
                &&& v.longevity == u64::MAX
                &&& v.propagate
            },
            author is None ==> final(module)@ == old(module)@,
            author is Some && old(module)@.balance_of(self.spec_id(), who) < self.spec_value()
                ==> final(module)@ == old(module)@,
            author is Some && old(module)@.balance_of(self.spec_id(), who) >= self.spec_value()
                ==> {
                &&& old(module)@.transferred(final(module)@, self.spec_id(), who, author.unwrap(), self.spec_value())
                &&& final(module)@.allowances == old(module)@.allowances
                &&& final(module)@.free_transfer_count == old(module)@.free_transfer_count
            },
    {
        let id = self.id;
        let fee = self.value;
        let mut r = ValidTransaction {
            priority: 0,
            requires: Vec::new(),
            provides: Vec::new(),
            longevity: u64::MAX,
            propagate: true,
        };
        if let Some(author) = author {
            let result = module.make_transfer(id, who, author, fee);
            if result.is_ok() {
                r.priority = fee;
            }
        }
        Ok(r)
    }
}

} // verus!
