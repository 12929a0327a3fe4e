//! The native currency that token funds are held in.
use std::collections::BTreeMap;
use vstd::prelude::*;

verus! {

/// Why native funds leave an account.
#[derive(Clone, Copy, Debug, PartialEq, Eq)]
pub enum WithdrawReason {
    TransactionPayment,
    Transfer,
    Reserve,
    Fee,
    Tip,
}

/// Whether a withdrawal may leave the account below the existential deposit.
#[derive(Clone, Copy, Debug, PartialEq, Eq)]
pub enum ExistenceRequirement {
    KeepAlive,
    AllowDeath,
}

/// The native currency of the chain, chosen by whoever sets up the token
/// factory. What each call does to the currency is the implementation's
/// own: it is described by the relation that the implementation gives
/// for it, which the call's result and the state after it satisfy.
pub trait Currency: Sized {
    /// Funds taken out of circulation by a withdrawal.
    type NegativeImbalance;

    /// The free balance of `who` in the state `c`.
    spec fn spec_free_balance(c: Self, who: u128) -> u64;

    /// How a withdrawal relates the state before, the state after, its
    /// arguments and its result.
    spec fn withdraw_post(
        pre: Self,
        post: Self,
        who: u128,
        value: u64,
        reason: WithdrawReason,
        liveness: ExistenceRequirement,
        result: Result<Self::NegativeImbalance, &'static str>,
    ) -> bool;

    /// How crediting withdrawn funds to `who` relates the states before and after.
    spec fn resolve_creating_post(
        pre: Self,
        post: Self,
        who: u128,
        imbalance: Self::NegativeImbalance,
    ) -> bool;

    /// How a transfer relates the state before, the state after, its
    /// arguments and its result.
    spec fn transfer_post(
        pre: Self,
        post: Self,
        from: u128,
        to: u128,
        value: u64,
        result: Result<(), &'static str>,
    ) -> bool;

    fn free_balance(&self, who: u128) -> (r: u64)
        ensures
            r == Self::spec_free_balance(*self, who),
    ;

    fn withdraw(
        &mut self,
        who: u128,
        value: u64,
        reason: WithdrawReason,
        liveness: ExistenceRequirement,
    ) -> (r: Result<Self::NegativeImbalance, &'static str>)
        ensures
            Self::withdraw_post(*old(self), *final(self), who, value, reason, liveness, r),
    ;

    fn resolve_creating(&mut self, who: u128, imbalance: Self::NegativeImbalance)
        ensures
            Self::resolve_creating_post(*old(self), *final(self), who, imbalance),
    ;

    fn transfer(&mut self, from: u128, to: u128, value: u64) -> (r: Result<(), &'static str>)
        ensures
            Self::transfer_post(*old(self), *final(self), from, to, value, r),
    ;
}

/// A native currency held in memory: each account has a free balance, and
/// there are no fees, locks or existential deposit.
pub struct SimpleBalances {
    free: BTreeMap<u128, u64>,
}

impl View for SimpleBalances {
    type V = Map<u128, u64>;

    closed spec fn view(&self) -> Map<u128, u64> {
        self.free@
    }
}

/// The free balance of `who` in the balances `m`; zero for an unknown account.
pub open spec fn free_of(m: Map<u128, u64>, who: u128) -> u64 {
    if m.contains_key(who) {
        m[who]
    } else {
        0
    }
}

/// The balances that the list `entries` sets, in order: a later entry for an
/// account replaces an earlier one.
pub open spec fn balances_from(entries: Seq<(u128, u64)>) -> Map<u128, u64>
    decreases entries.len(),
{
    if entries.len() == 0 {
        Map::empty()
    } else {
        balances_from(entries.drop_last()).insert(entries.last().0, entries.last().1)
    }
}

impl SimpleBalances {
    /// Balances where each listed account holds its listed amount (a later
    /// entry for the same account replaces an earlier one) and every other
    /// account holds nothing.
    pub fn new(balances: Vec<(u128, u64)>) -> (r: Self)
        ensures
            r@ == balances_from(balances@),
    {
        let mut free: BTreeMap<u128, u64> = BTreeMap::new();
        let mut k: usize = 0;
        while k < balances.len()
            invariant
                k <= balances@.len(),
                free@ == balances_from(balances@.take(k as int)),
            decreases balances@.len() - k,
        {
            let (who, amount) = balances[k];
            free.insert(who, amount);
            k = k + 1;
            assert(balances@.take(k as int).drop_last() =~= balances@.take(k - 1));
        }
        assert(balances@.take(k as int) =~= balances@);
        SimpleBalances { free }
    }
}

impl Currency for SimpleBalances {
    type NegativeImbalance = u64;

    open spec fn spec_free_balance(c: Self, who: u128) -> u64 {
        free_of(c@, who)
    }

    /// A withdrawal takes `value` from `who` and hands it out, and is
    /// refused, changing nothing, when `who` holds less.
    open spec fn withdraw_post(
        pre: Self,
        post: Self,
        who: u128,
        value: u64,
        reason: WithdrawReason,
        liveness: ExistenceRequirement,
        result: Result<u64, &'static str>,
    ) -> bool {
        if free_of(pre@, who) < value {
            result == Err::<u64, &'static str>("too few free funds in account") && post@ == pre@
        } else {
            result == Ok::<u64, &'static str>(value) && post@ == pre@.insert(
                who,
                (free_of(pre@, who) - value) as u64,
            )
        }
    }

    /// Crediting adds the imbalance to `who`, saturating at `u64::MAX`.
    open spec fn resolve_creating_post(pre: Self, post: Self, who: u128, imbalance: u64) -> bool {
        post@ == pre@.insert(
            who,
            if free_of(pre@, who) + imbalance > u64::MAX {
                u64::MAX
            } else {
                (free_of(pre@, who) + imbalance) as u64
            },
        )
    }

    /// A transfer moves `value` from `from` to `to`; it is refused, changing
    /// nothing, when `from` holds less or `to` would overflow.
    open spec fn transfer_post(
        pre: Self,
        post: Self,
        from: u128,
        to: u128,
        value: u64,
        result: Result<(), &'static str>,
    ) -> bool {
        if free_of(pre@, from) < value {
            result == Err::<(), &'static str>("balance too low to send value") && post@ == pre@
        } else if free_of(pre@, to) + value > u64::MAX {
            result == Err::<(), &'static str>("destination balance too high to receive value")
                && post@ == pre@
        } else if from == to {
            result == Ok::<(), &'static str>(()) && post@ == pre@
        } else {
            result == Ok::<(), &'static str>(()) && post@ == pre@.insert(
                from,
                (free_of(pre@, from) - value) as u64,
            ).insert(to, (free_of(pre@, to) + value) as u64)
        }
    }

    fn free_balance(&self, who: u128) -> (r: u64) {
        match self.free.get(&who) {
            Some(v) => *v,
            None => 0,
        }
    }

    fn withdraw(
        &mut self,
        who: u128,
        value: u64,
        reason: WithdrawReason,
        liveness: ExistenceRequirement,
    ) -> (r: Result<u64, &'static str>) {
        let balance = self.free_balance(who);
        if balance < value {
            return Err("too few free funds in account");
        }
        self.free.insert(who, balance - value);
        Ok(value)
    }

    fn resolve_creating(&mut self, who: u128, imbalance: u64) {
        let balance = self.free_balance(who);
        self.free.insert(who, balance.saturating_add(imbalance));
    }

    fn transfer(&mut self, from: u128, to: u128, value: u64) -> (r: Result<(), &'static str>) {
        let from_balance = self.free_balance(from);
        if from_balance < value {
            return Err("balance too low to send value");
        }
        let to_balance = self.free_balance(to);
        let new_to = match to_balance.checked_add(value) {
            Some(v) => v,
            None => return Err("destination balance too high to receive value"),
        };
        if from != to {
            self.free.insert(from, from_balance - value);
            self.free.insert(to, new_to);
        }
        Ok(())
    }
}

} // verus!
