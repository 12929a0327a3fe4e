//! The token factory: its storage, its calls and their effects.
use crate::account::{fund_account_id, spec_fund_account_id};
use crate::currency::{Currency, ExistenceRequirement, WithdrawReason};
use crate::origin::{ensure_signed, Origin};
use crate::state::{
    lemma_balance_bound, lemma_token_sum_update, lemma_token_sums_agree, lemma_wf_frame, Event,
    TokenState,
};
use std::collections::BTreeMap;
use vstd::prelude::*;

verus! {

broadcast use vstd::std_specs::btree::group_btree_axioms, vstd::laws_cmp::group_laws_cmp;

/// The token factory, over the native currency `C`.
pub struct Module<C: Currency> {
    currency: C,
    free_transfer_period: u64,
    fund_transfer_fee: u64,
    count: u32,
    total_supply: BTreeMap<u32, u64>,
    balances: BTreeMap<(u32, u128), u64>,
    allowances: BTreeMap<(u32, u128, u128), u64>,
    free_transfers: BTreeMap<u32, u32>,
    free_transfer_count: BTreeMap<(u32, u128), u32>,
    events: Vec<Event>,
}

impl<C: Currency> View for Module<C> {
    type V = TokenState;

    closed spec fn view(&self) -> TokenState {
        TokenState {
            free_transfer_period: self.free_transfer_period,
            fund_transfer_fee: self.fund_transfer_fee,
            count: self.count,
            total_supply: self.total_supply@,
            balances: self.balances@,
            allowances: self.allowances@,
            free_transfers: self.free_transfers@,
            free_transfer_count: self.free_transfer_count@,
            events: self.events@,
        }
    }
}

impl<C: Currency> Module<C> {
    /// The state of the native currency that token funds are held in.
    pub closed spec fn native(&self) -> C {
        self.currency
    }

    /// The native currency that token funds are held in.
    pub fn currency(&self) -> (r: &C)
        ensures
            *r == self.native(),
    {
        &self.currency
    }

    /// A token factory with no tokens, whose free-transfer counters reset
    /// every `free_transfer_period` blocks and whose free transfers cost a
    /// token's fund `fund_transfer_fee`.
    pub fn new(currency: C, free_transfer_period: u64, fund_transfer_fee: u64) -> (r: Self)
        ensures
            r@.wf(),
            r.native() == currency,
            r@.free_transfer_period == free_transfer_period,
            r@.fund_transfer_fee == fund_transfer_fee,
            r@.count == 0,
            r@.total_supply == Map::<u32, u64>::empty(),
            r@.balances == Map::<(u32, u128), u64>::empty(),
            r@.allowances == Map::<(u32, u128, u128), u64>::empty(),
            r@.free_transfers == Map::<u32, u32>::empty(),
            r@.free_transfer_count == Map::<(u32, u128), u32>::empty(),
            r@.events == Seq::<Event>::empty(),
    {
        let r = Module {
            currency,
            free_transfer_period,
            fund_transfer_fee,
            count: 0,
            total_supply: BTreeMap::new(),
            balances: BTreeMap::new(),
            allowances: BTreeMap::new(),
            free_transfers: BTreeMap::new(),
            free_transfer_count: BTreeMap::new(),
            events: Vec::new(),
        };
        proof {
            assert forall|id: u32| #[trigger] r@.token_sum(id) == r@.supply_of(id) as int by {
                assert(r@.holders(id) =~= Set::<u128>::empty());
            }
        }
        r
    }

    /// The number of tokens created so far, which is the id of the next one.
    pub fn count(&self) -> (r: u32)
        ensures
            r == self@.count,
    {
        self.count
    }

    /// The total supply of token `id`.
    pub fn total_supply(&self, id: u32) -> (r: u64)
        ensures
            r == self@.supply_of(id),
    {
        match self.total_supply.get(&id) {
            Some(v) => *v,
            None => 0,
        }
    }

    /// The balance of the account `key.1` in the token `key.0`.
    pub fn balance_of(&self, key: (u32, u128)) -> (r: u64)
        ensures
            r == self@.balance_of(key.0, key.1),
    {
        match self.balances.get(&key) {
            Some(v) => *v,
            None => 0,
        }
    }

    /// How much of token `key.0` the account `key.2` may move from `key.1`.
    pub fn allowance_of(&self, key: (u32, u128, u128)) -> (r: u64)
        ensures
            r == self@.allowance_of(key.0, key.1, key.2),
    {
        match self.allowances.get(&key) {
            Some(v) => *v,
            None => 0,
        }
    }

    /// How many free transfers per period each holder of token `id` has.
    pub fn free_transfers(&self, id: u32) -> (r: u32)
        ensures
            r == self@.free_transfers_of(id),
    {
        match self.free_transfers.get(&id) {
            Some(v) => *v,
            None => 0,
        }
    }

    /// How many free transfers of token `key.0` the account `key.1` has made
    /// in the current period.
    pub fn free_transfer_count(&self, _prefix: &(), key: &(u32, u128)) -> (r: u32)
        ensures
            r == self@.free_transfer_count_of(key.0, key.1),
    {
        match self.free_transfer_count.get(key) {
            Some(v) => *v,
            None => 0,
        }
    }

    /// The events recorded so far, oldest first.
    pub fn events(&self) -> (r: &Vec<Event>)
        ensures
            r@ == self@.events,
    {
        &self.events
    }

    /// The account that holds the native-currency fund of token `index`.
    pub fn fund_account_id(index: u32) -> (r: u128)
        ensures
            r == spec_fund_account_id(index),
    {
        fund_account_id(index)
    }

    /// Moves `amount` of token `id` from `from` to `to`, refusing when
    /// `from` holds less.
    pub(crate) fn make_transfer(&mut self, id: u32, from: u128, to: u128, amount: u64) -> (r: Result<(), &'static str>)
        requires
            old(self)@.wf(),
        ensures
            final(self)@.wf(),
            final(self).native() == old(self).native(),
            old(self)@.balance_of(id, from) < amount ==> r == Err::<(), &'static str>("user does not have enough tokens")
                && final(self)@ == old(self)@,
            old(self)@.balance_of(id, from) >= amount ==> r == Ok::<(), &'static str>(())
                && old(self)@.transferred(final(self)@, id, from, to, amount),
            final(self)@.allowances == old(self)@.allowances,
            final(self)@.free_transfer_count == old(self)@.free_transfer_count,
    {
        let from_balance = self.balance_of((id, from));
        if from_balance < amount {
            return Err("user does not have enough tokens");
        }
        let ghost s0 = self@;
        proof {
            lemma_balance_bound(s0, id, from, to);
        }
        self.balances.insert((id, from), from_balance - amount);
        let ghost s1 = self@;
        proof {
            lemma_token_sum_update(s0, s1, id, from, (from_balance - amount) as u64);
        }
        let to_balance = self.balance_of((id, to));
        assert(to_balance + amount <= u64::MAX);
        self.balances.insert((id, to), to_balance + amount);
        let ghost s2 = self@;
        proof {
            lemma_token_sum_update(s1, s2, id, to, (to_balance + amount) as u64);
        }
        self.events.push(Event::Transfer(id, from, to, amount));
        proof {
            let t = self@;
            lemma_token_sums_agree(s2, t);
            assert(t.balances.dom().finite());
            assert(t.balances.dom() =~= s0.balances.dom().insert((id, from)).insert((id, to)));
            assert forall|i: u32| #[trigger] t.token_sum(i) == t.supply_of(i) as int by {
                assert(s0.token_sum(i) == s0.supply_of(i) as int);
            }
            assert forall|k: (u32, u128)| #[trigger] t.free_transfer_count.contains_key(k)
                implies t.free_transfer_count[k] <= t.free_transfers_of(k.0) by {
                assert(s0.free_transfer_count.contains_key(k));
            }
            assert forall|i: u32| #[trigger] t.free_transfers.contains_key(i) implies i < t.count by {
                assert(s0.free_transfers.contains_key(i));
            }
        }
        Ok(())
    }

    /// Resets every account's free-transfer count at the start of each
    /// block whose number is a multiple of the free-transfer period.
    pub fn on_initialize(&mut self, n: u64)
        requires
            old(self)@.wf(),
            old(self)@.free_transfer_period > 0,
        ensures
            final(self)@.wf(),
            final(self).native() == old(self).native(),
            n % old(self)@.free_transfer_period == 0 ==> final(self)@ == (TokenState {
                free_transfer_count: Map::empty(),
                ..old(self)@
            }),
            n % old(self)@.free_transfer_period != 0 ==> final(self)@ == old(self)@,
    {
        if n % self.free_transfer_period == 0 {
            self.free_transfer_count.clear();
            proof {
                lemma_wf_frame(old(self)@, self@);
            }
        }
    }

    /// Creates a token with the supply `total_supply`, all of it held by the
    /// signer, who pays `deposit` of native currency into its fund and whose
    /// holders each get `free_transfers` free transfers per period.
    pub fn create_token(&mut self, origin: Origin, total_supply: u64, free_transfers: u32, deposit: u64) -> (r: Result<(), &'static str>)
        requires
            old(self)@.wf(),
        ensures
            final(self)@.wf(),
            match origin {
                Origin::Signed(sender) => if old(self)@.count == u32::MAX {
                    &&& r == Err::<(), &'static str>("overflow when adding new token")
                    &&& final(self)@ == old(self)@
                    &&& final(self).native() == old(self).native()
                } else {
                    exists|mid: C, w: Result<C::NegativeImbalance, &'static str>|
                        #[trigger] C::withdraw_post(old(self).native(), mid, sender, deposit, WithdrawReason::Transfer, ExistenceRequirement::KeepAlive, w)
                        && match w {
                            Err(e) => {
                                &&& r == Err::<(), &'static str>(e)
                                &&& final(self)@ == old(self)@
                                &&& final(self).native() == mid
                            },
                            Ok(imbalance) => {
                                &&& r == Ok::<(), &'static str>(())
                                &&& final(self)@ == old(self)@.created(sender, total_supply, free_transfers, deposit)
                                &&& C::resolve_creating_post(mid, final(self).native(), spec_fund_account_id(old(self)@.count), imbalance)
                            },
                        }
                },
                _ => {
                    &&& r == Err::<(), &'static str>("bad origin: expected to be a signed origin")
                    &&& final(self)@ == old(self)@
                    &&& final(self).native() == old(self).native()
                },
            },
    {
        let sender = ensure_signed(origin)?;
        let id = self.count;
        let next_id = match id.checked_add(1) {
            Some(n) => n,
            None => return Err("overflow when adding new token"),
        };
        let ghost c0 = self.currency;
        let withdrawn = self.currency.withdraw(sender, deposit, WithdrawReason::Transfer, ExistenceRequirement::KeepAlive);
        let ghost c1 = self.currency;
        let imbalance = match withdrawn {
            Ok(imbalance) => imbalance,
            Err(e) => {
                assert(c0 == old(self).native());
                assert(C::withdraw_post(old(self).native(), c1, sender, deposit, WithdrawReason::Transfer, ExistenceRequirement::KeepAlive, withdrawn));
                return Err(e);
            },
        };
        let ghost s0 = self@;
        proof {
            lemma_balance_bound(s0, id, sender, sender);
        }
        self.balances.insert((id, sender), total_supply);
        let ghost s1 = self@;
        proof {
            lemma_token_sum_update(s0, s1, id, sender, total_supply);
        }
        self.total_supply.insert(id, total_supply);
        self.free_transfers.insert(id, free_transfers);
        self.count = next_id;
        let fund = fund_account_id(id);
        self.currency.resolve_creating(fund, imbalance);
        self.events.push(Event::NewToken(id, sender, total_supply));
        self.events.push(Event::Deposit(id, sender, deposit));
        proof {
            let t = self@;
            assert(t == s0.created(sender, total_supply, free_transfers, deposit));
            assert forall|i: u32| #[trigger] t.token_sum(i) == t.supply_of(i) as int by {
                assert(t.holders(i) =~= s1.holders(i));
                assert((|a: u128| t.balance_of(i, a) as int) =~= (|a: u128| s1.balance_of(i, a) as int));
                assert(s0.token_sum(i) == s0.supply_of(i) as int);
                if i == id {
                    assert(!s0.total_supply.contains_key(id));
                    assert(s0.supply_of(id) == 0);
                    assert(s0.balance_of(id, sender) == 0);
                    assert(s1.token_sum(id) == total_supply);
                    assert(t.supply_of(id) == total_supply);
                } else {
                    assert(s1.token_sum(i) == s0.token_sum(i));
                    assert(t.supply_of(i) == s0.supply_of(i));
                }
            }
            assert(c0 == old(self).native());
            assert(C::withdraw_post(old(self).native(), c1, sender, deposit, WithdrawReason::Transfer, ExistenceRequirement::KeepAlive, withdrawn));
        }
        Ok(())
    }

    /// Moves `amount` of token `id` from the signer to `to`.
    pub fn transfer(&mut self, origin: Origin, id: u32, to: u128, amount: u64) -> (r: Result<(), &'static str>)
        requires
            old(self)@.wf(),
        ensures
            final(self)@.wf(),
            final(self).native() == old(self).native(),
            match origin {
                Origin::Signed(sender) => if amount == 0 {
                    r == Err::<(), &'static str>("transfer amount should be non-zero") && final(self)@ == old(self)@
                } else if old(self)@.balance_of(id, sender) < amount {
                    r == Err::<(), &'static str>("user does not have enough tokens") && final(self)@ == old(self)@
                } else {
                    &&& r == Ok::<(), &'static str>(())
                    &&& old(self)@.transferred(final(self)@, id, sender, to, amount)
                    &&& final(self)@.allowances == old(self)@.allowances
                    &&& final(self)@.free_transfer_count == old(self)@.free_transfer_count
                },
                _ => r == Err::<(), &'static str>("bad origin: expected to be a signed origin") && final(self)@ == old(self)@,
            },
    {
        let sender = ensure_signed(origin)?;
        if amount == 0 {
            return Err("transfer amount should be non-zero");
        }
        self.make_transfer(id, sender, to, amount)
    }

    /// Lets `spender` move up to `value` of the signer's token `id`,
    /// replacing any earlier allowance.
    pub fn approve(&mut self, origin: Origin, id: u32, spender: u128, value: u64) -> (r: Result<(), &'static str>)
        requires
            old(self)@.wf(),
        ensures
            final(self)@.wf(),
            final(self).native() == old(self).native(),
            match origin {
                Origin::Signed(sender) => {
                    &&& r == Ok::<(), &'static str>(())
                    &&& final(self)@ == (TokenState {
                        allowances: old(self)@.allowances.insert((id, sender, spender), value),
                        ..old(self)@.with_event(Event::Approval(id, sender, spender, value))
                    })
                },
                _ => r == Err::<(), &'static str>("bad origin: expected to be a signed origin") && final(self)@ == old(self)@,
            },
    {
        let sender = ensure_signed(origin)?;
        self.allowances.insert((id, sender, spender), value);
        self.events.push(Event::Approval(id, sender, spender, value));
        proof {
            lemma_wf_frame(old(self)@, self@);
        }
        Ok(())
    }

    /// Moves `value` of token `id` from `from` to `to` on behalf of the
    /// signer, out of the allowance that `from` gave the signer.
    pub fn transfer_from(&mut self, origin: Origin, id: u32, from: u128, to: u128, value: u64) -> (r: Result<(), &'static str>)
        requires
            old(self)@.wf(),
        ensures
            final(self)@.wf(),
            final(self).native() == old(self).native(),
            match origin {
                Origin::Signed(sender) => if old(self)@.allowance_of(id, from, sender) < value {
                    r == Err::<(), &'static str>("underflow in calculating allowance") && final(self)@ == old(self)@
                } else if old(self)@.balance_of(id, from) < value {
                    r == Err::<(), &'static str>("user does not have enough tokens") && final(self)@ == old(self)@
                } else {
                    &&& r == Ok::<(), &'static str>(())
                    &&& old(self)@.transferred(final(self)@, id, from, to, value)
                    &&& final(self)@.allowances == old(self)@.allowances.insert(
                        (id, from, sender),
                        (old(self)@.allowance_of(id, from, sender) - value) as u64,
                    )
                    &&& final(self)@.free_transfer_count == old(self)@.free_transfer_count
                },
                _ => r == Err::<(), &'static str>("bad origin: expected to be a signed origin") && final(self)@ == old(self)@,
            },
    {
        let sender = ensure_signed(origin)?;
        let allowance = self.allowance_of((id, from, sender));
        let updated_allowance = match allowance.checked_sub(value) {
            Some(a) => a,
            None => return Err("underflow in calculating allowance"),
        };
        self.make_transfer(id, from, to, value)?;
        let ghost s1 = self@;
        self.allowances.insert((id, from, sender), updated_allowance);
        proof {
            lemma_wf_frame(s1, self@);
            let t = self@;
            assert(forall|i: u32, a: u128| #[trigger] t.balance_of(i, a) == s1.balance_of(i, a));
        }
        Ok(())
    }

    /// Moves `amount` of token `id` from the signer to `to` without the
    /// signer paying a fee: the token's fund pays the free-transfer fee
    /// instead, and the signer's free-transfer count for the period goes up
    /// by one. Refused once the signer has used all of the token's free
    /// transfers for the period.
    pub fn try_free_transfer(&mut self, origin: Origin, id: u32, to: u128, amount: u64) -> (r: Result<(), &'static str>)
        requires
            old(self)@.wf(),
        ensures
            final(self)@.wf(),
            match origin {
                Origin::Signed(sender) => {
                    let s = old(self)@;
                    let used = s.free_transfer_count_of(id, sender);
                    if used == u32::MAX {
                        &&& r == Err::<(), &'static str>("overflow when counting new transfer")
                        &&& final(self)@ == s
                        &&& final(self).native() == old(self).native()
                    } else if used >= s.free_transfers_of(id) {
                        &&& r == Err::<(), &'static str>("no more free transfers available")
                        &&& final(self)@ == s
                        &&& final(self).native() == old(self).native()
                    } else if amount == 0 {
                        &&& r == Err::<(), &'static str>("transfer amount should be non-zero")
                        &&& final(self)@ == s
                        &&& final(self).native() == old(self).native()
                    } else if s.balance_of(id, sender) < amount {
                        &&& r == Err::<(), &'static str>("user does not have enough tokens")
                        &&& final(self)@ == s
                        &&& final(self).native() == old(self).native()
                    } else {
                        exists|mid: C, w: Result<C::NegativeImbalance, &'static str>|
                            #[trigger] C::withdraw_post(old(self).native(), mid, spec_fund_account_id(id), s.fund_transfer_fee, WithdrawReason::Transfer, ExistenceRequirement::AllowDeath, w)
                            && final(self).native() == mid
                            && match w {
                                Err(e) => r == Err::<(), &'static str>(e) && final(self)@ == s,
                                Ok(_) => {
                                    &&& r == Ok::<(), &'static str>(())
                                    &&& s.transferred(final(self)@, id, sender, to, amount)
                                    &&& final(self)@.allowances == s.allowances
                                    &&& final(self)@.free_transfer_count == s.free_transfer_count.insert((id, sender), (used + 1) as u32)
                                },
                            }
                    }
                },
                _ => {
                    &&& r == Err::<(), &'static str>("bad origin: expected to be a signed origin")
                    &&& final(self)@ == old(self)@
                    &&& final(self).native() == old(self).native()
                },
            },
    {
        let sender = ensure_signed(origin)?;
        let free_transfer_limit = self.free_transfers(id);
        let free_transfer_count = self.free_transfer_count(&(), &(id, sender));
        let new_free_transfer_count = match free_transfer_count.checked_add(1) {
            Some(n) => n,
            None => return Err("overflow when counting new transfer"),
        };
        if free_transfer_count >= free_transfer_limit {
            return Err("no more free transfers available");
        }
        if amount == 0 {
            return Err("transfer amount should be non-zero");
        }
        if amount > self.balance_of((id, sender)) {
            return Err("user does not have enough tokens");
        }
        let fund_account = fund_account_id(id);
        let fund_fee = self.fund_transfer_fee;
        let withdrawn = self.currency.withdraw(fund_account, fund_fee, WithdrawReason::Transfer, ExistenceRequirement::AllowDeath);
        let ghost c1 = self.currency;
        assert(C::withdraw_post(old(self).native(), c1, spec_fund_account_id(id), old(self)@.fund_transfer_fee, WithdrawReason::Transfer, ExistenceRequirement::AllowDeath, withdrawn));
        match withdrawn {
            Ok(_) => {},
            Err(e) => {
                return Err(e);
            },
        }
        let moved = self.make_transfer(id, sender, to, amount);
        assert(moved is Ok);
        let ghost s1 = self@;
        self.free_transfer_count.insert((id, sender), new_free_transfer_count);
        proof {
            let t = self@;
            assert forall|k: (u32, u128)| #[trigger] t.free_transfer_count.contains_key(k)
                implies t.free_transfer_count[k] <= t.free_transfers_of(k.0) by {
                if k != (id, sender) {
                    assert(s1.free_transfer_count.contains_key(k));
                }
            }
            lemma_wf_frame(s1, t);
            assert(forall|i: u32, a: u128| #[trigger] t.balance_of(i, a) == s1.balance_of(i, a));
        }
        Ok(())
    }

    /// Pays `value` of the signer's native currency into the fund of the
    /// token `token_id`, which must have been created.
    pub fn deposit(&mut self, origin: Origin, token_id: u32, value: u64) -> (r: Result<(), &'static str>)
        requires
            old(self)@.wf(),
        ensures
            final(self)@.wf(),
            match origin {
                Origin::Signed(who) => if old(self)@.count <= token_id {
                    &&& r == Err::<(), &'static str>("Non-existent token")
                    &&& final(self)@ == old(self)@
                    &&& final(self).native() == old(self).native()
                } else {
                    exists|mid: C, w: Result<(), &'static str>|
                        #[trigger] C::transfer_post(old(self).native(), mid, who, spec_fund_account_id(token_id), value, w)
                        && final(self).native() == mid
                        && match w {
                            Err(e) => r == Err::<(), &'static str>(e) && final(self)@ == old(self)@,
                            Ok(_) => r == Ok::<(), &'static str>(())
                                && final(self)@ == old(self)@.with_event(Event::Deposit(token_id, who, value)),
                        }
                },
                _ => {
                    &&& r == Err::<(), &'static str>("bad origin: expected to be a signed origin")
                    &&& final(self)@ == old(self)@
                    &&& final(self).native() == old(self).native()
                },
            },
    {
        let who = ensure_signed(origin)?;
        if self.count <= token_id {
            return Err("Non-existent token");
        }
        let fund = fund_account_id(token_id);
        let paid = self.currency.transfer(who, fund, value);
        let ghost c1 = self.currency;
        assert(C::transfer_post(old(self).native(), c1, who, spec_fund_account_id(token_id), value, paid));
        match paid {
            Ok(_) => {},
            Err(e) => {
                return Err(e);
            },
        }
        self.events.push(Event::Deposit(token_id, who, value));
        proof {
            lemma_wf_frame(old(self)@, self@);
        }
        Ok(())
    }

    /// Sets the number of tokens created, as a direct write to storage.
    pub fn put_count(&mut self, count: u32)
        ensures
            final(self)@ == (TokenState { count, ..old(self)@ }),
            final(self).native() == old(self).native(),
            old(self)@.wf() && count >= old(self)@.count ==> final(self)@.wf(),
    {
        self.count = count;
        proof {
            if old(self)@.wf() && count >= old(self)@.count {
                let s = old(self)@;
                let t = self@;
                assert forall|i: u32| #[trigger] t.token_sum(i) == t.supply_of(i) as int by {
                    assert(t.holders(i) =~= s.holders(i));
                    assert((|a: u128| t.balance_of(i, a) as int) =~= (|a: u128| s.balance_of(i, a) as int));
                    assert(s.token_sum(i) == s.supply_of(i) as int);
                }
                assert forall|k: (u32, u128)| #[trigger] t.free_transfer_count.contains_key(k)
                    implies t.free_transfer_count[k] <= t.free_transfers_of(k.0) by {
                    assert(s.free_transfer_count.contains_key(k));
                }
            }
        }
    }
}

} // verus!
