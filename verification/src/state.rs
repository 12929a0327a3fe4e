//! The abstract state of the token factory and its invariant.
use crate::sum::{
    lemma_set_sum_ext, lemma_set_sum_insert, lemma_set_sum_nonneg, lemma_set_sum_pair_bound,
    lemma_set_sum_update, set_sum,
};
use vstd::prelude::*;

verus! {

/// What the token factory records when a call succeeds.
#[derive(Clone, Copy, Debug, PartialEq, Eq)]
pub enum Event {
    /// A token was created: its id, its creator and its total supply.
    NewToken(u32, u128, u64),
    /// Tokens moved: token id, from, to, amount.
    Transfer(u32, u128, u128, u64),
    /// An allowance was set: token id, owner, spender, amount.
    Approval(u32, u128, u128, u64),
    /// Native currency was added to a token's fund: token id, payer, amount.
    Deposit(u32, u128, u64),
}

/// The token factory's storage, as mathematical maps. A key that is absent
/// reads as zero.
pub struct TokenState {
    /// Blocks between two resets of the free-transfer counters.
    pub free_transfer_period: u64,
    /// Native currency taken from a token's fund for each free transfer.
    pub fund_transfer_fee: u64,
    /// The number of tokens created; also the id of the next one.
    pub count: u32,
    pub total_supply: Map<u32, u64>,
    pub balances: Map<(u32, u128), u64>,
    pub allowances: Map<(u32, u128, u128), u64>,
    pub free_transfers: Map<u32, u32>,
    pub free_transfer_count: Map<(u32, u128), u32>,
    pub events: Seq<Event>,
}

impl TokenState {
    pub open spec fn supply_of(self, id: u32) -> u64 {
        if self.total_supply.contains_key(id) {
            self.total_supply[id]
        } else {
            0
        }
    }

    pub open spec fn balance_of(self, id: u32, who: u128) -> u64 {
        if self.balances.contains_key((id, who)) {
            self.balances[(id, who)]
        } else {
            0
        }
    }

    pub open spec fn allowance_of(self, id: u32, owner: u128, spender: u128) -> u64 {
        if self.allowances.contains_key((id, owner, spender)) {
            self.allowances[(id, owner, spender)]
        } else {
            0
        }
    }

    pub open spec fn free_transfers_of(self, id: u32) -> u32 {
        if self.free_transfers.contains_key(id) {
            self.free_transfers[id]
        } else {
            0
        }
    }

    pub open spec fn free_transfer_count_of(self, id: u32, who: u128) -> u32 {
        if self.free_transfer_count.contains_key((id, who)) {
            self.free_transfer_count[(id, who)]
        } else {
            0
        }
    }

    /// The accounts that have a balance entry for token `id`.
    pub open spec fn holders(self, id: u32) -> Set<u128> {
        Set::new(|a: u128| self.balances.contains_key((id, a)))
    }

    /// The sum of all balances of token `id`.
    pub open spec fn token_sum(self, id: u32) -> int {
        set_sum(self.holders(id), |a: u128| self.balance_of(id, a) as int)
    }

    /// The invariant of the token factory's storage: the balances of each
    /// token add up to its total supply, no account has used more free
    /// transfers than its token grants, and no supply or free-transfer
    /// allowance is recorded for a token that has not been created.
    pub open spec fn wf(self) -> bool {
        &&& self.balances.dom().finite()
        &&& forall|id: u32| #[trigger] self.total_supply.contains_key(id) ==> id < self.count
        &&& forall|id: u32| #[trigger] self.free_transfers.contains_key(id) ==> id < self.count
        &&& forall|id: u32| #[trigger] self.token_sum(id) == self.supply_of(id) as int
        &&& forall|k: (u32, u128)| #[trigger] self.free_transfer_count.contains_key(k)
            ==> self.free_transfer_count[k] <= self.free_transfers_of(k.0)
    }

    /// `post` is `self` after `amount` of token `id` moved from `from` to
    /// `to`: `from` loses it and `to` gains it (no change when they are the
    /// same account), both balance entries are written, a `Transfer` event
    /// is recorded, and neither the configuration, the tokens created, their
    /// supplies nor their free-transfer allowances change.
    pub open spec fn transferred(self, post: Self, id: u32, from: u128, to: u128, amount: u64) -> bool {
        &&& post.balances.dom() == self.balances.dom().insert((id, from)).insert((id, to))
        &&& from != to ==> post.balance_of(id, from) == self.balance_of(id, from) - amount
        &&& from != to ==> post.balance_of(id, to) == self.balance_of(id, to) + amount
        &&& from == to ==> post.balance_of(id, from) == self.balance_of(id, from)
        &&& forall|i: u32, a: u128|
            (i, a) != (id, from) && (i, a) != (id, to) ==> #[trigger] post.balance_of(i, a)
                == self.balance_of(i, a)
        &&& post.events == self.events.push(Event::Transfer(id, from, to, amount))
        &&& post.free_transfer_period == self.free_transfer_period
        &&& post.fund_transfer_fee == self.fund_transfer_fee
        &&& post.count == self.count
        &&& post.total_supply == self.total_supply
        &&& post.free_transfers == self.free_transfers
    }

    /// `self` after the account `creator` created token `self.count` with
    /// the supply `supply`, all of it held by `creator`, granting
    /// `free_transfers` free transfers per period, and paid `deposit` into
    /// its fund.
    pub open spec fn created(self, creator: u128, supply: u64, free_transfers: u32, deposit: u64) -> Self {
        let id = self.count;
        TokenState {
            free_transfer_period: self.free_transfer_period,
            fund_transfer_fee: self.fund_transfer_fee,
            count: (self.count + 1) as u32,
            total_supply: self.total_supply.insert(id, supply),
            balances: self.balances.insert((id, creator), supply),
            allowances: self.allowances,
            free_transfers: self.free_transfers.insert(id, free_transfers),
            free_transfer_count: self.free_transfer_count,
            events: self.events.push(Event::NewToken(id, creator, supply)).push(
                Event::Deposit(id, creator, deposit),
            ),
        }
    }

    /// `self` with the event `e` recorded.
    pub open spec fn with_event(self, e: Event) -> Self {
        TokenState { events: self.events.push(e), ..self }
    }
}

/// The invariant survives any change that leaves the balances, the
/// supplies and the free-transfer allowances as they are and keeps every
/// free-transfer count within its allowance.
pub proof fn lemma_wf_frame(s: TokenState, t: TokenState)
    requires
        s.wf(),
        t.balances == s.balances,
        t.total_supply == s.total_supply,
        t.free_transfers == s.free_transfers,
        t.count == s.count,
        t.free_transfer_count == s.free_transfer_count || forall|k: (u32, u128)|
            #[trigger] t.free_transfer_count.contains_key(k) ==> t.free_transfer_count[k]
                <= t.free_transfers_of(k.0),
    ensures
        t.wf(),
{
    if t.free_transfer_count == s.free_transfer_count {
        assert forall|k: (u32, u128)| #[trigger] t.free_transfer_count.contains_key(k)
            implies t.free_transfer_count[k] <= t.free_transfers_of(k.0) by {
            assert(s.free_transfer_count.contains_key(k));
        }
    }
    lemma_token_sums_agree(s, t);
    assert forall|i: u32| #[trigger] t.token_sum(i) == t.supply_of(i) as int by {
        assert(s.token_sum(i) == s.supply_of(i) as int);
    }
}

/// States with the same balances have the same token sums.
pub proof fn lemma_token_sums_agree(s: TokenState, t: TokenState)
    requires
        t.balances == s.balances,
    ensures
        forall|i: u32| #[trigger] t.token_sum(i) == s.token_sum(i),
{
    assert forall|i: u32| #[trigger] t.token_sum(i) == s.token_sum(i) by {
        assert(t.holders(i) =~= s.holders(i));
        assert((|a: u128| t.balance_of(i, a) as int) =~= (|a: u128| s.balance_of(i, a) as int));
    }
}

/// The accounts holding a token are finitely many.
pub proof fn lemma_holders_finite(s: TokenState, id: u32)
    requires
        s.balances.dom().finite(),
    ensures
        s.holders(id).finite(),
{
    let proj = |k: (u32, u128)| k.1;
    s.balances.dom().lemma_map_finite(proj);
    assert(s.holders(id).subset_of(s.balances.dom().map(proj))) by {
        assert forall|a: u128| s.holders(id).contains(a) implies s.balances.dom().map(proj).contains(a) by {
            assert(s.balances.dom().contains((id, a)));
            assert(proj((id, a)) == a);
        }
    }
    vstd::set_lib::lemma_set_subset_finite(s.balances.dom().map(proj), s.holders(id));
}

/// A balance of a token is at most its total supply, and two distinct
/// accounts' balances together are too.
pub proof fn lemma_balance_bound(s: TokenState, id: u32, x: u128, y: u128)
    requires
        s.wf(),
    ensures
        s.balance_of(id, x) <= s.supply_of(id),
        x != y ==> s.balance_of(id, x) + s.balance_of(id, y) <= s.supply_of(id),
{
    lemma_holders_finite(s, id);
    let f = |a: u128| s.balance_of(id, a) as int;
    assert(s.token_sum(id) == s.supply_of(id) as int);
    if s.holders(id).contains(x) {
        lemma_set_sum_pair_bound(s.holders(id), f, x, y);
        if !s.holders(id).contains(y) {
            assert(s.balance_of(id, y) == 0);
        }
    } else {
        assert(s.balance_of(id, x) == 0);
        lemma_set_sum_nonneg(s.holders(id), f);
        if s.holders(id).contains(y) {
            lemma_set_sum_pair_bound(s.holders(id), f, y, x);
        } else {
            assert(s.balance_of(id, y) == 0);
        }
    }
}

/// Writing one balance entry changes the sum of that token by the
/// difference and leaves the sums of the other tokens as they were.
pub proof fn lemma_token_sum_update(s: TokenState, t: TokenState, id: u32, who: u128, v: u64)
    requires
        s.balances.dom().finite(),
        t.balances == s.balances.insert((id, who), v),
    ensures
        t.balances.dom().finite(),
        t.token_sum(id) == s.token_sum(id) - s.balance_of(id, who) + v,
        forall|i: u32| i != id ==> #[trigger] t.token_sum(i) == s.token_sum(i),
{
    lemma_holders_finite(s, id);
    let f = |a: u128| s.balance_of(id, a) as int;
    let g = |a: u128| t.balance_of(id, a) as int;
    if s.holders(id).contains(who) {
        assert(t.holders(id) =~= s.holders(id));
        lemma_set_sum_update(s.holders(id), f, g, who);
    } else {
        assert(t.holders(id) =~= s.holders(id).insert(who));
        lemma_set_sum_ext(s.holders(id), f, g);
        lemma_set_sum_insert(s.holders(id), g, who);
        assert(s.balance_of(id, who) == 0);
    }
    assert forall|i: u32| i != id implies #[trigger] t.token_sum(i) == s.token_sum(i) by {
        assert(t.holders(i) =~= s.holders(i));
        lemma_holders_finite(s, i);
        lemma_set_sum_ext(
            s.holders(i),
            |a: u128| s.balance_of(i, a) as int,
            |a: u128| t.balance_of(i, a) as int,
        );
    }
}

} // verus!
