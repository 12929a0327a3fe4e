//! Properties of the token factory that hold across its calls.
use crate::account::spec_fund_account_id;
use crate::currency::{free_of, Currency, ExistenceRequirement, SimpleBalances, WithdrawReason};
use crate::state::{lemma_balance_bound, TokenState};
use vstd::prelude::*;

verus! {

/// In a well-formed state no account holds more of a token than its total
/// supply, and no two accounts together do.
pub proof fn balance_within_supply(s: TokenState, id: u32, a: u128, b: u128)
    requires
        s.wf(),
    ensures
        s.balance_of(id, a) <= s.supply_of(id),
        a != b ==> s.balance_of(id, a) + s.balance_of(id, b) <= s.supply_of(id),
{
    lemma_balance_bound(s, id, a, b);
}

/// In a well-formed state no account has made more free transfers of a
/// token in the current period than the token grants.
pub proof fn free_transfer_count_within_limit(s: TokenState, id: u32, who: u128)
    requires
        s.wf(),
    ensures
        s.free_transfer_count_of(id, who) <= s.free_transfers_of(id),
{
    if s.free_transfer_count.contains_key((id, who)) {
        assert(s.free_transfer_count[(id, who)] <= s.free_transfers_of((id, who).0));
    }
}

/// A token that does not exist yet has no supply and no holder with a
/// positive balance.
pub proof fn uncreated_token_is_empty(s: TokenState, id: u32, who: u128)
    requires
        s.wf(),
        id >= s.count,
    ensures
        s.supply_of(id) == 0,
        s.balance_of(id, who) == 0,
        s.free_transfers_of(id) == 0,
{
    lemma_balance_bound(s, id, who, who);
}

/// Different tokens have different fund accounts.
pub proof fn fund_accounts_distinct(a: u32, b: u32)
    requires
        a != b,
    ensures
        spec_fund_account_id(a) != spec_fund_account_id(b),
{
    assert(0x646e75666e696f636c646f6dnat < 0x1_0000_0000_0000_0000_0000_0000nat);
    if a < b {
        assert(a * 0x1_0000_0000_0000_0000_0000_0000nat + 0x1_0000_0000_0000_0000_0000_0000nat
            <= b * 0x1_0000_0000_0000_0000_0000_0000nat) by (nonlinear_arith)
            requires
                a < b,
        ;
    } else {
        assert(b * 0x1_0000_0000_0000_0000_0000_0000nat + 0x1_0000_0000_0000_0000_0000_0000nat
            <= a * 0x1_0000_0000_0000_0000_0000_0000nat) by (nonlinear_arith)
            requires
                b < a,
        ;
    }
}

/// A transfer between two accounts leaves their combined holding, and every
/// token's total supply, as they were.
pub proof fn transfer_conserves_holdings(
    s: TokenState,
    t: TokenState,
    id: u32,
    from: u128,
    to: u128,
    amount: u64,
)
    requires
        s.balance_of(id, from) >= amount,
        s.transferred(t, id, from, to, amount),
    ensures
        t.balance_of(id, from) + t.balance_of(id, to) == s.balance_of(id, from) + s.balance_of(id, to),
        forall|i: u32| #[trigger] t.supply_of(i) == s.supply_of(i),
{
}

/// A newly created token is held entirely by its creator: the creator's
/// balance is the total supply and every other account holds none of it.
pub proof fn new_token_held_by_creator(
    s: TokenState,
    creator: u128,
    supply: u64,
    free_transfers: u32,
    deposit: u64,
    other: u128,
)
    requires
        s.wf(),
        s.count < u32::MAX,
    ensures
        s.created(creator, supply, free_transfers, deposit).balance_of(s.count, creator) == supply,
        s.created(creator, supply, free_transfers, deposit).supply_of(s.count) == supply,
        other != creator ==> s.created(creator, supply, free_transfers, deposit).balance_of(s.count, other) == 0,
        s.created(creator, supply, free_transfers, deposit).count == s.count + 1,
{
    lemma_balance_bound(s, s.count, other, other);
}

/// A withdrawal from the in-memory currency succeeds exactly when the
/// account holds at least the amount, whatever the reason and whatever the
/// existence requirement; a successful one hands out exactly the amount and
/// takes exactly the amount from that account alone, and a refused one
/// changes nothing.
pub proof fn withdrawal_takes_exactly_what_is_covered(
    pre: SimpleBalances,
    post: SimpleBalances,
    who: u128,
    value: u64,
    reason: WithdrawReason,
    liveness: ExistenceRequirement,
    r: Result<u64, &'static str>,
)
    requires
        SimpleBalances::withdraw_post(pre, post, who, value, reason, liveness, r),
    ensures
        r is Ok <==> free_of(pre@, who) >= value,
        r is Ok ==> r == Ok::<u64, &'static str>(value),
        r is Ok ==> free_of(post@, who) + value == free_of(pre@, who),
        r is Ok ==> forall|a: u128| a != who ==> #[trigger] free_of(post@, a) == free_of(pre@, a),
        r is Err ==> post@ == pre@,
{
}

/// A transfer in the in-memory currency succeeds exactly when the sender
/// holds at least the amount and the receiver's balance would not overflow;
/// a successful one between two accounts moves exactly the amount from the
/// sender to the receiver and touches no other account, one to oneself
/// changes nothing, and a refused one changes nothing.
pub proof fn transfer_moves_exactly_what_is_covered(
    pre: SimpleBalances,
    post: SimpleBalances,
    from: u128,
    to: u128,
    value: u64,
    r: Result<(), &'static str>,
)
    requires
        SimpleBalances::transfer_post(pre, post, from, to, value, r),
    ensures
        r is Ok <==> (free_of(pre@, from) >= value && free_of(pre@, to) + value <= u64::MAX),
        r is Ok && from != to ==> free_of(post@, from) + value == free_of(pre@, from),
        r is Ok && from != to ==> free_of(post@, to) == free_of(pre@, to) + value,
        r is Ok ==> forall|a: u128| a != from && a != to ==> #[trigger] free_of(post@, a) == free_of(pre@, a),
        r is Ok && from == to ==> post@ == pre@,
        r is Err ==> post@ == pre@,
{
}

/// Crediting withdrawn funds in the in-memory currency adds them to the
/// receiver, up to the largest balance, and touches no other account.
pub proof fn crediting_adds_the_imbalance(pre: SimpleBalances, post: SimpleBalances, who: u128, imbalance: u64)
    requires
        SimpleBalances::resolve_creating_post(pre, post, who, imbalance),
    ensures
        free_of(pre@, who) + imbalance <= u64::MAX ==> free_of(post@, who) == free_of(pre@, who) + imbalance,
        free_of(pre@, who) + imbalance > u64::MAX ==> free_of(post@, who) == u64::MAX,
        forall|a: u128| a != who ==> #[trigger] free_of(post@, a) == free_of(pre@, a),
{
}

/// With the in-memory currency, creating a token succeeds once the id is
/// free and the creator's free balance covers the deposit: whatever
/// outcome `create_token` promises for the currency's answer, that answer
/// is a success that took exactly the deposit from the creator.
pub proof fn covered_creation_succeeds(
    pre: SimpleBalances,
    mid: SimpleBalances,
    sender: u128,
    deposit: u64,
    w: Result<u64, &'static str>,
    r: Result<(), &'static str>,
)
    requires
        SimpleBalances::withdraw_post(pre, mid, sender, deposit, WithdrawReason::Transfer, ExistenceRequirement::KeepAlive, w),
        match w {
            Err(e) => r == Err::<(), &'static str>(e),
            Ok(_) => r == Ok::<(), &'static str>(()),
        },
        free_of(pre@, sender) >= deposit,
    ensures
        r == Ok::<(), &'static str>(()),
        w == Ok::<u64, &'static str>(deposit),
        free_of(mid@, sender) + deposit == free_of(pre@, sender),
{
    withdrawal_takes_exactly_what_is_covered(pre, mid, sender, deposit, WithdrawReason::Transfer, ExistenceRequirement::KeepAlive, w);
}

/// With the in-memory currency, a free transfer is refused, leaving the
/// currency as it was, when the token's fund holds less than the fee.
pub proof fn short_fund_refuses_free_transfer(
    pre: SimpleBalances,
    mid: SimpleBalances,
    id: u32,
    fee: u64,
    w: Result<u64, &'static str>,
    r: Result<(), &'static str>,
)
    requires
        SimpleBalances::withdraw_post(pre, mid, spec_fund_account_id(id), fee, WithdrawReason::Transfer, ExistenceRequirement::AllowDeath, w),
        match w {
            Err(e) => r == Err::<(), &'static str>(e),
            Ok(_) => r == Ok::<(), &'static str>(()),
        },
        free_of(pre@, spec_fund_account_id(id)) < fee,
    ensures
        r is Err,
        mid@ == pre@,
{
    withdrawal_takes_exactly_what_is_covered(pre, mid, spec_fund_account_id(id), fee, WithdrawReason::Transfer, ExistenceRequirement::AllowDeath, w);
}

/// With the in-memory currency, a deposit into an existing token's fund
/// succeeds once the payer's free balance covers it and the fund's balance
/// would not overflow, and moves exactly the amount into the fund.
pub proof fn covered_deposit_succeeds(
    pre: SimpleBalances,
    mid: SimpleBalances,
    who: u128,
    token_id: u32,
    value: u64,
    w: Result<(), &'static str>,
    r: Result<(), &'static str>,
)
    requires
        SimpleBalances::transfer_post(pre, mid, who, spec_fund_account_id(token_id), value, w),
        match w {
            Err(e) => r == Err::<(), &'static str>(e),
            Ok(_) => r == Ok::<(), &'static str>(()),
        },
        free_of(pre@, who) >= value,
        free_of(pre@, spec_fund_account_id(token_id)) + value <= u64::MAX,
    ensures
        r == Ok::<(), &'static str>(()),
        who != spec_fund_account_id(token_id) ==> free_of(mid@, who) + value == free_of(pre@, who),
        who != spec_fund_account_id(token_id) ==> free_of(mid@, spec_fund_account_id(token_id))
            == free_of(pre@, spec_fund_account_id(token_id)) + value,
{
    transfer_moves_exactly_what_is_covered(pre, mid, who, spec_fund_account_id(token_id), value, w);
}

} // verus!
