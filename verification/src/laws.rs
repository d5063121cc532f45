//! Laws relating the operations of the two ledgers, stated over the
//! view-level transition functions and proved once and for all.
//!
//! The per-operation contracts in `token` and `vault` pin each
//! operation's exact effect and failure; the lemmas here state the
//! cross-operation consequences: conservation of value, the
//! once-only setup boundary, the faucet cooldown window, the savings
//! lock threshold, and allowance accounting.

use vstd::prelude::*;

use crate::token::CLAIM_COOLDOWN;
use crate::token::TokenView;
use crate::token::approve_effect;
use crate::token::claim_faucet_effect;
use crate::token::faucet_ready;
use crate::token::initialize_effect;
use crate::token::initialize_ok;
use crate::token::transfer_effect;
use crate::token::transfer_from_effect;
use crate::token::transfer_from_ok;
use crate::vault::DAY_IN_LEDGERS;
use crate::vault::YEAR_IN_LEDGERS;
use crate::vault::VaultView;
use crate::vault::deposit_effect;
use crate::vault::save_effect;
use crate::vault::unlock_threshold;
use crate::vault::unsave_effect;
use crate::vault::unsave_ok;
use crate::vault::vault_initialize_effect;
use crate::vault::vault_total;
use crate::vault::vault_transfer_effect;
use crate::vault::withdraw_effect;

verus! {

/// A transfer conserves value: the supply is untouched, the moved
/// amount leaves `from` and arrives at `to` exactly, and no other
/// account changes.
pub proof fn lemma_transfer_conserves_value(s: TokenView, from: u64, to: u64, amount: int)
    ensures
        transfer_effect(s, from, to, amount).supply == s.supply,
        from != to ==> transfer_effect(s, from, to, amount).balances[from]
            == s.balances[from] - amount,
        from != to ==> transfer_effect(s, from, to, amount).balances[to]
            == s.balances[to] + amount,
        from == to ==> transfer_effect(s, from, to, amount).balances[from] == s.balances[from],
        forall|u: u64| u != from && u != to
            ==> transfer_effect(s, from, to, amount).balances[u] == s.balances[u],
{
}

/// Setup is callable exactly once: after a successful `initialize`
/// of the token ledger, a second `initialize` fails whatever its
/// arguments.
pub proof fn lemma_initialize_once(
    s: TokenView,
    admin: u64,
    name: Seq<char>,
    symbol: Seq<char>,
    decimals: u32,
    first_supply: int,
    second_supply: int,
)
    ensures
        !initialize_ok(
            initialize_effect(s, admin, name, symbol, decimals, first_supply),
            second_supply,
        ),
{
}

/// Setup is callable exactly once: after a successful `initialize`
/// of the vault, the admin slot is occupied, which is exactly the
/// condition under which a second `initialize` fails.
pub proof fn lemma_vault_initialize_once(
    s: VaultView,
    admin: u64,
    token_contract: u64,
)
    ensures
        vault_initialize_effect(s, admin, token_contract).admin is Some,
{
}

/// The faucet cooldown is a half-open window: after a claim at time
/// `t`, the faucet is not ready at any time in `[t, t + CLAIM_COOLDOWN)`
/// and is ready again from `t + CLAIM_COOLDOWN` on.
pub proof fn lemma_faucet_cooldown(s: TokenView, claimer: u64, t: u64, now: u64)
    ensures
        ((t as int) <= (now as int) && (now as int) < (t as int) + CLAIM_COOLDOWN)
            ==> !faucet_ready(claim_faucet_effect(s, claimer, t), claimer, now),
        ((now as int) >= (t as int) + CLAIM_COOLDOWN)
            ==> faucet_ready(claim_faucet_effect(s, claimer, t), claimer, now),
{
    assert(claim_faucet_effect(s, claimer, t).claims[claimer] == t);
}

/// Locking writes one absolute threshold: a save over
/// `lock_duration_days` at sequence `seq` sets the unlock threshold
/// to exactly `seq + lock_duration_days * DAY_IN_LEDGERS`, and a
/// savings withdrawal fails before that threshold and is accepted
/// from it on (given a positive amount within the savings balance).
pub proof fn lemma_save_lock(
    s: VaultView,
    user: u64,
    amount: int,
    lock_duration_days: u32,
    seq: u64,
    later_seq: u64,
    later_amount: int,
)
    requires
        seq <= u64::MAX - YEAR_IN_LEDGERS,
        1 <= lock_duration_days <= 365,
    ensures
        save_effect(s, user, amount, lock_duration_days, seq).unlocks[user] as int
            == unlock_threshold(seq, lock_duration_days),
        later_seq < unlock_threshold(seq, lock_duration_days)
            ==> !unsave_ok(
                save_effect(s, user, amount, lock_duration_days, seq),
                user,
                later_amount,
                later_seq,
            ),
        later_seq >= unlock_threshold(seq, lock_duration_days)
            && later_amount > 0
            && save_effect(s, user, amount, lock_duration_days, seq).savings[user] >= later_amount
            ==> unsave_ok(
                save_effect(s, user, amount, lock_duration_days, seq),
                user,
                later_amount,
                later_seq,
            ),
{
    assert(lock_duration_days as int * DAY_IN_LEDGERS as int <= YEAR_IN_LEDGERS as int)
        by (nonlinear_arith)
        requires 1 <= lock_duration_days <= 365;
    assert(0 <= unlock_threshold(seq, lock_duration_days) <= u64::MAX);
}

/// Allowance accounting: an approval of `granted` followed by a
/// delegated transfer of `spent` leaves an allowance of exactly
/// `granted - spent` and moves `spent` from the owner to the
/// recipient.
pub proof fn lemma_allowance_accounting(
    s: TokenView,
    owner: u64,
    spender: u64,
    recipient: u64,
    granted: int,
    spent: int,
)
    requires
        0 <= spent <= granted,
        s.balances[owner] >= spent,
    ensures
        transfer_from_ok(approve_effect(s, owner, spender, granted), spender, owner, spent),
        transfer_from_effect(
            approve_effect(s, owner, spender, granted), spender, owner, recipient, spent,
        ).allowances[(owner, spender)] == granted - spent,
        owner != recipient ==> transfer_from_effect(
            approve_effect(s, owner, spender, granted), spender, owner, recipient, spent,
        ).balances[owner] == s.balances[owner] - spent,
        owner != recipient ==> transfer_from_effect(
            approve_effect(s, owner, spender, granted), spender, owner, recipient, spent,
        ).balances[recipient] == s.balances[recipient] + spent,
{
}

/// Conservation across deposit and withdraw: a deposit of `put`
/// followed by a withdrawal of `taken` leaves the user's custodial
/// balance, and the vault's own ledger account, changed by exactly
/// the net amount retained.
pub proof fn lemma_deposit_withdraw_net(
    v: VaultView,
    t: TokenView,
    user: u64,
    put: int,
    taken: int,
)
    requires
        user != v.vault_address,
    ensures
        withdraw_effect(deposit_effect(v, user, put), user, taken).balances[user]
            == v.balances[user] + put - taken,
        transfer_effect(
            transfer_effect(t, user, v.vault_address, put), v.vault_address, user, taken,
        ).balances[v.vault_address] == t.balances[v.vault_address] + put - taken,
        transfer_effect(
            transfer_effect(t, user, v.vault_address, put), v.vault_address, user, taken,
        ).balances[user] == t.balances[user] - put + taken,
{
}

/// Saving never destroys value: moving liquid value into savings
/// leaves every user's combined holding exactly as it was.
pub proof fn lemma_save_preserves_total(
    s: VaultView,
    user: u64,
    amount: int,
    lock_duration_days: u32,
    seq: u64,
)
    ensures
        forall|u: u64| vault_total(save_effect(s, user, amount, lock_duration_days, seq), u)
            == vault_total(s, u),
{
}

/// Releasing savings never destroys value: moving matured savings
/// back to the liquid balance leaves every user's combined holding
/// exactly as it was.
pub proof fn lemma_unsave_preserves_total(s: VaultView, user: u64, amount: int)
    ensures
        forall|u: u64| vault_total(unsave_effect(s, user, amount), u) == vault_total(s, u),
{
}

/// A deposit only ever grows combined holdings: the depositing
/// user's total grows by the amount and nobody else's changes.
pub proof fn lemma_deposit_grows_total(s: VaultView, user: u64, amount: int)
    ensures
        vault_total(deposit_effect(s, user, amount), user) == vault_total(s, user) + amount,
        forall|u: u64| u != user
            ==> vault_total(deposit_effect(s, user, amount), u) == vault_total(s, u),
{
}

/// A vault-internal transfer reassigns value without destroying it:
/// the two parties' combined holdings together are unchanged, and
/// every other user's holding is untouched.
pub proof fn lemma_vault_transfer_reassigns(s: VaultView, from: u64, to: u64, amount: int)
    requires
        from != to,
    ensures
        vault_total(vault_transfer_effect(s, from, to, amount), from)
            == vault_total(s, from) - amount,
        vault_total(vault_transfer_effect(s, from, to, amount), to)
            == vault_total(s, to) + amount,
        forall|u: u64| u != from && u != to
            ==> vault_total(vault_transfer_effect(s, from, to, amount), u) == vault_total(s, u),
{
}

} // verus!
