//! The token ledger: balances, delegated allowances, and a
//! rate-limited faucet for one fungible asset.
//!
//! The host proves, before any of these operations runs, that the
//! caller holds authority for the named party (`from`, `claimer`, the
//! admin at setup); the ledger itself re-checks only what is stored
//! state, namely that `mint` is invoked as the stored admin.  The
//! clock is the host's wall-clock oracle and is handed in as the
//! `now` argument of the faucet operations.
//!
//! The central invariant, kept by every operation: the total supply
//! equals the sum of all account balances, and every stored quantity
//! is non-negative.  An operation that would break this fails whole,
//! with no partial mutation.

use vstd::prelude::*;

use crate::errors::Error;
use crate::store::IntMap;
use crate::store::PairMap;
use crate::store::TimeMap;

verus! {

/// Fixed credit of one faucet claim: 100 tokens at 6 decimals.
pub const FAUCET_AMOUNT: i128 = 100_000_000;

/// Wall-clock time units a claimer must wait between faucet claims.
pub const CLAIM_COOLDOWN: u64 = 86400;

/// Immutable token metadata, set once at initialization.
pub struct TokenInfo {
    pub name: String,
    pub symbol: String,
    pub decimals: u32,
}

/// Mathematical image of the metadata.
#[verifier::ext_equal]
pub struct TokenInfoView {
    pub name: Seq<char>,
    pub symbol: Seq<char>,
    pub decimals: u32,
}

/// Mathematical state of the token ledger.  Balance, allowance and
/// claim maps are total: an account never written reads as 0.
#[verifier::ext_equal]
pub struct TokenView {
    pub admin: Option<u64>,
    pub info: Option<TokenInfoView>,
    pub supply: int,
    pub balances: Map<u64, int>,
    pub allowances: Map<(u64, u64), int>,
    pub claims: Map<u64, u64>,
}

/// A fresh, not yet initialized ledger.
pub open spec fn token_init_state() -> TokenView {
    TokenView {
        admin: None,
        info: None,
        supply: 0,
        balances: Map::total(|k: u64| 0int),
        allowances: Map::total(|k: (u64, u64)| 0int),
        claims: Map::total(|k: u64| 0u64),
    }
}

/// `initialize` succeeds exactly on these inputs.
pub open spec fn initialize_ok(s: TokenView, initial_supply: int) -> bool {
    s.admin is None && initial_supply >= 0
}

/// State after a successful `initialize`.
pub open spec fn initialize_effect(
    s: TokenView,
    admin: u64,
    name: Seq<char>,
    symbol: Seq<char>,
    decimals: u32,
    initial_supply: int,
) -> TokenView {
    TokenView {
        admin: Some(admin),
        info: Some(TokenInfoView { name, symbol, decimals }),
        supply: initial_supply,
        balances: s.balances.insert(admin, initial_supply),
        ..s
    }
}

/// `transfer` succeeds exactly on these inputs.
pub open spec fn transfer_ok(s: TokenView, from: u64, amount: int) -> bool {
    amount >= 0 && s.balances[from] >= amount
}

/// State after a successful `transfer`: `from` debited, `to` credited.
pub open spec fn transfer_effect(s: TokenView, from: u64, to: u64, amount: int) -> TokenView {
    let debited = s.balances.insert(from, s.balances[from] - amount);
    TokenView { balances: debited.insert(to, debited[to] + amount), ..s }
}

/// State after a successful `approve`: the allowance is overwritten,
/// not adjusted.
pub open spec fn approve_effect(s: TokenView, from: u64, spender: u64, amount: int) -> TokenView {
    TokenView { allowances: s.allowances.insert((from, spender), amount), ..s }
}

/// `transfer_from` succeeds exactly on these inputs.
pub open spec fn transfer_from_ok(s: TokenView, spender: u64, from: u64, amount: int) -> bool {
    amount >= 0 && s.allowances[(from, spender)] >= amount && s.balances[from] >= amount
}

/// State after a successful `transfer_from`: the allowance shrinks by
/// the amount moved.
pub open spec fn transfer_from_effect(
    s: TokenView,
    spender: u64,
    from: u64,
    to: u64,
    amount: int,
) -> TokenView {
    let spent = TokenView {
        allowances: s.allowances.insert((from, spender), s.allowances[(from, spender)] - amount),
        ..s
    };
    transfer_effect(spent, from, to, amount)
}

/// `mint` succeeds exactly on these inputs.
pub open spec fn mint_ok(s: TokenView, caller: u64, amount: int) -> bool {
    s.admin == Some(caller) && amount >= 0 && s.supply + amount <= i128::MAX
}

/// State after a successful `mint`: supply and recipient grow together.
pub open spec fn mint_effect(s: TokenView, to: u64, amount: int) -> TokenView {
    TokenView {
        supply: s.supply + amount,
        balances: s.balances.insert(to, s.balances[to] + amount),
        ..s
    }
}

/// The cooldown has elapsed for `user` at wall-clock time `now`.
pub open spec fn faucet_ready(s: TokenView, user: u64, now: u64) -> bool {
    now as int >= s.claims[user] as int + CLAIM_COOLDOWN
}

/// `claim_faucet` succeeds exactly on these inputs.
pub open spec fn claim_faucet_ok(s: TokenView, claimer: u64, now: u64) -> bool {
    s.admin is Some && faucet_ready(s, claimer, now) && s.supply + FAUCET_AMOUNT <= i128::MAX
}

/// State after a successful `claim_faucet`: the claim time is reset
/// to `now` and the fixed faucet amount is minted to the claimer.
pub open spec fn claim_faucet_effect(s: TokenView, claimer: u64, now: u64) -> TokenView {
    TokenView {
        claims: s.claims.insert(claimer, now),
        supply: s.supply + FAUCET_AMOUNT,
        balances: s.balances.insert(claimer, s.balances[claimer] + FAUCET_AMOUNT),
        ..s
    }
}

/// The token ledger for one fungible asset.
pub struct SenteToken {
    admin: Option<u64>,
    info: Option<TokenInfo>,
    supply: i128,
    balances: IntMap,
    allowances: PairMap,
    claims: TimeMap,
}

impl View for SenteToken {
    type V = TokenView;

    closed spec fn view(&self) -> TokenView {
        TokenView {
            admin: self.admin,
            info: match self.info {
                Some(i) => Some(
                    TokenInfoView { name: i.name@, symbol: i.symbol@, decimals: i.decimals },
                ),
                None => None,
            },
            supply: self.supply as int,
            balances: self.balances@,
            allowances: self.allowances@,
            claims: self.claims@,
        }
    }
}

impl SenteToken {
    /// Well-formedness: non-negative quantities everywhere, the
    /// supply equal to the sum of all balances, and no value in
    /// circulation before initialization.
    pub closed spec fn wf(&self) -> bool {
        &&& self.balances.wf()
        &&& self.allowances.wf()
        &&& self.claims.wf()
        &&& self.supply >= 0
        &&& self.supply as int == self.balances.sum()
        &&& (self.admin is None ==> self.supply == 0)
        &&& (self.admin is Some <==> self.info is Some)
    }

    /// The sum of every account balance the ledger holds.
    pub closed spec fn balances_sum(&self) -> int {
        self.balances.sum()
    }

    /// The supply invariant: in every well-formed ledger state the
    /// total supply equals the sum of all account balances.  Every
    /// operation requires and re-establishes well-formedness, so this
    /// holds in every reachable state.
    pub proof fn lemma_supply_is_balance_sum(&self)
        requires
            self.wf(),
        ensures
            self@.supply == self.balances_sum(),
            self@.supply >= 0,
    {
    }

    /// Supply conservation, as seen from outside: no single balance
    /// of a well-formed ledger exceeds the total supply.
    pub proof fn lemma_balance_bounds(&self, account: u64)
        requires
            self.wf(),
        ensures
            0 <= self@.balances[account],
            self@.balances[account] <= self@.supply,
    {
        self.balances.lemma_le_sum(account);
    }

    /// Two distinct accounts of a well-formed ledger never hold more,
    /// together, than the total supply.
    pub proof fn lemma_two_balances_bound(&self, a: u64, b: u64)
        requires
            self.wf(),
            a != b,
        ensures
            self@.balances[a] + self@.balances[b] <= self@.supply,
    {
        self.balances.lemma_two_le_sum(a, b);
    }

    /// Allowances of a well-formed ledger are non-negative.
    pub proof fn lemma_allowance_nonneg(&self, owner: u64, spender: u64)
        requires
            self.wf(),
        ensures
            self@.allowances[(owner, spender)] >= 0,
    {
        self.allowances.lemma_nonneg(owner, spender);
    }

    /// A fresh ledger: no admin, no metadata, zero supply, all
    /// balances, allowances and claim times zero.
    pub fn new() -> (r: SenteToken)
        ensures
            r.wf(),
            r@ == token_init_state(),
    {
        let r = SenteToken {
            admin: None,
            info: None,
            supply: 0,
            balances: IntMap::new(),
            allowances: PairMap::new(),
            claims: TimeMap::new(),
        };
        proof {
            assert(r@ =~= token_init_state());
        }
        r
    }

    /// One-time setup: records the admin and the metadata and credits
    /// the whole initial supply to the admin.  Fails with
    /// `AlreadyInitialized` on every later call, whatever the
    /// arguments, and rejects a negative initial supply.
    pub fn initialize(
        &mut self,
        admin: u64,
        name: String,
        symbol: String,
        decimals: u32,
        initial_supply: i128,
    ) -> (r: Result<(), Error>)
        requires
            old(self).wf(),
        ensures
            final(self).wf(),
            match r {
                Ok(()) => initialize_ok(old(self)@, initial_supply as int)
                    && final(self)@ == initialize_effect(
                        old(self)@, admin, name@, symbol@, decimals, initial_supply as int,
                    ),
                Err(e) => *final(self) == *old(self)
                    && !initialize_ok(old(self)@, initial_supply as int)
                    && e == (if old(self)@.admin is Some {
                        Error::AlreadyInitialized
                    } else {
                        Error::InvalidAmount
                    }),
            },
    {
        if self.admin.is_some() {
            return Err(Error::AlreadyInitialized);
        }
        if initial_supply < 0 {
            return Err(Error::InvalidAmount);
        }
        proof {
            self.balances.lemma_le_sum(admin);
        }
        self.admin = Some(admin);
        self.info = Some(TokenInfo { name, symbol, decimals });
        self.supply = initial_supply;
        self.balances.set(admin, initial_supply);
        proof {
            assert(self@ =~= initialize_effect(
                old(self)@, admin, name@, symbol@, decimals, initial_supply as int,
            ));
        }
        Ok(())
    }

    /// Token name; fails before initialization.
    pub fn name(&self) -> (r: Result<&String, Error>)
        ensures
            match r {
                Ok(n) => self@.info is Some && n@ == self@.info.unwrap().name,
                Err(e) => self@.info is None && e == Error::NotInitialized,
            },
    {
        match &self.info {
            Some(i) => Ok(&i.name),
            None => Err(Error::NotInitialized),
        }
    }

    /// Token symbol; fails before initialization.
    pub fn symbol(&self) -> (r: Result<&String, Error>)
        ensures
            match r {
                Ok(sym) => self@.info is Some && sym@ == self@.info.unwrap().symbol,
                Err(e) => self@.info is None && e == Error::NotInitialized,
            },
    {
        match &self.info {
            Some(i) => Ok(&i.symbol),
            None => Err(Error::NotInitialized),
        }
    }

    /// Token decimals; fails before initialization.
    pub fn decimals(&self) -> (r: Result<u32, Error>)
        ensures
            match r {
                Ok(d) => self@.info is Some && d == self@.info.unwrap().decimals,
                Err(e) => self@.info is None && e == Error::NotInitialized,
            },
    {
        match &self.info {
            Some(i) => Ok(i.decimals),
            None => Err(Error::NotInitialized),
        }
    }

    /// Total supply; 0 before initialization.
    pub fn total_supply(&self) -> (r: i128)
        ensures
            r as int == self@.supply,
    {
        self.supply
    }

    /// Balance of an account; an account never credited reads as 0.
    pub fn balance(&self, account: u64) -> (r: i128)
        requires
            self.wf(),
        ensures
            r as int == self@.balances[account],
            r >= 0,
    {
        self.balances.get(account)
    }

    /// Remaining amount `spender` may move out of `from`'s balance.
    pub fn allowance(&self, from: u64, spender: u64) -> (r: i128)
        requires
            self.wf(),
        ensures
            r as int == self@.allowances[(from, spender)],
            r >= 0,
    {
        self.allowances.get(from, spender)
    }

    /// Moves `amount` from `from` to `to`.  The host has proven
    /// `from`'s authorization before this call.
    pub fn transfer(&mut self, from: u64, to: u64, amount: i128) -> (r: Result<(), Error>)
        requires
            old(self).wf(),
        ensures
            final(self).wf(),
            match r {
                Ok(()) => transfer_ok(old(self)@, from, amount as int)
                    && final(self)@ == transfer_effect(old(self)@, from, to, amount as int),
                Err(e) => *final(self) == *old(self)
                    && !transfer_ok(old(self)@, from, amount as int)
                    && e == (if amount < 0 {
                        Error::InvalidAmount
                    } else {
                        Error::InsufficientBalance
                    }),
            },
    {
        if amount < 0 {
            return Err(Error::InvalidAmount);
        }
        let from_balance = self.balances.get(from);
        if from_balance < amount {
            return Err(Error::InsufficientBalance);
        }
        proof {
            if from != to {
                self.balances.lemma_two_le_sum(from, to);
            }
        }
        self.balances.set(from, from_balance - amount);
        let to_balance = self.balances.get(to);
        self.balances.set(to, to_balance + amount);
        proof {
            assert(self@ =~= transfer_effect(old(self)@, from, to, amount as int));
        }
        Ok(())
    }

    /// Sets the allowance of `(from, spender)` to `amount` outright;
    /// an absolute overwrite, not an adjustment.  The host has proven
    /// `from`'s authorization before this call.
    pub fn approve(&mut self, from: u64, spender: u64, amount: i128) -> (r: Result<(), Error>)
        requires
            old(self).wf(),
        ensures
            final(self).wf(),
            match r {
                Ok(()) => amount >= 0
                    && final(self)@ == approve_effect(old(self)@, from, spender, amount as int),
                Err(e) => *final(self) == *old(self)
                    && amount < 0
                    && e == Error::InvalidAmount,
            },
    {
        if amount < 0 {
            return Err(Error::InvalidAmount);
        }
        self.allowances.set(from, spender, amount);
        proof {
            assert(self@ =~= approve_effect(old(self)@, from, spender, amount as int));
        }
        Ok(())
    }

    /// Moves `amount` from `from` to `to` on behalf of `spender`,
    /// consuming that much of the allowance.  The host has proven
    /// `spender`'s authorization before this call.
    pub fn transfer_from(
        &mut self,
        spender: u64,
        from: u64,
        to: u64,
        amount: i128,
    ) -> (r: Result<(), Error>)
        requires
            old(self).wf(),
        ensures
            final(self).wf(),
            match r {
                Ok(()) => transfer_from_ok(old(self)@, spender, from, amount as int)
                    && final(self)@ == transfer_from_effect(
                        old(self)@, spender, from, to, amount as int,
                    ),
                Err(e) => *final(self) == *old(self)
                    && !transfer_from_ok(old(self)@, spender, from, amount as int)
                    && e == (if amount < 0 {
                        Error::InvalidAmount
                    } else if old(self)@.allowances[(from, spender)] < amount as int {
                        Error::InsufficientAllowance
                    } else {
                        Error::InsufficientBalance
                    }),
            },
    {
        if amount < 0 {
            return Err(Error::InvalidAmount);
        }
        let allowance = self.allowances.get(from, spender);
        if allowance < amount {
            return Err(Error::InsufficientAllowance);
        }
        let from_balance = self.balances.get(from);
        if from_balance < amount {
            return Err(Error::InsufficientBalance);
        }
        proof {
            if from != to {
                self.balances.lemma_two_le_sum(from, to);
            }
        }
        self.allowances.set(from, spender, allowance - amount);
        self.balances.set(from, from_balance - amount);
        let to_balance = self.balances.get(to);
        self.balances.set(to, to_balance + amount);
        proof {
            assert(self@ =~= transfer_from_effect(old(self)@, spender, from, to, amount as int));
        }
        Ok(())
    }

    /// Mints `amount` new tokens to `to`.  Reserved for the stored
    /// admin: the host has proven `caller`'s authorization, and the
    /// ledger checks that `caller` is the admin.
    pub fn mint(&mut self, caller: u64, to: u64, amount: i128) -> (r: Result<(), Error>)
        requires
            old(self).wf(),
        ensures
            final(self).wf(),
            match r {
                Ok(()) => mint_ok(old(self)@, caller, amount as int)
                    && final(self)@ == mint_effect(old(self)@, to, amount as int),
                Err(e) => *final(self) == *old(self)
                    && !mint_ok(old(self)@, caller, amount as int)
                    && e == (if old(self)@.admin is None {
                        Error::NotInitialized
                    } else if old(self)@.admin != Some(caller) {
                        Error::Unauthorized
                    } else {
                        Error::InvalidAmount
                    }),
            },
    {
        match self.admin {
            None => {
                return Err(Error::NotInitialized);
            }
            Some(a) => {
                if caller != a {
                    return Err(Error::Unauthorized);
                }
            }
        }
        if amount < 0 {
            return Err(Error::InvalidAmount);
        }
        if amount > i128::MAX - self.supply {
            return Err(Error::InvalidAmount);
        }
        proof {
            self.balances.lemma_le_sum(to);
        }
        self.supply = self.supply + amount;
        let to_balance = self.balances.get(to);
        self.balances.set(to, to_balance + amount);
        proof {
            assert(self@ =~= mint_effect(old(self)@, to, amount as int));
        }
        Ok(())
    }

    /// Credits the fixed faucet amount to `claimer`, at most once per
    /// cooldown window, and records `now` as the claim time.  `now`
    /// is the host's wall-clock reading.  The host has proven
    /// `claimer`'s authorization before this call.
    pub fn claim_faucet(&mut self, claimer: u64, now: u64) -> (r: Result<(), Error>)
        requires
            old(self).wf(),
        ensures
            final(self).wf(),
            match r {
                Ok(()) => claim_faucet_ok(old(self)@, claimer, now)
                    && final(self)@ == claim_faucet_effect(old(self)@, claimer, now),
                Err(e) => *final(self) == *old(self)
                    && !claim_faucet_ok(old(self)@, claimer, now)
                    && e == (if old(self)@.admin is None {
                        Error::NotInitialized
                    } else if !faucet_ready(old(self)@, claimer, now) {
                        Error::CooldownActive
                    } else {
                        Error::InvalidAmount
                    }),
            },
    {
        if self.admin.is_none() {
            return Err(Error::NotInitialized);
        }
        let last_claim: u64 = self.claims.get(claimer);
        if (now as u128) < (last_claim as u128) + (CLAIM_COOLDOWN as u128) {
            return Err(Error::CooldownActive);
        }
        if FAUCET_AMOUNT > i128::MAX - self.supply {
            return Err(Error::InvalidAmount);
        }
        proof {
            self.balances.lemma_le_sum(claimer);
        }
        self.claims.set(claimer, now);
        let claimer_balance = self.balances.get(claimer);
        self.balances.set(claimer, claimer_balance + FAUCET_AMOUNT);
        self.supply = self.supply + FAUCET_AMOUNT;
        proof {
            assert(self@ =~= claim_faucet_effect(old(self)@, claimer, now));
        }
        Ok(())
    }

    /// Whether `user` could claim the faucet at wall-clock time `now`.
    pub fn can_claim_faucet(&self, user: u64, now: u64) -> (r: bool)
        requires
            self.wf(),
        ensures
            r == faucet_ready(self@, user, now),
    {
        let last_claim: u64 = self.claims.get(user);
        (now as u128) >= (last_claim as u128) + (CLAIM_COOLDOWN as u128)
    }
}

} // verus!
