//! The vault: custodial balances and time-locked savings.
//!
//! Value enters and leaves the vault through the token ledger: the
//! operations that move the underlying asset take the ledger the
//! vault was initialized against as an explicit `&mut` capability,
//! and either both components change or neither does.  Locking is
//! measured in the host's monotonically increasing ledger-sequence
//! counter (not wall-clock time), handed in as the
//! `current_sequence` argument.  The host proves, before any of
//! these operations runs, that the caller holds authority for the
//! named user.
//!
//! Kept by every operation: balances and savings are non-negative,
//! and a user's liquid and savings holdings always fit a signed
//! 128-bit total.  An operation that would break this fails whole,
//! with no partial mutation.

use vstd::prelude::*;

use crate::errors::Error;
use crate::store::IntMap;
use crate::store::TimeMap;
use crate::token::SenteToken;
use crate::token::TokenView;
use crate::token::transfer_effect;
use crate::token::transfer_ok;

verus! {

/// Sequence-counter ticks in roughly one day.
pub const DAY_IN_LEDGERS: u64 = 17280;

/// Sequence-counter ticks in roughly 365 days, the longest lock.
pub const YEAR_IN_LEDGERS: u64 = 6307200;

/// Mathematical state of the vault.  The maps are total: a user
/// never written reads as 0.
#[verifier::ext_equal]
pub struct VaultView {
    pub admin: Option<u64>,
    pub token_contract: Option<u64>,
    pub vault_address: u64,
    pub balances: Map<u64, int>,
    pub savings: Map<u64, int>,
    pub unlocks: Map<u64, u64>,
}

/// A user's combined liquid and savings holding.
pub open spec fn vault_total(s: VaultView, user: u64) -> int {
    s.balances[user] + s.savings[user]
}

/// A fresh, not yet initialized vault deployed at `vault_address`.
pub open spec fn vault_init_state(vault_address: u64) -> VaultView {
    VaultView {
        admin: None,
        token_contract: None,
        vault_address,
        balances: Map::total(|k: u64| 0int),
        savings: Map::total(|k: u64| 0int),
        unlocks: Map::total(|k: u64| 0u64),
    }
}

/// State after a successful vault `initialize`.
pub open spec fn vault_initialize_effect(s: VaultView, admin: u64, token_contract: u64) -> VaultView {
    VaultView { admin: Some(admin), token_contract: Some(token_contract), ..s }
}

/// `deposit` succeeds exactly on these inputs (vault and ledger).
pub open spec fn deposit_ok(s: VaultView, t: TokenView, user: u64, amount: int) -> bool {
    &&& amount > 0
    &&& s.token_contract is Some
    &&& vault_total(s, user) + amount <= i128::MAX
    &&& transfer_ok(t, user, amount)
}

/// Vault side of a successful `deposit`: the user's liquid balance
/// grows; the ledger side is `transfer_effect` from the user to the
/// vault's own address.
pub open spec fn deposit_effect(s: VaultView, user: u64, amount: int) -> VaultView {
    VaultView { balances: s.balances.insert(user, s.balances[user] + amount), ..s }
}

/// `withdraw` succeeds exactly on these inputs (vault and ledger).
pub open spec fn withdraw_ok(s: VaultView, t: TokenView, user: u64, amount: int) -> bool {
    &&& amount > 0
    &&& s.balances[user] >= amount
    &&& s.token_contract is Some
    &&& transfer_ok(t, s.vault_address, amount)
}

/// Vault side of a successful `withdraw`: the user's liquid balance
/// shrinks; the ledger side is `transfer_effect` from the vault's
/// own address to the user.
pub open spec fn withdraw_effect(s: VaultView, user: u64, amount: int) -> VaultView {
    VaultView { balances: s.balances.insert(user, s.balances[user] - amount), ..s }
}

/// Vault-internal `transfer` succeeds exactly on these inputs.
pub open spec fn vault_transfer_ok(s: VaultView, from: u64, to: u64, amount: int) -> bool {
    &&& amount > 0
    &&& s.balances[from] >= amount
    &&& (from == to || vault_total(s, to) + amount <= i128::MAX)
}

/// State after a successful vault-internal `transfer`: liquid value
/// is reassigned between custodial balances, nothing else moves.
pub open spec fn vault_transfer_effect(s: VaultView, from: u64, to: u64, amount: int) -> VaultView {
    let debited = s.balances.insert(from, s.balances[from] - amount);
    VaultView { balances: debited.insert(to, debited[to] + amount), ..s }
}

/// `save_to_vault` succeeds exactly on these inputs.
pub open spec fn save_ok(s: VaultView, user: u64, amount: int, lock_duration_days: u32) -> bool {
    &&& amount > 0
    &&& 1 <= lock_duration_days <= 365
    &&& s.balances[user] >= amount
}

/// The absolute sequence threshold a lock taken now matures at.
pub open spec fn unlock_threshold(current_sequence: u64, lock_duration_days: u32) -> int {
    current_sequence as int + lock_duration_days as int * DAY_IN_LEDGERS as int
}

/// State after a successful `save_to_vault`: liquid value becomes
/// savings and the single unlock threshold for the user's whole
/// savings balance is overwritten.
pub open spec fn save_effect(
    s: VaultView,
    user: u64,
    amount: int,
    lock_duration_days: u32,
    current_sequence: u64,
) -> VaultView {
    VaultView {
        balances: s.balances.insert(user, s.balances[user] - amount),
        savings: s.savings.insert(user, s.savings[user] + amount),
        unlocks: s.unlocks.insert(
            user,
            (unlock_threshold(current_sequence, lock_duration_days)) as u64,
        ),
        ..s
    }
}

/// `withdraw_from_vault` succeeds exactly on these inputs.
pub open spec fn unsave_ok(s: VaultView, user: u64, amount: int, current_sequence: u64) -> bool {
    &&& amount > 0
    &&& s.savings[user] >= amount
    &&& current_sequence >= s.unlocks[user]
}

/// State after a successful `withdraw_from_vault`: savings become
/// liquid again, the user's combined holding unchanged.
pub open spec fn unsave_effect(s: VaultView, user: u64, amount: int) -> VaultView {
    VaultView {
        savings: s.savings.insert(user, s.savings[user] - amount),
        balances: s.balances.insert(user, s.balances[user] + amount),
        ..s
    }
}

/// The vault, custodian of liquid and time-locked holdings.
pub struct SenteVault {
    admin: Option<u64>,
    token_contract: Option<u64>,
    vault_address: u64,
    balances: IntMap,
    savings: IntMap,
    unlocks: TimeMap,
}

impl View for SenteVault {
    type V = VaultView;

    closed spec fn view(&self) -> VaultView {
        VaultView {
            admin: self.admin,
            token_contract: self.token_contract,
            vault_address: self.vault_address,
            balances: self.balances@,
            savings: self.savings@,
            unlocks: self.unlocks@,
        }
    }
}

impl SenteVault {
    /// Well-formedness: non-negative holdings whose per-user total
    /// always fits the signed 128-bit domain, and admin and ledger
    /// reference set together, once.
    pub closed spec fn wf(&self) -> bool {
        &&& self.balances.wf()
        &&& self.savings.wf()
        &&& self.unlocks.wf()
        &&& (forall|u: u64| self.balances@[u] + self.savings@[u] <= i128::MAX)
        &&& (self.admin is Some <==> self.token_contract is Some)
    }

    /// Holdings of a well-formed vault are non-negative and a user's
    /// combined holding fits the signed 128-bit domain.
    pub proof fn lemma_holding_bounds(&self, user: u64)
        requires
            self.wf(),
        ensures
            0 <= self@.balances[user],
            0 <= self@.savings[user],
            vault_total(self@, user) <= i128::MAX,
    {
        self.balances.lemma_le_sum(user);
        self.savings.lemma_le_sum(user);
        assert(self.balances@[user] + self.savings@[user] <= i128::MAX);
    }

    /// A fresh vault deployed at `vault_address`: not initialized,
    /// all holdings zero.
    pub fn new(vault_address: u64) -> (r: SenteVault)
        ensures
            r.wf(),
            r@ == vault_init_state(vault_address),
    {
        let r = SenteVault {
            admin: None,
            token_contract: None,
            vault_address,
            balances: IntMap::new(),
            savings: IntMap::new(),
            unlocks: TimeMap::new(),
        };
        proof {
            assert(r@ =~= vault_init_state(vault_address));
        }
        r
    }

    /// One-time setup: records the admin and the token ledger this
    /// vault moves value through.  Fails with `AlreadyInitialized` on
    /// every later call, whatever the arguments.
    pub fn initialize(&mut self, admin: u64, token_contract: u64) -> (r: Result<(), Error>)
        requires
            old(self).wf(),
        ensures
            final(self).wf(),
            match r {
                Ok(()) => old(self)@.admin is None
                    && final(self)@ == vault_initialize_effect(old(self)@, admin, token_contract),
                Err(e) => *final(self) == *old(self)
                    && old(self)@.admin is Some
                    && e == Error::AlreadyInitialized,
            },
    {
        if self.admin.is_some() {
            return Err(Error::AlreadyInitialized);
        }
        self.admin = Some(admin);
        self.token_contract = Some(token_contract);
        proof {
            assert(self@ =~= vault_initialize_effect(old(self)@, admin, token_contract));
        }
        Ok(())
    }

    /// The ledger reference this vault was initialized against; fails
    /// before initialization.
    pub fn token_contract(&self) -> (r: Result<u64, Error>)
        ensures
            match r {
                Ok(t) => self@.token_contract == Some(t),
                Err(e) => self@.token_contract is None && e == Error::NotInitialized,
            },
    {
        match self.token_contract {
            Some(t) => Ok(t),
            None => Err(Error::NotInitialized),
        }
    }

    /// The vault's own account identity on the token ledger.
    pub fn vault_address(&self) -> (r: u64)
        ensures
            r == self@.vault_address,
    {
        self.vault_address
    }

    /// A user's liquid custodial balance; never written reads as 0.
    pub fn balance(&self, user: u64) -> (r: i128)
        requires
            self.wf(),
        ensures
            r as int == self@.balances[user],
            r >= 0,
    {
        self.balances.get(user)
    }

    /// A user's locked savings balance; never written reads as 0.
    pub fn savings_balance(&self, user: u64) -> (r: i128)
        requires
            self.wf(),
        ensures
            r as int == self@.savings[user],
            r >= 0,
    {
        self.savings.get(user)
    }

    /// The sequence threshold at or after which the user's savings
    /// lock may be released; never written reads as 0.
    pub fn unlock_time(&self, user: u64) -> (r: u64)
        requires
            self.wf(),
        ensures
            r == self@.unlocks[user],
    {
        self.unlocks.get(user)
    }

    /// A user's combined liquid and savings holding.
    pub fn total_balance(&self, user: u64) -> (r: i128)
        requires
            self.wf(),
        ensures
            r as int == vault_total(self@, user),
            r >= 0,
    {
        proof {
            assert(self.balances@[user] + self.savings@[user] <= i128::MAX);
        }
        let balance = self.balances.get(user);
        let savings = self.savings.get(user);
        balance + savings
    }

    /// Moves `amount` from the user's ledger account into the vault's
    /// ledger account and credits the user's custodial balance; both
    /// sides change or neither does.
    pub fn deposit(
        &mut self,
        user: u64,
        amount: i128,
        token: &mut SenteToken,
    ) -> (r: Result<(), Error>)
        requires
            old(self).wf(),
            old(token).wf(),
        ensures
            final(self).wf(),
            final(token).wf(),
            match r {
                Ok(()) => deposit_ok(old(self)@, old(token)@, user, amount as int)
                    && final(self)@ == deposit_effect(old(self)@, user, amount as int)
                    && final(token)@ == transfer_effect(
                        old(token)@, user, old(self)@.vault_address, amount as int,
                    ),
                Err(e) => *final(self) == *old(self)
                    && *final(token) == *old(token)
                    && !deposit_ok(old(self)@, old(token)@, user, amount as int)
                    && e == (if amount <= 0 {
                        Error::InvalidAmount
                    } else if old(self)@.token_contract is None {
                        Error::NotInitialized
                    } else if vault_total(old(self)@, user) + amount > i128::MAX {
                        Error::InvalidAmount
                    } else {
                        Error::InsufficientBalance
                    }),
            },
    {
        if amount <= 0 {
            return Err(Error::InvalidAmount);
        }
        if self.token_contract.is_none() {
            return Err(Error::NotInitialized);
        }
        let balance = self.balances.get(user);
        let savings = self.savings.get(user);
        proof {
            assert(self.balances@[user] + self.savings@[user] <= i128::MAX);
        }
        if amount > (i128::MAX - balance) - savings {
            return Err(Error::InvalidAmount);
        }
        let vault_address = self.vault_address;
        match token.transfer(user, vault_address, amount) {
            Ok(()) => {}
            Err(e) => {
                return Err(e);
            }
        }
        self.balances.set(user, balance + amount);
        proof {
            assert(self@ =~= deposit_effect(old(self)@, user, amount as int));
        }
        Ok(())
    }

    /// Debits the user's custodial balance and moves `amount` from
    /// the vault's ledger account back to the user's; both sides
    /// change or neither does.
    pub fn withdraw(
        &mut self,
        user: u64,
        amount: i128,
        token: &mut SenteToken,
    ) -> (r: Result<(), Error>)
        requires
            old(self).wf(),
            old(token).wf(),
        ensures
            final(self).wf(),
            final(token).wf(),
            match r {
                Ok(()) => withdraw_ok(old(self)@, old(token)@, user, amount as int)
                    && final(self)@ == withdraw_effect(old(self)@, user, amount as int)
                    && final(token)@ == transfer_effect(
                        old(token)@, old(self)@.vault_address, user, amount as int,
                    ),
                Err(e) => *final(self) == *old(self)
                    && *final(token) == *old(token)
                    && !withdraw_ok(old(self)@, old(token)@, user, amount as int)
                    && e == (if amount <= 0 {
                        Error::InvalidAmount
                    } else if old(self)@.balances[user] < amount as int {
                        Error::InsufficientBalance
                    } else if old(self)@.token_contract is None {
                        Error::NotInitialized
                    } else {
                        Error::InsufficientBalance
                    }),
            },
    {
        if amount <= 0 {
            return Err(Error::InvalidAmount);
        }
        let balance = self.balances.get(user);
        if balance < amount {
            return Err(Error::InsufficientBalance);
        }
        if self.token_contract.is_none() {
            return Err(Error::NotInitialized);
        }
        let vault_address = self.vault_address;
        match token.transfer(vault_address, user, amount) {
            Ok(()) => {}
            Err(e) => {
                return Err(e);
            }
        }
        self.balances.set(user, balance - amount);
        proof {
            assert(self@ =~= withdraw_effect(old(self)@, user, amount as int));
        }
        Ok(())
    }

    /// Reassigns liquid value between two custodial balances inside
    /// the vault; the token ledger is untouched.
    pub fn transfer(&mut self, from: u64, to: u64, amount: i128) -> (r: Result<(), Error>)
        requires
            old(self).wf(),
        ensures
            final(self).wf(),
            match r {
                Ok(()) => vault_transfer_ok(old(self)@, from, to, amount as int)
                    && final(self)@ == vault_transfer_effect(old(self)@, from, to, amount as int),
                Err(e) => *final(self) == *old(self)
                    && !vault_transfer_ok(old(self)@, from, to, amount as int)
                    && e == (if amount <= 0 {
                        Error::InvalidAmount
                    } else if old(self)@.balances[from] < amount as int {
                        Error::InsufficientBalance
                    } else {
                        Error::InvalidAmount
                    }),
            },
    {
        if amount <= 0 {
            return Err(Error::InvalidAmount);
        }
        let from_balance = self.balances.get(from);
        if from_balance < amount {
            return Err(Error::InsufficientBalance);
        }
        if to != from {
            let to_balance = self.balances.get(to);
            let to_savings = self.savings.get(to);
            proof {
                assert(self.balances@[to] + self.savings@[to] <= i128::MAX);
            }
            if amount > (i128::MAX - to_balance) - to_savings {
                return Err(Error::InvalidAmount);
            }
        }
        self.balances.set(from, from_balance - amount);
        let to_balance = self.balances.get(to);
        self.balances.set(to, to_balance + amount);
        proof {
            assert(self@ =~= vault_transfer_effect(old(self)@, from, to, amount as int));
        }
        Ok(())
    }

    /// Locks `amount` of the user's liquid balance as savings until
    /// `lock_duration_days` (between 1 and 365) worth of sequence
    /// ticks past `current_sequence`; a repeated call overwrites the
    /// single unlock threshold for the user's whole savings balance.
    pub fn save_to_vault(
        &mut self,
        user: u64,
        amount: i128,
        lock_duration_days: u32,
        current_sequence: u64,
    ) -> (r: Result<(), Error>)
        requires
            old(self).wf(),
            current_sequence <= u64::MAX - YEAR_IN_LEDGERS,
        ensures
            final(self).wf(),
            match r {
                Ok(()) => save_ok(old(self)@, user, amount as int, lock_duration_days)
                    && final(self)@ == save_effect(
                        old(self)@, user, amount as int, lock_duration_days, current_sequence,
                    )
                    && final(self)@.unlocks[user] as int
                        == unlock_threshold(current_sequence, lock_duration_days),
                Err(e) => *final(self) == *old(self)
                    && !save_ok(old(self)@, user, amount as int, lock_duration_days)
                    && e == (if amount <= 0 {
                        Error::InvalidAmount
                    } else if lock_duration_days < 1 || lock_duration_days > 365 {
                        Error::InvalidLockDuration
                    } else {
                        Error::InsufficientBalance
                    }),
            },
    {
        if amount <= 0 {
            return Err(Error::InvalidAmount);
        }
        if lock_duration_days < 1 || lock_duration_days > 365 {
            return Err(Error::InvalidLockDuration);
        }
        let balance = self.balances.get(user);
        if balance < amount {
            return Err(Error::InsufficientBalance);
        }
        let savings = self.savings.get(user);
        proof {
            assert(self.balances@[user] + self.savings@[user] <= i128::MAX);
        }
        let lock_duration_ledgers: u64 = (lock_duration_days as u64) * DAY_IN_LEDGERS;
        let unlock_ledger: u64 = current_sequence + lock_duration_ledgers;
        self.balances.set(user, balance - amount);
        self.savings.set(user, savings + amount);
        self.unlocks.set(user, unlock_ledger);
        proof {
            assert(self@ =~= save_effect(
                old(self)@, user, amount as int, lock_duration_days, current_sequence,
            ));
        }
        Ok(())
    }

    /// Releases `amount` of matured savings back into the user's
    /// liquid balance; fails with `StillLocked` before the user's
    /// unlock threshold.
    pub fn withdraw_from_vault(
        &mut self,
        user: u64,
        amount: i128,
        current_sequence: u64,
    ) -> (r: Result<(), Error>)
        requires
            old(self).wf(),
        ensures
            final(self).wf(),
            match r {
                Ok(()) => unsave_ok(old(self)@, user, amount as int, current_sequence)
                    && final(self)@ == unsave_effect(old(self)@, user, amount as int),
                Err(e) => *final(self) == *old(self)
                    && !unsave_ok(old(self)@, user, amount as int, current_sequence)
                    && e == (if amount <= 0 {
                        Error::InvalidAmount
                    } else if old(self)@.savings[user] < amount as int {
                        Error::InsufficientSavings
                    } else {
                        Error::StillLocked
                    }),
            },
    {
        if amount <= 0 {
            return Err(Error::InvalidAmount);
        }
        let savings = self.savings.get(user);
        if savings < amount {
            return Err(Error::InsufficientSavings);
        }
        let unlock_time = self.unlocks.get(user);
        if current_sequence < unlock_time {
            return Err(Error::StillLocked);
        }
        let balance = self.balances.get(user);
        proof {
            assert(self.balances@[user] + self.savings@[user] <= i128::MAX);
        }
        self.savings.set(user, savings - amount);
        self.balances.set(user, balance + amount);
        proof {
            assert(self@ =~= unsave_effect(old(self)@, user, amount as int));
        }
        Ok(())
    }
}

} // verus!
