//! The ledger state machine: balance lookup, transfer with conservation,
//! and supply-changing mint and burn under explicit authorization.
//!
//! Every state-changing call takes the invoking principal as a plain
//! parameter and either applies in full, returning the event the host must
//! record, or fails with a typed error and leaves the state untouched.

use vstd::prelude::*;

use crate::account::AccountId;
use crate::balances::{
    distinct_accounts, lemma_lookup_le_sum, lemma_two_lookups_le_sum, lookup, read_balance,
    store_balance, sum_amounts, Entry,
};

verus! {

/// Why an operation was refused. Every variant is reported to the caller of
/// the failing call and leaves the ledger exactly as it was.
#[derive(Clone, Copy, PartialEq, Eq, Structural, Debug)]
pub enum Error {
    /// The debited account holds less than the requested amount.
    InsufficientBalance,
    /// Crediting the recipient would pass the largest representable amount.
    BalanceOverflow,
    /// Minting would push the total supply past the largest representable
    /// amount.
    SupplyOverflow,
    /// Burning would take the total supply below zero.
    SupplyUnderflow,
    /// The invoking principal is not the administrator.
    Unauthorized,
}

/// Record of a movement of units, handed back to the host for its event log.
/// `from == None` marks newly minted units, `to == None` burned ones.
#[derive(Clone, Copy, PartialEq, Eq, Debug)]
pub struct Transfer {
    pub from: Option<AccountId>,
    pub to: Option<AccountId>,
    pub value: u128,
}

/// The ledger: the total supply, the stored balances, and the administrator
/// fixed when the ledger is created.
pub struct PolymeshTokenContract {
    pub total_supply: u128,
    pub balances: Vec<Entry>,
    pub owner: AccountId,
}

impl PolymeshTokenContract {
    /// Well-formedness: every account is stored at most once, and the stored
    /// amounts sum exactly to `total_supply` (conservation). Construction
    /// establishes it and every operation preserves it.
    pub open spec fn wf(self) -> bool {
        &&& distinct_accounts(self.balances@)
        &&& sum_amounts(self.balances@) == self.total_supply as int
    }

    /// The balance the ledger assigns to `account`; an account never written
    /// holds zero.
    pub open spec fn spec_balance_of(self, account: AccountId) -> u128 {
        lookup(self.balances@, account)
    }

    /// What a successful transfer does: administrator and supply kept,
    /// `value` moved from `caller` to `to` (a self-transfer moves nothing),
    /// every other balance kept.
    pub open spec fn transfer_applied(
        pre: Self,
        post: Self,
        caller: AccountId,
        to: AccountId,
        value: u128,
    ) -> bool {
        &&& post.owner == pre.owner
        &&& post.total_supply == pre.total_supply
        &&& forall|a: AccountId|
            (#[trigger] post.spec_balance_of(a)) as int == if caller == to {
                pre.spec_balance_of(a) as int
            } else if a == caller {
                pre.spec_balance_of(a) - value
            } else if a == to {
                pre.spec_balance_of(a) + value
            } else {
                pre.spec_balance_of(a) as int
            }
    }

    /// What a successful mint does: administrator kept, supply and the
    /// balance of `to` raised by `value`, every other balance kept.
    pub open spec fn mint_applied(pre: Self, post: Self, to: AccountId, value: u128) -> bool {
        &&& post.owner == pre.owner
        &&& post.total_supply as int == pre.total_supply + value
        &&& forall|a: AccountId|
            (#[trigger] post.spec_balance_of(a)) as int == pre.spec_balance_of(a) + (
            if a == to {
                value as int
            } else {
                0
            })
    }

    /// What a successful burn does: administrator kept, supply and the
    /// balance of `caller` lowered by `value`, every other balance kept.
    pub open spec fn burn_applied(pre: Self, post: Self, caller: AccountId, value: u128) -> bool {
        &&& post.owner == pre.owner
        &&& post.total_supply as int == pre.total_supply - value
        &&& forall|a: AccountId|
            (#[trigger] post.spec_balance_of(a)) as int == pre.spec_balance_of(a) - (
            if a == caller {
                value as int
            } else {
                0
            })
    }

    /// Create the ledger. The whole initial supply is credited to `caller`,
    /// who becomes the administrator. No event is recorded for this genesis
    /// credit: the host treats creation itself as the observable act.
    pub fn new(caller: AccountId, initial_supply: u128) -> (r: Self)
        ensures
            r.wf(),
            r.owner == caller,
            r.total_supply == initial_supply,
            forall|a: AccountId|
                #[trigger] r.spec_balance_of(a) == if a == caller {
                    initial_supply
                } else {
                    0u128
                },
    {
        let mut balances: Vec<Entry> = Vec::new();
        store_balance(&mut balances, caller, initial_supply);
        PolymeshTokenContract { total_supply: initial_supply, balances, owner: caller }
    }

    /// The balance of `account`, or zero where none was ever written.
    /// A pure read: no side effects, callable by anyone.
    pub fn balance_of(&self, account: AccountId) -> (r: u128)
        requires
            self.wf(),
        ensures
            r == self.spec_balance_of(account),
    {
        read_balance(&self.balances, account)
    }

    /// Move `value` units from `caller` to `to`.
    ///
    /// Succeeds exactly when `caller` holds at least `value` — a zero-value
    /// transfer is legal and still yields an event — and then debits
    /// `caller`, credits `to` and returns the event to record. Fails with
    /// `InsufficientBalance` otherwise, leaving the ledger untouched.
    /// Conservation: the total supply and the sum of all balances never
    /// change, whatever the outcome.
    pub fn transfer(&mut self, caller: AccountId, to: AccountId, value: u128) -> (r: Result<
        Transfer,
        Error,
    >)
        requires
            old(self).wf(),
        ensures
            final(self).wf(),
            final(self).owner == old(self).owner,
            final(self).total_supply == old(self).total_supply,
            sum_amounts(final(self).balances@) == sum_amounts(old(self).balances@),
            r == Ok::<Transfer, Error>(Transfer { from: Some(caller), to: Some(to), value })
                <==> old(self).spec_balance_of(caller) >= value,
            old(self).spec_balance_of(caller) >= value ==> Self::transfer_applied(
                *old(self),
                *final(self),
                caller,
                to,
                value,
            ),
            old(self).spec_balance_of(caller) < value ==> r == Err::<Transfer, Error>(
                Error::InsufficientBalance,
            ) && *final(self) == *old(self),
    {
        let from_balance = read_balance(&self.balances, caller);
        if from_balance < value {
            return Err(Error::InsufficientBalance);
        }
        if caller == to {
            // Debit, then credit the debited account: its balance and the
            // sum of all balances end where they began.
            store_balance(&mut self.balances, caller, from_balance - value);
            let to_balance = read_balance(&self.balances, to);
            store_balance(&mut self.balances, to, to_balance + value);
        } else {
            let to_balance = read_balance(&self.balances, to);
            proof {
                lemma_two_lookups_le_sum(self.balances@, caller, to);
            }
            // Checked, though conservation rules the overflow out: the two
            // balances together never pass the total supply.
            if value > u128::MAX - to_balance {
                return Err(Error::BalanceOverflow);
            }
            // All checks are done; both writes now apply.
            store_balance(&mut self.balances, caller, from_balance - value);
            store_balance(&mut self.balances, to, to_balance + value);
        }
        Ok(Transfer { from: Some(caller), to: Some(to), value })
    }

    /// Create `value` fresh units and credit them to `to`.
    ///
    /// Only the administrator may mint: any other principal fails with
    /// `Unauthorized`, for every value including zero. An authorized mint
    /// fails with `SupplyOverflow` when the new total would pass the largest
    /// representable amount, and succeeds otherwise, returning the event to
    /// record. Every failure leaves the ledger untouched.
    pub fn mint(&mut self, caller: AccountId, to: AccountId, value: u128) -> (r: Result<
        Transfer,
        Error,
    >)
        requires
            old(self).wf(),
        ensures
            final(self).wf(),
            final(self).owner == old(self).owner,
            caller != old(self).owner ==> r == Err::<Transfer, Error>(Error::Unauthorized)
                && *final(self) == *old(self),
            caller == old(self).owner && old(self).total_supply + value > u128::MAX ==> r
                == Err::<Transfer, Error>(Error::SupplyOverflow) && *final(self) == *old(self),
            r == Ok::<Transfer, Error>(Transfer { from: None, to: Some(to), value }) <==> caller
                == old(self).owner && old(self).total_supply + value <= u128::MAX,
            caller == old(self).owner && old(self).total_supply + value <= u128::MAX
                ==> Self::mint_applied(*old(self), *final(self), to, value),
    {
        if !(caller == self.owner) {
            return Err(Error::Unauthorized);
        }
        if value > u128::MAX - self.total_supply {
            return Err(Error::SupplyOverflow);
        }
        let new_total = self.total_supply + value;
        let to_balance = read_balance(&self.balances, to);
        proof {
            lemma_lookup_le_sum(self.balances@, to);
        }
        // Checked independently, though the supply check above already rules
        // it out: no balance passes the total supply.
        if value > u128::MAX - to_balance {
            return Err(Error::BalanceOverflow);
        }
        store_balance(&mut self.balances, to, to_balance + value);
        self.total_supply = new_total;
        Ok(Transfer { from: None, to: Some(to), value })
    }

    /// Destroy `value` units held by `caller` (no delegation: only one's own
    /// balance burns).
    ///
    /// Succeeds exactly when `caller` holds at least `value`, and then debits
    /// `caller`, lowers the total supply and returns the event to record.
    /// Fails with `InsufficientBalance` otherwise, leaving the ledger
    /// untouched.
    pub fn burn(&mut self, caller: AccountId, value: u128) -> (r: Result<Transfer, Error>)
        requires
            old(self).wf(),
        ensures
            final(self).wf(),
            final(self).owner == old(self).owner,
            r == Ok::<Transfer, Error>(Transfer { from: Some(caller), to: None, value }) <==> old(
                self,
            ).spec_balance_of(caller) >= value,
            old(self).spec_balance_of(caller) >= value ==> Self::burn_applied(
                *old(self),
                *final(self),
                caller,
                value,
            ),
            old(self).spec_balance_of(caller) < value ==> r == Err::<Transfer, Error>(
                Error::InsufficientBalance,
            ) && *final(self) == *old(self),
    {
        let current = read_balance(&self.balances, caller);
        if current < value {
            return Err(Error::InsufficientBalance);
        }
        proof {
            lemma_lookup_le_sum(self.balances@, caller);
        }
        // Checked, though conservation rules the underflow out: no balance
        // passes the total supply.
        if value > self.total_supply {
            return Err(Error::SupplyUnderflow);
        }
        let new_total = self.total_supply - value;
        store_balance(&mut self.balances, caller, current - value);
        self.total_supply = new_total;
        Ok(Transfer { from: Some(caller), to: None, value })
    }

    /// Conservation: a successful transfer keeps the total supply and, with
    /// it, the sum of all balances; a chain of them therefore keeps both.
    pub proof fn lemma_transfer_conserves(
        pre: Self,
        post: Self,
        caller: AccountId,
        to: AccountId,
        value: u128,
    )
        requires
            pre.wf(),
            post.wf(),
            Self::transfer_applied(pre, post, caller, to, value),
        ensures
            post.total_supply == pre.total_supply,
            sum_amounts(post.balances@) == sum_amounts(pre.balances@),
    {
    }

    /// Mint/burn symmetry: minting `value` to an account and then burning
    /// `value` from that same account restores the total supply and every
    /// balance to their values before the mint.
    pub proof fn lemma_mint_burn_symmetry(
        pre: Self,
        mid: Self,
        post: Self,
        account: AccountId,
        value: u128,
    )
        requires
            Self::mint_applied(pre, mid, account, value),
            Self::burn_applied(mid, post, account, value),
        ensures
            post.owner == pre.owner,
            post.total_supply == pre.total_supply,
            forall|a: AccountId| #[trigger] post.spec_balance_of(a) == pre.spec_balance_of(a),
    {
        assert forall|a: AccountId| #[trigger] post.spec_balance_of(a) == pre.spec_balance_of(
            a,
        ) by {
            assert(mid.spec_balance_of(a) as int == pre.spec_balance_of(a) + (
            if a == account {
                value as int
            } else {
                0
            }));
        }
    }

    /// No negative balances: every balance is non-negative and no balance
    /// passes the total supply, in every well-formed state.
    pub proof fn lemma_balance_bounded(self, account: AccountId)
        requires
            self.wf(),
        ensures
            0 <= self.spec_balance_of(account),
            self.spec_balance_of(account) <= self.total_supply,
    {
        lemma_lookup_le_sum(self.balances@, account);
    }
}

} // verus!
