//! The stored balance map: a vector of entries, one per account that was
//! ever written, with an absent account read as a balance of zero.

use vstd::prelude::*;

use crate::account::AccountId;

verus! {

/// One stored balance. Absence of an entry and a stored zero read the same,
/// so nothing here distinguishes them.
#[derive(Clone, Copy, PartialEq, Eq, Structural, Debug)]
pub struct Entry {
    pub account: AccountId,
    pub amount: u128,
}

/// No account appears in two entries.
pub open spec fn distinct_accounts(s: Seq<Entry>) -> bool {
    forall|i: int, j: int| 0 <= i < j < s.len() ==> s[i].account != s[j].account
}

/// The balance the entries assign to `account`: the amount of its entry,
/// or zero where none exists.
pub open spec fn lookup(s: Seq<Entry>, account: AccountId) -> u128
    decreases s.len(),
{
    if s.len() == 0 {
        0u128
    } else if s.last().account == account {
        s.last().amount
    } else {
        lookup(s.drop_last(), account)
    }
}

/// The sum of every stored amount, as an unbounded integer.
pub open spec fn sum_amounts(s: Seq<Entry>) -> int
    decreases s.len(),
{
    if s.len() == 0 {
        0
    } else {
        sum_amounts(s.drop_last()) + s.last().amount
    }
}

pub proof fn lemma_sum_nonneg(s: Seq<Entry>)
    ensures
        sum_amounts(s) >= 0,
    decreases s.len(),
{
    if s.len() > 0 {
        lemma_sum_nonneg(s.drop_last());
    }
}

/// One balance never exceeds the sum of all of them.
pub proof fn lemma_lookup_le_sum(s: Seq<Entry>, a: AccountId)
    ensures
        lookup(s, a) <= sum_amounts(s),
    decreases s.len(),
{
    if s.len() > 0 {
        lemma_sum_nonneg(s.drop_last());
        if s.last().account != a {
            lemma_lookup_le_sum(s.drop_last(), a);
        }
    }
}

/// Two different balances never exceed the sum of all of them together.
pub proof fn lemma_two_lookups_le_sum(s: Seq<Entry>, a: AccountId, b: AccountId)
    requires
        a != b,
    ensures
        lookup(s, a) + lookup(s, b) <= sum_amounts(s),
    decreases s.len(),
{
    if s.len() > 0 {
        if s.last().account == a {
            lemma_lookup_le_sum(s.drop_last(), b);
        } else if s.last().account == b {
            lemma_lookup_le_sum(s.drop_last(), a);
        } else {
            lemma_two_lookups_le_sum(s.drop_last(), a, b);
        }
    }
}

/// With accounts distinct, the entry at `i` is the balance of its account.
pub proof fn lemma_lookup_at_index(s: Seq<Entry>, i: int)
    requires
        distinct_accounts(s),
        0 <= i < s.len(),
    ensures
        lookup(s, s[i].account) == s[i].amount,
    decreases s.len(),
{
    if i < s.len() - 1 {
        assert(s[i].account != s.last().account);
        lemma_lookup_at_index(s.drop_last(), i);
    }
}

/// An account with no entry has balance zero.
pub proof fn lemma_lookup_absent(s: Seq<Entry>, a: AccountId)
    requires
        forall|i: int| 0 <= i < s.len() ==> s[i].account != a,
    ensures
        lookup(s, a) == 0,
    decreases s.len(),
{
    if s.len() > 0 {
        lemma_lookup_absent(s.drop_last(), a);
    }
}

/// Replacing the entry at `i` moves the sum by the difference of amounts.
pub proof fn lemma_sum_update(s: Seq<Entry>, i: int, e: Entry)
    requires
        0 <= i < s.len(),
    ensures
        sum_amounts(s.update(i, e)) == sum_amounts(s) - s[i].amount + e.amount,
    decreases s.len(),
{
    let t = s.update(i, e);
    if i == s.len() - 1 {
        assert(t.drop_last() =~= s.drop_last());
    } else {
        assert(t.drop_last() =~= s.drop_last().update(i, e));
        lemma_sum_update(s.drop_last(), i, e);
    }
}

/// Replacing the entry at `i` by one for the same account changes that
/// account's balance and no other.
pub proof fn lemma_lookup_update(s: Seq<Entry>, i: int, e: Entry, a: AccountId)
    requires
        distinct_accounts(s),
        0 <= i < s.len(),
        e.account == s[i].account,
    ensures
        lookup(s.update(i, e), a) == if a == e.account {
            e.amount
        } else {
            lookup(s, a)
        },
    decreases s.len(),
{
    let t = s.update(i, e);
    if i == s.len() - 1 {
        assert(t.drop_last() =~= s.drop_last());
    } else {
        assert(t.drop_last() =~= s.drop_last().update(i, e));
        assert(s[i].account != s.last().account);
        lemma_lookup_update(s.drop_last(), i, e, a);
    }
}

/// Appending an entry adds its amount to the sum and sets its account's
/// balance, leaving every other balance alone.
pub proof fn lemma_push(s: Seq<Entry>, e: Entry, a: AccountId)
    ensures
        sum_amounts(s.push(e)) == sum_amounts(s) + e.amount,
        lookup(s.push(e), a) == if a == e.account {
            e.amount
        } else {
            lookup(s, a)
        },
{
    assert(s.push(e).drop_last() =~= s);
}

/// Index of the entry for `account`, where one exists.
fn find_account(entries: &Vec<Entry>, account: AccountId) -> (r: Option<usize>)
    ensures
        match r {
            Some(i) => i < entries@.len() && entries@[i as int].account == account,
            None => forall|k: int| 0 <= k < entries@.len() ==> entries@[k].account != account,
        },
{
    let n = entries.len();
    let mut i: usize = 0;
    while i < n
        invariant
            n == entries@.len(),
            i <= n,
            forall|k: int| 0 <= k < i ==> entries@[k].account != account,
        decreases n - i,
    {
        if entries[i].account == account {
            return Some(i);
        }
        i += 1;
    }
    None
}

/// The balance of `account`, read without changing anything.
pub(crate) fn read_balance(entries: &Vec<Entry>, account: AccountId) -> (r: u128)
    requires
        distinct_accounts(entries@),
    ensures
        r == lookup(entries@, account),
{
    match find_account(entries, account) {
        Some(i) => {
            proof {
                lemma_lookup_at_index(entries@, i as int);
            }
            entries[i].amount
        },
        None => {
            proof {
                lemma_lookup_absent(entries@, account);
            }
            0
        },
    }
}

/// Write `amount` as the balance of `account`, replacing its entry or
/// appending a fresh one.
pub(crate) fn store_balance(entries: &mut Vec<Entry>, account: AccountId, amount: u128)
    requires
        distinct_accounts(old(entries)@),
    ensures
        distinct_accounts(final(entries)@),
        sum_amounts(final(entries)@) == sum_amounts(old(entries)@) - lookup(
            old(entries)@,
            account,
        ) + amount,
        forall|a: AccountId| #[trigger] lookup(final(entries)@, a) == if a == account {
            amount
        } else {
            lookup(old(entries)@, a)
        },
{
    let ghost s = entries@;
    let e = Entry { account: account, amount: amount };
    match find_account(entries, account) {
        Some(i) => {
            entries[i] = e;
            proof {
                lemma_lookup_at_index(s, i as int);
                lemma_sum_update(s, i as int, e);
                assert forall|a: AccountId| #[trigger] lookup(entries@, a) == if a == account {
                    amount
                } else {
                    lookup(s, a)
                } by {
                    lemma_lookup_update(s, i as int, e, a);
                }
                assert forall|p: int, q: int|
                    0 <= p < q < entries@.len() implies entries@[p].account
                    != entries@[q].account by {
                    assert(s[p].account != s[q].account);
                }
            }
        },
        None => {
            entries.push(e);
            proof {
                lemma_lookup_absent(s, account);
                assert forall|a: AccountId| #[trigger] lookup(entries@, a) == if a == account {
                    amount
                } else {
                    lookup(s, a)
                } by {
                    lemma_push(s, e, a);
                }
                lemma_push(s, e, account);
                assert forall|p: int, q: int|
                    0 <= p < q < entries@.len() implies entries@[p].account
                    != entries@[q].account by {
                    if q < s.len() {
                        assert(s[p].account != s[q].account);
                    } else {
                        assert(entries@[q] == e);
                        assert(s[p].account != account);
                    }
                }
            }
        },
    }
}

} // verus!
