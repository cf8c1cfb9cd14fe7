use vstd::prelude::*;

use crate::account::AccountId;
use crate::assoc::assoc_index_of;
use crate::assoc::check_unique_keys;
use crate::assoc::keyed;
use crate::assoc::lemma_map_of_contains;
use crate::assoc::lemma_map_of_index;
use crate::assoc::lemma_map_of_push;
use crate::assoc::lemma_map_of_remove;
use crate::assoc::lemma_map_of_update;
use crate::assoc::map_of;
use crate::assoc::unique_keys;
use crate::types::Error;

verus! {

/// The sum of the balances held by a sequence of ledger entries.
pub open spec fn sum_entries(s: Seq<(Seq<char>, u128)>) -> int
    decreases s.len(),
{
    if s.len() == 0 {
        0
    } else {
        sum_entries(s.drop_last()) + s.last().1
    }
}

/// Replacing one entry moves the sum by the difference of the balances.
pub proof fn lemma_sum_update(s: Seq<(Seq<char>, u128)>, i: int, p: (Seq<char>, u128))
    requires
        0 <= i < s.len(),
    ensures
        sum_entries(s.update(i, p)) == sum_entries(s) - s[i].1 + p.1,
    decreases s.len(),
{
    if i == s.len() - 1 {
        assert(s.update(i, p).drop_last() =~= s.drop_last());
    } else {
        assert(s.update(i, p).drop_last() =~= s.drop_last().update(i, p));
        lemma_sum_update(s.drop_last(), i, p);
    }
}

/// Appending an entry raises the sum by its balance.
pub proof fn lemma_sum_push(s: Seq<(Seq<char>, u128)>, p: (Seq<char>, u128))
    ensures
        sum_entries(s.push(p)) == sum_entries(s) + p.1,
{
    assert(s.push(p).drop_last() =~= s);
}

/// Removing an entry lowers the sum by its balance.
pub proof fn lemma_sum_remove(s: Seq<(Seq<char>, u128)>, i: int)
    requires
        0 <= i < s.len(),
    ensures
        sum_entries(s.remove(i)) == sum_entries(s) - s[i].1,
    decreases s.len(),
{
    if i == s.len() - 1 {
        assert(s.remove(i) =~= s.drop_last());
    } else {
        assert(s.remove(i).drop_last() =~= s.drop_last().remove(i));
        lemma_sum_remove(s.drop_last(), i);
    }
}

/// No single balance exceeds the sum.
pub proof fn lemma_sum_element(s: Seq<(Seq<char>, u128)>, i: int)
    requires
        0 <= i < s.len(),
    ensures
        s[i].1 <= sum_entries(s),
    decreases s.len(),
{
    if i < s.len() - 1 {
        lemma_sum_element(s.drop_last(), i);
        lemma_sum_nonneg(s.drop_last());
    } else {
        lemma_sum_nonneg(s.drop_last());
    }
}

/// The sum of balances is never negative.
pub proof fn lemma_sum_nonneg(s: Seq<(Seq<char>, u128)>)
    ensures
        sum_entries(s) >= 0,
    decreases s.len(),
{
    if s.len() > 0 {
        lemma_sum_nonneg(s.drop_last());
    }
}

/// A prefix of the entries never sums to more than all of them.
pub proof fn lemma_sum_prefix_le(s: Seq<(Seq<char>, u128)>, k: int)
    requires
        0 <= k <= s.len(),
    ensures
        sum_entries(s.subrange(0, k)) <= sum_entries(s),
    decreases s.len(),
{
    if k == s.len() {
        assert(s.subrange(0, k) =~= s);
    } else {
        assert(s.subrange(0, k) =~= s.drop_last().subrange(0, k));
        lemma_sum_prefix_le(s.drop_last(), k);
    }
}

/// No two distinct balances together exceed the sum.
pub proof fn lemma_sum_pair(s: Seq<(Seq<char>, u128)>, i: int, j: int)
    requires
        0 <= i < j < s.len(),
    ensures
        s[i].1 + s[j].1 <= sum_entries(s),
    decreases s.len(),
{
    if j == s.len() - 1 {
        lemma_sum_element(s.drop_last(), i);
    } else {
        lemma_sum_pair(s.drop_last(), i, j);
        lemma_sum_nonneg(s.drop_last());
    }
}

/// The smaller of two amounts.
pub open spec fn min_u128(a: u128, b: u128) -> u128 {
    if a < b {
        a
    } else {
        b
    }
}

/// How much of a cross-contract transfer went unused: what the receiver
/// reported, capped at the amount sent; everything, when the receiving
/// side failed or its report could not be read.
pub open spec fn spec_unused(amount: u128, reported: Option<u128>) -> u128 {
    match reported {
        Some(u) => min_u128(u, amount),
        None => amount,
    }
}

/// How much of an unused amount can actually be taken back from the
/// receiver: capped at what the receiver still holds.
pub open spec fn spec_refund(
    pre: Ledger,
    receiver: Seq<char>,
    amount: u128,
    reported: Option<u128>,
) -> u128 {
    min_u128(pre.balance(receiver), spec_unused(amount, reported))
}

/// Why a transfer is refused, by the order in which the checks run.
pub open spec fn spec_transfer_error(
    pre: Ledger,
    sender: Seq<char>,
    receiver: Seq<char>,
    amount: u128,
) -> Error {
    if sender == receiver {
        Error::State
    } else if amount == 0 {
        Error::State
    } else if !pre.registered(sender) {
        Error::NotFound
    } else if pre.balance(sender) < amount {
        Error::Arithmetic
    } else {
        Error::NotFound
    }
}

/// The token ledger: the total supply and one balance record per
/// registered account.
///
/// The central invariant, `wf`, ties the two together: the total supply
/// equals the sum of all account balances. Every operation preserves it,
/// and every failing operation leaves the ledger untouched.
pub struct Ledger {
    accounts: Vec<(AccountId, u128)>,
    total_supply: u128,
}

impl Ledger {
    /// The balance records, each key projected to the account name.
    pub closed spec fn spec_entries(&self) -> Seq<(Seq<char>, u128)> {
        keyed(self.accounts@)
    }

    /// The recorded total supply.
    pub closed spec fn spec_total(&self) -> u128 {
        self.total_supply
    }

    /// The balances as a finite map from account name to balance.
    pub open spec fn balances(&self) -> Map<Seq<char>, u128> {
        map_of(self.spec_entries())
    }

    /// Whether an account has a balance record.
    pub open spec fn registered(&self, a: Seq<char>) -> bool {
        self.balances().contains_key(a)
    }

    /// The balance of an account; an account with no record holds nothing.
    pub open spec fn balance(&self, a: Seq<char>) -> u128 {
        if self.registered(a) {
            self.balances()[a]
        } else {
            0
        }
    }

    /// Well-formedness: one record per account, and the total supply is
    /// the sum of all balances.
    pub open spec fn wf(&self) -> bool {
        &&& unique_keys(self.spec_entries())
        &&& self.spec_total() as int == sum_entries(self.spec_entries())
    }

    /// An empty ledger: no accounts, no supply.
    pub fn new() -> (r: Ledger)
        ensures
            r.wf(),
            r.balances() == Map::<Seq<char>, u128>::empty(),
            r.spec_total() == 0,
    {
        let r = Ledger { accounts: Vec::new(), total_supply: 0 };
        proof {
            assert(r.spec_entries() =~= Seq::<(Seq<char>, u128)>::empty());
            assert(r.balances() =~= Map::<Seq<char>, u128>::empty());
        }
        r
    }

    /// The recorded total supply.
    pub fn total_supply(&self) -> (r: u128)
        ensures
            r == self.spec_total(),
    {
        self.total_supply
    }

    /// The balance of an account; zero when it has no record.
    pub fn balance_of(&self, account_id: &AccountId) -> (r: u128)
        requires
            self.wf(),
        ensures
            r == self.balance(account_id@),
    {
        proof {
            lemma_map_of_contains(self.spec_entries(), account_id@);
        }
        match assoc_index_of(&self.accounts, account_id) {
            Some(i) => {
                proof {
                    lemma_map_of_index(self.spec_entries(), i as int);
                }
                self.accounts[i].1
            },
            None => 0,
        }
    }

    /// Whether an account has a balance record.
    pub fn is_registered(&self, account_id: &AccountId) -> (r: bool)
        ensures
            r == self.registered(account_id@),
    {
        proof {
            lemma_map_of_contains(self.spec_entries(), account_id@);
        }
        assoc_index_of(&self.accounts, account_id).is_some()
    }

    /// Creates a zero-balance record for a new account. Registering an
    /// account twice is refused.
    pub fn register_account(&mut self, account_id: &AccountId) -> (r: Result<(), Error>)
        requires
            old(self).wf(),
        ensures
            final(self).wf(),
            r is Ok <==> !old(self).registered(account_id@),
            r is Ok ==> final(self).balances() == old(self).balances().insert(account_id@, 0)
                && final(self).spec_total() == old(self).spec_total(),
            r is Err ==> *final(self) == *old(self) && r == Err::<(), Error>(Error::State),
    {
        proof {
            lemma_map_of_contains(self.spec_entries(), account_id@);
        }
        match assoc_index_of(&self.accounts, account_id) {
            Some(_) => Err(Error::State),
            None => {
                proof {
                    lemma_map_of_push(self.spec_entries(), account_id@, 0);
                    lemma_sum_push(self.spec_entries(), (account_id@, 0));
                }
                self.accounts.push((account_id.clone(), 0));
                proof {
                    assert(self.spec_entries() =~= old(self).spec_entries().push(
                        (account_id@, 0),
                    ));
                }
                Ok(())
            },
        }
    }

    /// Drops an account's record, burning whatever it still held: the
    /// total supply falls by the removed balance. Returns that balance.
    pub fn unregister_account(&mut self, account_id: &AccountId) -> (r: Result<u128, Error>)
        requires
            old(self).wf(),
        ensures
            final(self).wf(),
            r is Ok <==> old(self).registered(account_id@),
            r is Ok ==> r == Ok::<u128, Error>(old(self).balance(account_id@))
                && final(self).balances() == old(self).balances().remove(account_id@)
                && final(self).spec_total() as int == old(self).spec_total()
                - old(self).balance(account_id@),
            r is Err ==> *final(self) == *old(self) && r == Err::<u128, Error>(Error::NotFound),
    {
        proof {
            lemma_map_of_contains(self.spec_entries(), account_id@);
        }
        match assoc_index_of(&self.accounts, account_id) {
            None => Err(Error::NotFound),
            Some(i) => {
                proof {
                    lemma_map_of_index(self.spec_entries(), i as int);
                    lemma_map_of_remove(self.spec_entries(), i as int);
                    lemma_sum_remove(self.spec_entries(), i as int);
                    lemma_sum_element(self.spec_entries(), i as int);
                }
                let bal = self.accounts[i].1;
                self.accounts.remove(i);
                self.total_supply = self.total_supply - bal;
                proof {
                    assert(self.spec_entries() =~= old(self).spec_entries().remove(i as int));
                }
                Ok(bal)
            },
        }
    }

    /// Credits an account, raising the total supply by the same amount.
    /// Both the new balance and the new total must fit; otherwise nothing
    /// changes.
    pub fn deposit(&mut self, account_id: &AccountId, amount: u128) -> (r: Result<(), Error>)
        requires
            old(self).wf(),
        ensures
            final(self).wf(),
            r is Ok <==> (old(self).registered(account_id@) && old(self).balance(account_id@)
                + amount <= u128::MAX && old(self).spec_total() + amount <= u128::MAX),
            r is Ok ==> final(self).balances() == old(self).balances().insert(
                account_id@,
                (old(self).balance(account_id@) + amount) as u128,
            ) && final(self).spec_total() == old(self).spec_total() + amount,
            r is Err ==> *final(self) == *old(self) && r == Err::<(), Error>(
                if !old(self).registered(account_id@) {
                    Error::NotFound
                } else {
                    Error::Arithmetic
                },
            ),
    {
        proof {
            lemma_map_of_contains(self.spec_entries(), account_id@);
        }
        match assoc_index_of(&self.accounts, account_id) {
            None => Err(Error::NotFound),
            Some(i) => {
                proof {
                    lemma_map_of_index(self.spec_entries(), i as int);
                }
                let bal = self.accounts[i].1;
                if amount > u128::MAX - bal {
                    return Err(Error::Arithmetic);
                }
                if amount > u128::MAX - self.total_supply {
                    return Err(Error::Arithmetic);
                }
                proof {
                    lemma_map_of_update(self.spec_entries(), i as int, (bal + amount) as u128);
                    lemma_sum_update(
                        self.spec_entries(),
                        i as int,
                        (account_id@, (bal + amount) as u128),
                    );
                }
                let key = self.accounts[i].0.clone();
                self.accounts[i] = (key, bal + amount);
                self.total_supply = self.total_supply + amount;
                proof {
                    assert(self.spec_entries() =~= old(self).spec_entries().update(
                        i as int,
                        (account_id@, (bal + amount) as u128),
                    ));
                }
                Ok(())
            },
        }
    }

    /// Debits an account, lowering the total supply by the same amount.
    /// The account must hold at least the amount; otherwise nothing
    /// changes. The total supply is checked as well, though under the
    /// ledger invariant that check can never be the one that fails.
    pub fn withdraw(&mut self, account_id: &AccountId, amount: u128) -> (r: Result<(), Error>)
        requires
            old(self).wf(),
        ensures
            final(self).wf(),
            r is Ok <==> (old(self).registered(account_id@) && old(self).balance(account_id@)
                >= amount),
            r is Ok ==> final(self).balances() == old(self).balances().insert(
                account_id@,
                (old(self).balance(account_id@) - amount) as u128,
            ) && final(self).spec_total() as int == old(self).spec_total() - amount,
            r is Err ==> *final(self) == *old(self) && r == Err::<(), Error>(
                if !old(self).registered(account_id@) {
                    Error::NotFound
                } else {
                    Error::Arithmetic
                },
            ),
    {
        proof {
            lemma_map_of_contains(self.spec_entries(), account_id@);
        }
        match assoc_index_of(&self.accounts, account_id) {
            None => Err(Error::NotFound),
            Some(i) => {
                proof {
                    lemma_map_of_index(self.spec_entries(), i as int);
                }
                let bal = self.accounts[i].1;
                if bal < amount {
                    return Err(Error::Arithmetic);
                }
                proof {
                    lemma_sum_element(self.spec_entries(), i as int);
                }
                if self.total_supply < amount {
                    return Err(Error::Arithmetic);
                }
                proof {
                    lemma_map_of_update(self.spec_entries(), i as int, (bal - amount) as u128);
                    lemma_sum_update(
                        self.spec_entries(),
                        i as int,
                        (account_id@, (bal - amount) as u128),
                    );
                }
                let key = self.accounts[i].0.clone();
                self.accounts[i] = (key, bal - amount);
                self.total_supply = self.total_supply - amount;
                proof {
                    assert(self.spec_entries() =~= old(self).spec_entries().update(
                        i as int,
                        (account_id@, (bal - amount) as u128),
                    ));
                }
                Ok(())
            },
        }
    }

    /// A copy of the balance records, for persistence.
    pub fn entries(&self) -> (r: Vec<(AccountId, u128)>)
        ensures
            keyed(r@) == self.spec_entries(),
    {
        let mut out: Vec<(AccountId, u128)> = Vec::new();
        let mut i: usize = 0;
        while i < self.accounts.len()
            invariant
                i <= self.accounts.len(),
                out@.len() == i,
                forall|j: int| 0 <= j < i ==> #[trigger] keyed(out@)[j] == self.spec_entries()[j],
            decreases self.accounts.len() - i,
        {
            let key = self.accounts[i].0.clone();
            let bal = self.accounts[i].1;
            let ghost prev = out@;
            out.push((key, bal));
            proof {
                assert forall|j: int| 0 <= j < out@.len() implies #[trigger] keyed(out@)[j]
                    == self.spec_entries()[j] by {
                    if j < prev.len() {
                        assert(out@[j] == prev[j]);
                        assert(keyed(prev)[j] == self.spec_entries()[j]);
                    } else {
                        assert(out@[j] == (key, bal));
                    }
                }
            }
            i += 1;
        }
        proof {
            assert(keyed(out@) =~= self.spec_entries());
        }
        out
    }

    /// Rebuilds a ledger from plain records, as read back from
    /// persistent storage. Refused — nothing constructed — unless the
    /// records carry one entry per account and sum exactly to the
    /// recorded total supply.
    pub fn restore(accounts: Vec<(AccountId, u128)>, total_supply: u128) -> (r: Result<
        Ledger,
        Error,
    >)
        ensures
            r is Ok <==> (unique_keys(keyed(accounts@)) && total_supply as int == sum_entries(
                keyed(accounts@),
            )),
            r matches Ok(l) ==> l.wf() && l.spec_entries() == keyed(accounts@) && l.spec_total()
                == total_supply,
            r is Err ==> r == Err::<Ledger, Error>(Error::State),
    {
        if !check_unique_keys(&accounts) {
            return Err(Error::State);
        }
        let mut acc: u128 = 0;
        let mut i: usize = 0;
        while i < accounts.len()
            invariant
                i <= accounts.len(),
                acc as int == sum_entries(keyed(accounts@).subrange(0, i as int)),
            decreases accounts.len() - i,
        {
            let b = accounts[i].1;
            proof {
                assert(keyed(accounts@).subrange(0, i as int + 1).drop_last() =~= keyed(
                    accounts@,
                ).subrange(0, i as int));
                assert(keyed(accounts@).subrange(0, i as int + 1).last() == keyed(
                    accounts@,
                )[i as int]);
            }
            if b > u128::MAX - acc {
                proof {
                    lemma_sum_prefix_le(keyed(accounts@), i as int + 1);
                }
                return Err(Error::State);
            }
            acc = acc + b;
            i += 1;
        }
        proof {
            assert(keyed(accounts@).subrange(0, accounts@.len() as int) =~= keyed(accounts@));
        }
        if acc != total_supply {
            return Err(Error::State);
        }
        Ok(Ledger { accounts, total_supply })
    }

    /// Moves an amount from one account to another. The sender and
    /// receiver must differ, the amount must be positive, both accounts
    /// must be registered and the sender must hold at least the amount;
    /// otherwise nothing changes. The total supply is untouched, and the
    /// receiver's new balance provably fits, because no two balances
    /// together exceed the total supply.
    pub fn transfer(
        &mut self,
        sender_id: &AccountId,
        receiver_id: &AccountId,
        amount: u128,
    ) -> (r: Result<(), Error>)
        requires
            old(self).wf(),
        ensures
            final(self).wf(),
            r is Ok <==> (sender_id@ != receiver_id@ && amount > 0 && old(self).registered(
                sender_id@,
            ) && old(self).registered(receiver_id@) && old(self).balance(sender_id@) >= amount),
            r is Ok ==> final(self).balances() == old(self).balances().insert(
                sender_id@,
                (old(self).balance(sender_id@) - amount) as u128,
            ).insert(receiver_id@, (old(self).balance(receiver_id@) + amount) as u128),
            r is Ok ==> final(self).spec_total() == old(self).spec_total(),
            r is Err ==> *final(self) == *old(self) && r == Err::<(), Error>(
                spec_transfer_error(*old(self), sender_id@, receiver_id@, amount),
            ),
    {
        if sender_id == receiver_id {
            return Err(Error::State);
        }
        if amount == 0 {
            return Err(Error::State);
        }
        proof {
            lemma_map_of_contains(self.spec_entries(), sender_id@);
        }
        let si = match assoc_index_of(&self.accounts, sender_id) {
            None => return Err(Error::NotFound),
            Some(i) => i,
        };
        proof {
            lemma_map_of_index(self.spec_entries(), si as int);
        }
        let sender_balance = self.accounts[si].1;
        if sender_balance < amount {
            return Err(Error::Arithmetic);
        }
        proof {
            lemma_map_of_contains(self.spec_entries(), receiver_id@);
        }
        let ri = match assoc_index_of(&self.accounts, receiver_id) {
            None => return Err(Error::NotFound),
            Some(i) => i,
        };
        proof {
            lemma_map_of_index(self.spec_entries(), ri as int);
            assert(si != ri);
            if si < ri {
                lemma_sum_pair(self.spec_entries(), si as int, ri as int);
            } else {
                lemma_sum_pair(self.spec_entries(), ri as int, si as int);
            }
        }
        let receiver_balance = self.accounts[ri].1;
        let ghost pre = self.spec_entries();
        proof {
            lemma_map_of_update(pre, si as int, (sender_balance - amount) as u128);
            lemma_sum_update(pre, si as int, (sender_id@, (sender_balance - amount) as u128));
        }
        let sender_key = self.accounts[si].0.clone();
        self.accounts[si] = (sender_key, sender_balance - amount);
        proof {
            assert(self.spec_entries() =~= pre.update(
                si as int,
                (sender_id@, (sender_balance - amount) as u128),
            ));
        }
        let ghost mid = self.spec_entries();
        proof {
            assert(forall|x: int| 0 <= x < mid.len() ==> #[trigger] mid[x].0 == pre[x].0);
            assert(unique_keys(mid));
            assert(mid[ri as int].0 == receiver_id@);
            lemma_map_of_update(mid, ri as int, (receiver_balance + amount) as u128);
            lemma_sum_update(mid, ri as int, (receiver_id@, (receiver_balance + amount) as u128));
        }
        let receiver_key = self.accounts[ri].0.clone();
        self.accounts[ri] = (receiver_key, receiver_balance + amount);
        proof {
            assert(self.spec_entries() =~= mid.update(
                ri as int,
                (receiver_id@, (receiver_balance + amount) as u128),
            ));
        }
        Ok(())
    }

    /// Settles a transfer-with-callback once the receiving side's answer
    /// (or its absence) is known. `reported_unused` carries the receiver's
    /// parsed report, or `None` when the callback failed or was unreadable.
    ///
    /// Whatever the receiver did not use is taken back, capped at what the
    /// receiver still holds. The refund goes to the sender if its account
    /// still exists; if the account was removed in the meantime, the
    /// refund is burned — the total supply falls by exactly that amount,
    /// keeping the supply invariant intact. Returns the pair (used amount,
    /// burned amount).
    pub fn resolve_transfer(
        &mut self,
        sender_id: &AccountId,
        receiver_id: &AccountId,
        amount: u128,
        reported_unused: Option<u128>,
    ) -> (r: (u128, u128))
        requires
            old(self).wf(),
        ensures
            final(self).wf(),
            ({
                let refund = spec_refund(*old(self), receiver_id@, amount, reported_unused);
                let rb = old(self).balance(receiver_id@);
                if refund == 0 {
                    *final(self) == *old(self) && r == (amount, 0u128)
                } else if old(self).registered(sender_id@) {
                    let moved = old(self).balances().insert(receiver_id@, (rb - refund) as u128);
                    final(self).balances() == moved.insert(
                        sender_id@,
                        (moved[sender_id@] + refund) as u128,
                    ) && final(self).spec_total() == old(self).spec_total() && r == ((amount
                        - refund) as u128, 0u128)
                } else {
                    final(self).balances() == old(self).balances().insert(
                        receiver_id@,
                        (rb - refund) as u128,
                    ) && final(self).spec_total() as int == old(self).spec_total() - refund && r
                        == (amount, refund)
                }
            }),
    {
        let reported = match reported_unused {
            Some(u) =>
                if u < amount {
                    u
                } else {
                    amount
                },
            None => amount,
        };
        if reported == 0 {
            return (amount, 0);
        }
        proof {
            lemma_map_of_contains(self.spec_entries(), receiver_id@);
        }
        let ri = match assoc_index_of(&self.accounts, receiver_id) {
            None => return (amount, 0),
            Some(i) => i,
        };
        proof {
            lemma_map_of_index(self.spec_entries(), ri as int);
        }
        let receiver_balance = self.accounts[ri].1;
        if receiver_balance == 0 {
            return (amount, 0);
        }
        let refund = if receiver_balance < reported {
            receiver_balance
        } else {
            reported
        };
        let ghost pre = self.spec_entries();
        proof {
            assert(refund == spec_refund(*old(self), receiver_id@, amount, reported_unused));
            lemma_map_of_update(pre, ri as int, (receiver_balance - refund) as u128);
            lemma_sum_update(pre, ri as int, (receiver_id@, (receiver_balance - refund) as u128));
            lemma_sum_element(pre, ri as int);
        }
        let receiver_key = self.accounts[ri].0.clone();
        self.accounts[ri] = (receiver_key, receiver_balance - refund);
        proof {
            assert(self.spec_entries() =~= pre.update(
                ri as int,
                (receiver_id@, (receiver_balance - refund) as u128),
            ));
        }
        let ghost mid = self.spec_entries();
        proof {
            assert(forall|x: int| 0 <= x < mid.len() ==> #[trigger] mid[x].0 == pre[x].0);
            assert(unique_keys(mid));
            lemma_map_of_contains(pre, sender_id@);
            lemma_map_of_contains(mid, sender_id@);
        }
        match assoc_index_of(&self.accounts, sender_id) {
            Some(si) => {
                proof {
                    lemma_map_of_index(mid, si as int);
                    lemma_sum_element(mid, si as int);
                    lemma_map_of_update(mid, si as int, (mid[si as int].1 + refund) as u128);
                    lemma_sum_update(
                        mid,
                        si as int,
                        (sender_id@, (mid[si as int].1 + refund) as u128),
                    );
                }
                let sender_balance = self.accounts[si].1;
                let sender_key = self.accounts[si].0.clone();
                self.accounts[si] = (sender_key, sender_balance + refund);
                proof {
                    assert(self.spec_entries() =~= mid.update(
                        si as int,
                        (sender_id@, (sender_balance + refund) as u128),
                    ));
                }
                (amount - refund, 0)
            },
            None => {
                self.total_supply = self.total_supply - refund;
                (amount, refund)
            },
        }
    }
}

} // verus!
