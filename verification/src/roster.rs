use vstd::prelude::*;

use crate::account::AccountId;
use crate::types::Error;

verus! {

/// True when no two members share a name.
pub open spec fn unique_members(s: Seq<Seq<char>>) -> bool {
    forall|i: int, j: int| 0 <= i < j < s.len() ==> #[trigger] s[i] != #[trigger] s[j]
}

/// The names of a list of accounts, in order.
pub open spec fn names_of(accounts: Seq<AccountId>) -> Seq<Seq<char>> {
    accounts.map_values(|a: AccountId| a@)
}

/// True when the listed accounts are pairwise distinct.
pub open spec fn pairwise_distinct(accounts: Seq<AccountId>) -> bool {
    forall|i: int, j: int| 0 <= i < j < accounts.len() ==> #[trigger] accounts[i]@ != #[trigger] accounts[j]@
}

/// True when none of the listed accounts is already among the members.
pub open spec fn none_present(members: Seq<Seq<char>>, accounts: Seq<AccountId>) -> bool {
    forall|i: int| 0 <= i < accounts.len() ==> !members.contains(#[trigger] accounts[i]@)
}

/// True when every listed account is among the members.
pub open spec fn all_present(members: Seq<Seq<char>>, accounts: Seq<AccountId>) -> bool {
    forall|i: int| 0 <= i < accounts.len() ==> members.contains(#[trigger] accounts[i]@)
}

/// Membership in a sequence extended by one element.
pub proof fn lemma_contains_push(s: Seq<Seq<char>>, x: Seq<char>, b: Seq<char>)
    ensures
        s.push(x).contains(b) <==> (s.contains(b) || b == x),
{
    if s.push(x).contains(b) {
        let k = choose|k: int| 0 <= k < s.push(x).len() && s.push(x)[k] == b;
        if k < s.len() {
            assert(s[k] == b);
        }
    }
    if s.contains(b) {
        let k = choose|k: int| 0 <= k < s.len() && s[k] == b;
        assert(s.push(x)[k] == b);
    }
    if b == x {
        assert(s.push(x)[s.len() as int] == b);
    }
}

/// The guardian roster: a duplicate-free collection of account
/// identities, kept in insertion order.
///
/// Joining with a name that is already present, or leaving with one that
/// is absent, is refused loudly rather than ignored.
pub struct Roster {
    members: Vec<AccountId>,
}

impl Roster {
    /// The members' names, in insertion order.
    pub closed spec fn spec_members(&self) -> Seq<Seq<char>> {
        self.members@.map_values(|a: AccountId| a@)
    }

    /// Whether a name is on the roster.
    pub open spec fn has(&self, a: Seq<char>) -> bool {
        self.spec_members().contains(a)
    }

    /// Well-formedness: no duplicates.
    pub open spec fn wf(&self) -> bool {
        unique_members(self.spec_members())
    }

    /// An empty roster.
    pub fn new() -> (r: Roster)
        ensures
            r.wf(),
            r.spec_members() == Seq::<Seq<char>>::empty(),
    {
        let r = Roster { members: Vec::new() };
        proof {
            assert(r.spec_members() =~= Seq::<Seq<char>>::empty());
        }
        r
    }

    /// Whether an account is on the roster.
    pub fn contains(&self, account_id: &AccountId) -> (r: bool)
        ensures
            r == self.has(account_id@),
    {
        let mut i: usize = 0;
        while i < self.members.len()
            invariant
                i <= self.members.len(),
                forall|j: int| 0 <= j < i ==> self.spec_members()[j] != account_id@,
            decreases self.members.len() - i,
        {
            if self.members[i] == *account_id {
                assert(self.spec_members()[i as int] == account_id@);
                return true;
            }
            assert(self.spec_members()[i as int] != account_id@);
            i += 1;
        }
        false
    }

    /// Adds an account; refused if it is already a member.
    pub fn insert(&mut self, account_id: &AccountId) -> (r: Result<(), Error>)
        requires
            old(self).wf(),
        ensures
            final(self).wf(),
            r is Ok <==> !old(self).has(account_id@),
            r is Ok ==> final(self).spec_members() == old(self).spec_members().push(account_id@),
            r is Err ==> *final(self) == *old(self) && r == Err::<(), Error>(Error::State),
    {
        if self.contains(account_id) {
            return Err(Error::State);
        }
        self.members.push(account_id.clone());
        proof {
            assert(self.spec_members() =~= old(self).spec_members().push(account_id@));
        }
        Ok(())
    }

    /// Removes an account; refused if it is not a member. The relative
    /// order of the remaining members is kept.
    pub fn remove(&mut self, account_id: &AccountId) -> (r: Result<(), Error>)
        requires
            old(self).wf(),
        ensures
            final(self).wf(),
            r is Ok <==> old(self).has(account_id@),
            r is Ok ==> exists|i: int|
                0 <= i < old(self).spec_members().len() && old(self).spec_members()[i]
                    == account_id@ && final(self).spec_members() == old(
                    self,
                ).spec_members().remove(i),
            r is Ok ==> forall|b: Seq<char>|
                #[trigger] final(self).has(b) <==> (old(self).has(b) && b != account_id@),
            r is Ok ==> final(self).spec_members().len() == old(self).spec_members().len() - 1,
            r is Err ==> *final(self) == *old(self) && r == Err::<(), Error>(Error::State),
    {
        let mut i: usize = 0;
        while i < self.members.len()
            invariant
                i <= self.members.len(),
                *self == *old(self),
                old(self).wf(),
                forall|j: int| 0 <= j < i ==> self.spec_members()[j] != account_id@,
            decreases self.members.len() - i,
        {
            if self.members[i] == *account_id {
                assert(self.spec_members()[i as int] == account_id@);
                self.members.remove(i);
                proof {
                    let s = old(self).spec_members();
                    let t = self.spec_members();
                    assert(t =~= s.remove(i as int));
                    assert forall|x: int, y: int| 0 <= x < y < t.len() implies t[x] != t[y] by {
                        let sx: int = if x < i as int {
                            x
                        } else {
                            x + 1
                        };
                        let sy: int = if y < i as int {
                            y
                        } else {
                            y + 1
                        };
                        assert(t[x] == s[sx]);
                        assert(t[y] == s[sy]);
                        assert(s[sx] != s[sy]);
                    }
                    assert forall|b: Seq<char>| #[trigger] t.contains(b) implies (s.contains(b)
                        && b != account_id@) by {
                        let j = choose|j: int| 0 <= j < t.len() && t[j] == b;
                        let sj: int = if j < i as int {
                            j
                        } else {
                            j + 1
                        };
                        assert(t[j] == s[sj]);
                        assert(s[sj] == b);
                        assert(sj != i as int);
                        assert(s[sj] != s[i as int]);
                        assert(s.contains(b));
                    }
                    assert forall|b: Seq<char>| (s.contains(b) && b != account_id@) implies
                        #[trigger] t.contains(b) by {
                        let j = choose|j: int| 0 <= j < s.len() && s[j] == b;
                        assert(j != i as int);
                        if j < i as int {
                            assert(t[j] == b);
                        } else {
                            assert(t[j - 1] == b);
                        }
                    }
                }
                return Ok(());
            }
            assert(self.spec_members()[i as int] != account_id@);
            i += 1;
        }
        Err(Error::State)
    }

    /// A copy of the roster as a plain list, in insertion order.
    pub fn to_vec(&self) -> (r: Vec<AccountId>)
        ensures
            r@.map_values(|a: AccountId| a@) == self.spec_members(),
    {
        let mut out: Vec<AccountId> = Vec::new();
        let mut i: usize = 0;
        while i < self.members.len()
            invariant
                i <= self.members.len(),
                out@.len() == i,
                forall|j: int| 0 <= j < i ==> #[trigger] out@[j]@ == self.spec_members()[j],
            decreases self.members.len() - i,
        {
            out.push(self.members[i].clone());
            i += 1;
        }
        proof {
            assert(out@.map_values(|a: AccountId| a@) =~= self.spec_members());
        }
        out
    }

    /// A second roster with the same members.
    pub fn duplicate(&self) -> (r: Roster)
        ensures
            r.spec_members() == self.spec_members(),
    {
        Roster { members: self.to_vec() }
    }

    /// Rebuilds a roster from a plain member list, as read back from
    /// persistent storage. Refused when the list carries a duplicate.
    pub fn restore(members: Vec<AccountId>) -> (r: Result<Roster, Error>)
        ensures
            r is Ok <==> pairwise_distinct(members@),
            r matches Ok(ro) ==> ro.wf() && ro.spec_members() == names_of(members@),
            r is Err ==> r == Err::<Roster, Error>(Error::State),
    {
        if !check_distinct(&members) {
            return Err(Error::State);
        }
        let ro = Roster { members };
        proof {
            assert(ro.spec_members() =~= names_of(ro.members@));
        }
        Ok(ro)
    }
}

/// Decides whether the listed accounts are pairwise distinct.
pub fn check_distinct(accounts: &Vec<AccountId>) -> (r: bool)
    ensures
        r == pairwise_distinct(accounts@),
{
    let n = accounts.len();
    let mut i: usize = 0;
    while i < n
        invariant
            i <= n,
            n == accounts.len(),
            forall|x: int, y: int|
                0 <= x < y < i ==> #[trigger] accounts@[x]@ != #[trigger] accounts@[y]@,
        decreases n - i,
    {
        let mut j: usize = 0;
        while j < i
            invariant
                j <= i,
                i < n,
                n == accounts.len(),
                forall|x: int, y: int|
                    0 <= x < y < i ==> #[trigger] accounts@[x]@ != #[trigger] accounts@[y]@,
                forall|x: int| 0 <= x < j ==> #[trigger] accounts@[x]@ != accounts@[i as int]@,
            decreases i - j,
        {
            if accounts[j] == accounts[i] {
                return false;
            }
            j += 1;
        }
        i += 1;
    }
    true
}

} // verus!
