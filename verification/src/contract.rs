use vstd::prelude::*;

use crate::account::AccountId;
use crate::assoc::assoc_get;
use crate::assoc::assoc_set;
use crate::assoc::check_unique_keys;
use crate::assoc::keyed;
use crate::assoc::map_of;
use crate::assoc::unique_keys;
use crate::ledger::spec_refund;
use crate::ledger::spec_transfer_error;
use crate::ledger::sum_entries;
use crate::ledger::Ledger;
use crate::metadata::FungibleTokenMetadata;
use crate::roster::all_present;
use crate::roster::lemma_contains_push;
use crate::roster::names_of;
use crate::roster::none_present;
use crate::roster::pairwise_distinct;
use crate::roster::unique_members;
use crate::roster::Roster;
use crate::types::BlackListStatus;
use crate::types::ContractStatus;
use crate::types::Error;

verus! {

/// The version label the contract reports.
pub const VERSION_TAG: &'static str = "tether_token:1.0.0";

/// The status a blacklist records for an account; an account with no
/// entry is `Allowable`.
pub open spec fn status_in(m: Map<Seq<char>, BlackListStatus>, a: Seq<char>) -> BlackListStatus {
    if m.contains_key(a) {
        m[a]
    } else {
        BlackListStatus::Allowable
    }
}

/// Everything the contract's state says, at the specification level.
#[verifier::ext_equal]
pub struct ContractView {
    /// The single account with full administrative authority.
    pub owner_id: Seq<char>,
    /// The pending successor; equal to the owner when nothing is pending.
    pub proposed_owner_id: Seq<char>,
    /// The recorded total supply.
    pub total_supply: u128,
    /// The balance of every registered account.
    pub balances: Map<Seq<char>, u128>,
    /// The guardian identities, in insertion order, without duplicates.
    pub guardians: Seq<Seq<char>>,
    /// The recorded compliance entries.
    pub black_list: Map<Seq<char>, BlackListStatus>,
    /// The circuit breaker.
    pub status: ContractStatus,
    /// The token's descriptive metadata.
    pub metadata: crate::metadata::MetaView,
}

impl ContractView {
    /// Whether a caller is the owner.
    pub open spec fn is_owner(self, caller: Seq<char>) -> bool {
        caller == self.owner_id
    }

    /// Whether a caller is a guardian.
    pub open spec fn is_guardian(self, caller: Seq<char>) -> bool {
        self.guardians.contains(caller)
    }

    /// Whether a caller is the owner or a guardian.
    pub open spec fn is_owner_or_guardian(self, caller: Seq<char>) -> bool {
        self.is_owner(caller) || self.is_guardian(caller)
    }

    /// The compliance status of an account.
    pub open spec fn blacklist_status_of(self, a: Seq<char>) -> BlackListStatus {
        status_in(self.black_list, a)
    }

    /// Whether an account has a balance record.
    pub open spec fn registered(self, a: Seq<char>) -> bool {
        self.balances.contains_key(a)
    }

    /// The balance of an account; zero when it has no record.
    pub open spec fn balance_of(self, a: Seq<char>) -> u128 {
        if self.registered(a) {
            self.balances[a]
        } else {
            0
        }
    }
}

/// Law: exactly one identity is recognized as the authoritative owner —
/// any two identities the state accepts as owner are the same identity.
pub proof fn lemma_owner_unique(v: ContractView, a: Seq<char>, b: Seq<char>)
    requires
        v.is_owner(a),
        v.is_owner(b),
    ensures
        a == b,
{
}

/// Law: banning an account twice leaves the same record as banning it
/// once, and the account then reads back as `Banned`; clearing an account
/// twice likewise leaves it `Allowable`.
pub proof fn lemma_blacklist_idempotent(m: Map<Seq<char>, BlackListStatus>, a: Seq<char>)
    ensures
        m.insert(a, BlackListStatus::Banned).insert(a, BlackListStatus::Banned) == m.insert(
            a,
            BlackListStatus::Banned,
        ),
        status_in(m.insert(a, BlackListStatus::Banned), a) is Banned,
        m.insert(a, BlackListStatus::Allowable).insert(a, BlackListStatus::Allowable) == m.insert(
            a,
            BlackListStatus::Allowable,
        ),
        status_in(m.insert(a, BlackListStatus::Allowable), a) is Allowable,
{
    assert(m.insert(a, BlackListStatus::Banned).insert(a, BlackListStatus::Banned) =~= m.insert(
        a,
        BlackListStatus::Banned,
    ));
    assert(m.insert(a, BlackListStatus::Allowable).insert(a, BlackListStatus::Allowable)
        =~= m.insert(a, BlackListStatus::Allowable));
}

/// A plain-value image of the contract's whole persisted state: what the
/// host's storage layer writes down and reads back across calls and code
/// upgrades. `Contract::snapshot` produces it and `Contract::restore`
/// re-checks every invariant before adopting it.
pub struct PersistedState {
    pub owner_id: AccountId,
    pub proposed_owner_id: AccountId,
    pub total_supply: u128,
    pub balances: Vec<(AccountId, u128)>,
    pub guardians: Vec<AccountId>,
    pub black_list: Vec<(AccountId, BlackListStatus)>,
    pub status: ContractStatus,
    pub metadata: FungibleTokenMetadata,
}

/// The governance and ledger-integrity layer of the token: the owner and
/// its proposed successor, the guardian roster, the compliance blacklist,
/// the circuit breaker, the token ledger and the token metadata.
///
/// Every mutating entry point takes the authenticated caller as an
/// argument, re-checks authorization against the current state, and on
/// any error returns with the state exactly as it was.
pub struct Contract {
    owner_id: AccountId,
    proposed_owner_id: AccountId,
    token: Ledger,
    metadata: FungibleTokenMetadata,
    guardians: Roster,
    black_list: Vec<(AccountId, BlackListStatus)>,
    status: ContractStatus,
}

impl View for Contract {
    type V = ContractView;

    closed spec fn view(&self) -> ContractView {
        ContractView {
            owner_id: self.owner_id@,
            proposed_owner_id: self.proposed_owner_id@,
            total_supply: self.token.spec_total(),
            balances: self.token.balances(),
            guardians: self.guardians.spec_members(),
            black_list: map_of(keyed(self.black_list@)),
            status: self.status,
            metadata: self.metadata@,
        }
    }
}

impl Contract {
    /// The ledger component of the state.
    pub closed spec fn spec_token(&self) -> Ledger {
        self.token
    }

    /// Well-formedness: the ledger invariant holds, the guardian roster
    /// is duplicate-free, and the blacklist has one entry per account.
    pub open spec fn wf(&self) -> bool {
        &&& self.spec_token().wf()
        &&& unique_members(self@.guardians)
        &&& unique_keys(self.spec_blacklist_entries())
        &&& self@.balances == self.spec_token().balances()
        &&& self@.total_supply == self.spec_token().spec_total()
        &&& self@.black_list == map_of(self.spec_blacklist_entries())
    }

    /// The blacklist's entries, keys projected to account names.
    pub closed spec fn spec_blacklist_entries(&self) -> Seq<(Seq<char>, BlackListStatus)> {
        keyed(self.black_list@)
    }

    /// Law: in every well-formed state, the recorded total supply equals
    /// the sum of all account balances.
    pub proof fn lemma_total_supply_is_sum_of_balances(c: &Contract)
        requires
            c.wf(),
        ensures
            c@.total_supply as int == sum_entries(c.spec_token().spec_entries()),
            c@.balances == c.spec_token().balances(),
    {
    }

    /// Rejects while the contract is paused.
    fn abort_if_pause(&self) -> (r: Result<(), Error>)
        ensures
            r is Ok <==> self@.status is Working,
            r is Err ==> r == Err::<(), Error>(Error::State),
    {
        match self.status {
            ContractStatus::Working => Ok(()),
            ContractStatus::Paused => Err(Error::State),
        }
    }

    /// Rejects callers other than the owner.
    fn abort_if_not_owner(&self, caller: &AccountId) -> (r: Result<(), Error>)
        ensures
            r is Ok <==> self@.is_owner(caller@),
            r is Err ==> r == Err::<(), Error>(Error::Authorization),
    {
        if self.owner_id == *caller {
            Ok(())
        } else {
            Err(Error::Authorization)
        }
    }

    /// Rejects callers that are neither the owner nor a guardian.
    fn abort_if_not_owner_or_guardian(&self, caller: &AccountId) -> (r: Result<(), Error>)
        ensures
            r is Ok <==> self@.is_owner_or_guardian(caller@),
            r is Err ==> r == Err::<(), Error>(Error::Authorization),
    {
        if self.owner_id == *caller {
            Ok(())
        } else if self.guardians.contains(caller) {
            Ok(())
        } else {
            Err(Error::Authorization)
        }
    }

    /// Rejects accounts whose recorded compliance status is not
    /// `Allowable`.
    fn abort_if_blacklisted(&self, account_id: &AccountId) -> (r: Result<(), Error>)
        requires
            self.wf(),
        ensures
            r is Ok <==> self@.blacklist_status_of(account_id@) is Allowable,
            r is Err ==> r == Err::<(), Error>(Error::Compliance),
    {
        match assoc_get(&self.black_list, account_id) {
            Some(BlackListStatus::Banned) => Err(Error::Compliance),
            _ => Ok(()),
        }
    }

    /// Initializes the contract: the owner holds the whole initial
    /// supply, the status is `Working`, and no guardian or blacklist
    /// entry exists. Refused when the metadata is invalid.
    pub fn new(owner_id: AccountId, total_supply: u128, metadata: FungibleTokenMetadata) -> (r:
        Result<Contract, Error>)
        ensures
            r is Ok <==> metadata.valid(),
            r matches Ok(c) ==> c.wf() && c@ == (ContractView {
                owner_id: owner_id@,
                proposed_owner_id: owner_id@,
                total_supply: total_supply,
                balances: Map::<Seq<char>, u128>::empty().insert(owner_id@, total_supply),
                guardians: Seq::<Seq<char>>::empty(),
                black_list: Map::<Seq<char>, BlackListStatus>::empty(),
                status: ContractStatus::Working,
                metadata: metadata@,
            }),
            r is Err ==> r == Err::<Contract, Error>(Error::State),
    {
        if !metadata.is_valid() {
            return Err(Error::State);
        }
        let mut token = Ledger::new();
        match token.register_account(&owner_id) {
            Err(_) => return Err(Error::State),
            Ok(()) => (),
        }
        match token.deposit(&owner_id, total_supply) {
            Err(_) => return Err(Error::State),
            Ok(()) => (),
        }
        let proposed_owner_id = owner_id.clone();
        let c = Contract {
            owner_id,
            proposed_owner_id,
            token,
            metadata,
            guardians: Roster::new(),
            black_list: Vec::new(),
            status: ContractStatus::Working,
        };
        proof {
            assert(c.spec_blacklist_entries() =~= Seq::<(Seq<char>, BlackListStatus)>::empty());
            assert(c@.black_list =~= Map::<Seq<char>, BlackListStatus>::empty());
            assert(c@.balances =~= Map::<Seq<char>, u128>::empty().insert(
                c.owner_id@,
                total_supply,
            ));
        }
        Ok(c)
    }

    /// Initializes the contract with the token's default metadata.
    pub fn new_default_meta(owner_id: AccountId, total_supply: u128) -> (r: Result<
        Contract,
        Error,
    >)
        ensures
            r is Ok,
            r matches Ok(c) ==> c.wf() && c@ == (ContractView {
                owner_id: owner_id@,
                proposed_owner_id: owner_id@,
                total_supply: total_supply,
                balances: Map::<Seq<char>, u128>::empty().insert(owner_id@, total_supply),
                guardians: Seq::<Seq<char>>::empty(),
                black_list: Map::<Seq<char>, BlackListStatus>::empty(),
                status: ContractStatus::Working,
                metadata: (crate::metadata::MetaView {
                    spec_version: crate::metadata::FT_METADATA_SPEC@,
                    name: "Tether USD"@,
                    symbol: "USDt"@,
                    icon: Some(crate::metadata::DATA_IMAGE_SVG_NEAR_ICON@),
                    reference: None,
                    reference_hash: None,
                    decimals: 6,
                }),
            }),
    {
        Self::new(owner_id, total_supply, FungibleTokenMetadata::default_meta())
    }

    /// Records a proposed successor for the ownership. Owner-only. A
    /// proposal naming the current owner makes acceptance impossible.
    pub fn propose_new_owner(&mut self, caller: &AccountId, proposed_owner_id: AccountId) -> (r:
        Result<(), Error>)
        requires
            old(self).wf(),
        ensures
            final(self).wf(),
            r is Ok <==> old(self)@.is_owner(caller@),
            r is Ok ==> final(self)@ == (ContractView {
                proposed_owner_id: proposed_owner_id@,
                ..old(self)@
            }),
            r is Err ==> *final(self) == *old(self) && r == Err::<(), Error>(Error::Authorization),
    {
        match self.abort_if_not_owner(caller) {
            Err(e) => Err(e),
            Ok(()) => {
                self.proposed_owner_id = proposed_owner_id;
                Ok(())
            },
        }
    }

    /// Completes an ownership transfer: only the proposed successor may
    /// accept, and only while a proposal distinct from the current owner
    /// is pending. On success the successor becomes the owner.
    pub fn accept_ownership(&mut self, caller: &AccountId) -> (r: Result<(), Error>)
        requires
            old(self).wf(),
        ensures
            final(self).wf(),
            r is Ok <==> (old(self)@.proposed_owner_id != old(self)@.owner_id && caller@ == old(
                self,
            )@.proposed_owner_id),
            r is Ok ==> final(self)@ == (ContractView {
                owner_id: old(self)@.proposed_owner_id,
                ..old(self)@
            }),
            r is Err ==> *final(self) == *old(self) && r == Err::<(), Error>(
                if old(self)@.proposed_owner_id == old(self)@.owner_id {
                    Error::State
                } else {
                    Error::Authorization
                },
            ),
    {
        if self.owner_id == self.proposed_owner_id {
            return Err(Error::State);
        }
        if !(*caller == self.proposed_owner_id) {
            return Err(Error::Authorization);
        }
        self.owner_id = self.proposed_owner_id.clone();
        Ok(())
    }

    /// Trips the circuit breaker. The contract must be working, and the
    /// caller must be the owner or a guardian.
    pub fn pause(&mut self, caller: &AccountId) -> (r: Result<(), Error>)
        requires
            old(self).wf(),
        ensures
            final(self).wf(),
            r is Ok <==> (old(self)@.status is Working && old(self)@.is_owner_or_guardian(
                caller@,
            )),
            r is Ok ==> final(self)@ == (ContractView { status: ContractStatus::Paused, ..old(
                self,
            )@ }),
            r is Err ==> *final(self) == *old(self) && r == Err::<(), Error>(
                if !(old(self)@.status is Working) {
                    Error::State
                } else {
                    Error::Authorization
                },
            ),
    {
        match self.status {
            ContractStatus::Paused => Err(Error::State),
            ContractStatus::Working => match self.abort_if_not_owner_or_guardian(caller) {
                Err(e) => Err(e),
                Ok(()) => {
                    self.status = ContractStatus::Paused;
                    Ok(())
                },
            },
        }
    }

    /// Releases the circuit breaker. The contract must be paused, and the
    /// caller must be the owner or a guardian.
    pub fn resume(&mut self, caller: &AccountId) -> (r: Result<(), Error>)
        requires
            old(self).wf(),
        ensures
            final(self).wf(),
            r is Ok <==> (old(self)@.status is Paused && old(self)@.is_owner_or_guardian(caller@)),
            r is Ok ==> final(self)@ == (ContractView { status: ContractStatus::Working, ..old(
                self,
            )@ }),
            r is Err ==> *final(self) == *old(self) && r == Err::<(), Error>(
                if !(old(self)@.status is Paused) {
                    Error::State
                } else {
                    Error::Authorization
                },
            ),
    {
        match self.status {
            ContractStatus::Working => Err(Error::State),
            ContractStatus::Paused => match self.abort_if_not_owner_or_guardian(caller) {
                Err(e) => Err(e),
                Ok(()) => {
                    self.status = ContractStatus::Working;
                    Ok(())
                },
            },
        }
    }

    /// The current circuit-breaker status. Readable even while paused.
    pub fn contract_status(&self) -> (r: ContractStatus)
        ensures
            r == self@.status,
    {
        self.status
    }

    /// The current owner.
    pub fn owner(&self) -> (r: AccountId)
        ensures
            r@ == self@.owner_id,
    {
        self.owner_id.clone()
    }

    /// The guardian identities, in insertion order.
    pub fn guardians(&self) -> (r: Vec<AccountId>)
        ensures
            r@.map_values(|a: AccountId| a@) == self@.guardians,
    {
        self.guardians.to_vec()
    }

    /// The crate's version label.
    pub fn version(&self) -> (r: String)
        ensures
            r@ == VERSION_TAG@,
    {
        VERSION_TAG.to_owned()
    }

    /// Enrolls a list of new guardians. Owner-only. Each entry is
    /// processed in order, and the whole call is refused — with no state
    /// change — as soon as one entry is already a guardian or repeats an
    /// earlier entry.
    pub fn extend_guardians(&mut self, caller: &AccountId, guardians: Vec<AccountId>) -> (r:
        Result<(), Error>)
        requires
            old(self).wf(),
        ensures
            final(self).wf(),
            r is Ok <==> (old(self)@.is_owner(caller@) && pairwise_distinct(guardians@)
                && none_present(old(self)@.guardians, guardians@)),
            r is Ok ==> final(self)@ == (ContractView {
                guardians: old(self)@.guardians + names_of(guardians@),
                ..old(self)@
            }),
            r is Err ==> *final(self) == *old(self) && r == Err::<(), Error>(
                if !old(self)@.is_owner(caller@) {
                    Error::Authorization
                } else {
                    Error::State
                },
            ),
    {
        match self.abort_if_not_owner(caller) {
            Err(e) => return Err(e),
            Ok(()) => (),
        }
        let mut updated = self.guardians.duplicate();
        let mut i: usize = 0;
        while i < guardians.len()
            invariant
                i <= guardians.len(),
                *self == *old(self),
                old(self).wf(),
                old(self)@.is_owner(caller@),
                updated.wf(),
                updated.spec_members() == old(self)@.guardians + names_of(
                    guardians@.subrange(0, i as int),
                ),
                forall|x: int, y: int|
                    0 <= x < y < i ==> #[trigger] guardians@[x]@ != #[trigger] guardians@[y]@,
                forall|x: int|
                    0 <= x < i ==> !old(self)@.guardians.contains(#[trigger] guardians@[x]@),
            decreases guardians.len() - i,
        {
            let ghost s = old(self)@.guardians;
            let ghost pre = names_of(guardians@.subrange(0, i as int));
            let ghost g = guardians@[i as int]@;
            match updated.insert(&guardians[i]) {
                Err(_) => {
                    proof {
                        assert((s + pre).contains(g));
                        let k = choose|k: int| 0 <= k < (s + pre).len() && (s + pre)[k] == g;
                        if k < s.len() {
                            assert(s[k] == g);
                            assert(s.contains(g));
                            assert(!none_present(s, guardians@));
                        } else {
                            assert(pre[k - s.len()] == g);
                            assert(guardians@[k - s.len()]@ == g);
                            assert(!pairwise_distinct(guardians@));
                        }
                    }
                    return Err(Error::State);
                },
                Ok(()) => {
                    proof {
                        assert(!(s + pre).contains(g));
                        assert(names_of(guardians@.subrange(0, i as int + 1)) =~= pre.push(g));
                        assert(updated.spec_members() =~= s + names_of(
                            guardians@.subrange(0, i as int + 1),
                        ));
                        assert forall|x: int| 0 <= x < i implies #[trigger] guardians@[x]@
                            != g by {
                            assert(pre[x] == guardians@[x]@);
                            if guardians@[x]@ == g {
                                assert((s + pre)[s.len() + x] == g);
                            }
                        }
                        assert(!s.contains(g)) by {
                            if s.contains(g) {
                                let k = choose|k: int| 0 <= k < s.len() && s[k] == g;
                                assert((s + pre)[k] == g);
                            }
                        }
                    }
                },
            }
            i += 1;
        }
        proof {
            assert(guardians@.subrange(0, guardians@.len() as int) =~= guardians@);
        }
        self.guardians = updated;
        Ok(())
    }

    /// Dismisses a list of guardians. Owner-only. Each entry is processed
    /// in order, and the whole call is refused — with no state change —
    /// as soon as one entry is not a guardian or repeats an earlier
    /// entry. The surviving members keep their relative order.
    pub fn remove_guardians(&mut self, caller: &AccountId, guardians: Vec<AccountId>) -> (r:
        Result<(), Error>)
        requires
            old(self).wf(),
        ensures
            final(self).wf(),
            r is Ok <==> (old(self)@.is_owner(caller@) && pairwise_distinct(guardians@)
                && all_present(old(self)@.guardians, guardians@)),
            r is Ok ==> forall|b: Seq<char>|
                #[trigger] final(self)@.guardians.contains(b) <==> (old(
                    self,
                )@.guardians.contains(b) && !names_of(guardians@).contains(b)),
            r is Ok ==> final(self)@.guardians.len() == old(self)@.guardians.len()
                - guardians@.len(),
            r is Ok ==> final(self)@ == (ContractView {
                guardians: final(self)@.guardians,
                ..old(self)@
            }),
            r is Err ==> *final(self) == *old(self) && r == Err::<(), Error>(
                if !old(self)@.is_owner(caller@) {
                    Error::Authorization
                } else {
                    Error::State
                },
            ),
    {
        match self.abort_if_not_owner(caller) {
            Err(e) => return Err(e),
            Ok(()) => (),
        }
        let mut updated = self.guardians.duplicate();
        let mut i: usize = 0;
        while i < guardians.len()
            invariant
                i <= guardians.len(),
                *self == *old(self),
                old(self).wf(),
                old(self)@.is_owner(caller@),
                updated.wf(),
                updated.spec_members().len() == old(self)@.guardians.len() - i,
                forall|b: Seq<char>|
                    #[trigger] updated.has(b) <==> (old(self)@.guardians.contains(b) && !names_of(
                        guardians@.subrange(0, i as int),
                    ).contains(b)),
                forall|x: int, y: int|
                    0 <= x < y < i ==> #[trigger] guardians@[x]@ != #[trigger] guardians@[y]@,
                forall|x: int|
                    0 <= x < i ==> old(self)@.guardians.contains(#[trigger] guardians@[x]@),
            decreases guardians.len() - i,
        {
            let ghost pre_names = names_of(guardians@.subrange(0, i as int));
            let ghost g = guardians@[i as int]@;
            let ghost had = updated.has(g);
            proof {
                assert(names_of(guardians@.subrange(0, i as int + 1)) =~= pre_names.push(g));
            }
            match updated.remove(&guardians[i]) {
                Err(_) => {
                    proof {
                        assert(!had);
                        if old(self)@.guardians.contains(g) {
                            assert(pre_names.contains(g));
                            let k = choose|k: int| 0 <= k < pre_names.len() && pre_names[k] == g;
                            assert(guardians@[k]@ == g);
                            assert(!pairwise_distinct(guardians@));
                        } else {
                            assert(!all_present(old(self)@.guardians, guardians@));
                        }
                    }
                    return Err(Error::State);
                },
                Ok(()) => {
                    proof {
                        assert(had);
                        assert(!pre_names.contains(g));
                        assert forall|x: int| 0 <= x < i implies #[trigger] guardians@[x]@
                            != g by {
                            assert(pre_names[x] == guardians@[x]@);
                            if guardians@[x]@ == g {
                                assert(pre_names.contains(g));
                            }
                        }
                        assert forall|b: Seq<char>| #[trigger] updated.has(b) <==> (old(
                            self,
                        )@.guardians.contains(b) && !names_of(
                            guardians@.subrange(0, i as int + 1),
                        ).contains(b)) by {
                            lemma_contains_push(pre_names, g, b);
                        }
                    }
                },
            }
            i += 1;
        }
        proof {
            assert(guardians@.subrange(0, guardians@.len() as int) =~= guardians@);
        }
        self.guardians = updated;
        proof {
            assert forall|b: Seq<char>| #[trigger] self@.guardians.contains(b) <==> (old(
                self,
            )@.guardians.contains(b) && !names_of(guardians@).contains(b)) by {
                assert(updated.has(b) <==> (old(self)@.guardians.contains(b) && !names_of(
                    guardians@.subrange(0, guardians@.len() as int),
                ).contains(b)));
            }
        }
        Ok(())
    }

    /// The compliance status of an account. Rejected while paused.
    pub fn get_blacklist_status(&self, account_id: &AccountId) -> (r: Result<
        BlackListStatus,
        Error,
    >)
        requires
            self.wf(),
        ensures
            r is Ok <==> self@.status is Working,
            r matches Ok(st) ==> st == self@.blacklist_status_of(account_id@),
            r is Err ==> r == Err::<BlackListStatus, Error>(Error::State),
    {
        match self.abort_if_pause() {
            Err(e) => Err(e),
            Ok(()) => match assoc_get(&self.black_list, account_id) {
                Some(st) => Ok(st),
                None => Ok(BlackListStatus::Allowable),
            },
        }
    }

    /// Records an account as `Banned`. Owner-only, and only while
    /// working. Banning an already-banned account is a no-op write.
    pub fn add_to_blacklist(&mut self, caller: &AccountId, account_id: &AccountId) -> (r: Result<
        (),
        Error,
    >)
        requires
            old(self).wf(),
        ensures
            final(self).wf(),
            r is Ok <==> (old(self)@.is_owner(caller@) && old(self)@.status is Working),
            r is Ok ==> final(self)@ == (ContractView {
                black_list: old(self)@.black_list.insert(account_id@, BlackListStatus::Banned),
                ..old(self)@
            }),
            r is Err ==> *final(self) == *old(self) && r == Err::<(), Error>(
                if !old(self)@.is_owner(caller@) {
                    Error::Authorization
                } else {
                    Error::State
                },
            ),
    {
        match self.abort_if_not_owner(caller) {
            Err(e) => return Err(e),
            Ok(()) => (),
        }
        match self.abort_if_pause() {
            Err(e) => return Err(e),
            Ok(()) => (),
        }
        assoc_set(&mut self.black_list, account_id, BlackListStatus::Banned);
        Ok(())
    }

    /// Records an account as `Allowable`. Owner-only, and only while
    /// working. Clearing an already-allowable account is a no-op write.
    pub fn remove_from_blacklist(&mut self, caller: &AccountId, account_id: &AccountId) -> (r:
        Result<(), Error>)
        requires
            old(self).wf(),
        ensures
            final(self).wf(),
            r is Ok <==> (old(self)@.is_owner(caller@) && old(self)@.status is Working),
            r is Ok ==> final(self)@ == (ContractView {
                black_list: old(self)@.black_list.insert(account_id@, BlackListStatus::Allowable),
                ..old(self)@
            }),
            r is Err ==> *final(self) == *old(self) && r == Err::<(), Error>(
                if !old(self)@.is_owner(caller@) {
                    Error::Authorization
                } else {
                    Error::State
                },
            ),
    {
        match self.abort_if_not_owner(caller) {
            Err(e) => return Err(e),
            Ok(()) => (),
        }
        match self.abort_if_pause() {
            Err(e) => return Err(e),
            Ok(()) => (),
        }
        assoc_set(&mut self.black_list, account_id, BlackListStatus::Allowable);
        Ok(())
    }

    /// Confiscates everything a banned account holds: its balance is set
    /// to zero and the total supply falls by the seized amount. Owner-
    /// only, only while working, only against an account whose recorded
    /// status is exactly `Banned`, and only when there is something to
    /// seize.
    pub fn destroy_black_funds(&mut self, caller: &AccountId, account_id: &AccountId) -> (r:
        Result<(), Error>)
        requires
            old(self).wf(),
        ensures
            final(self).wf(),
            r is Ok <==> (old(self)@.is_owner(caller@) && old(self)@.status is Working && old(
                self,
            )@.blacklist_status_of(account_id@) is Banned && old(self)@.balance_of(account_id@)
                > 0),
            r is Ok ==> final(self)@ == (ContractView {
                total_supply: (old(self)@.total_supply - old(self)@.balance_of(
                    account_id@,
                )) as u128,
                balances: old(self)@.balances.insert(account_id@, 0),
                ..old(self)@
            }),
            r is Err ==> *final(self) == *old(self) && r == Err::<(), Error>(
                if !old(self)@.is_owner(caller@) {
                    Error::Authorization
                } else if !(old(self)@.status is Working) {
                    Error::State
                } else if !(old(self)@.blacklist_status_of(account_id@) is Banned) {
                    Error::Compliance
                } else {
                    Error::State
                },
            ),
    {
        match self.abort_if_not_owner(caller) {
            Err(e) => return Err(e),
            Ok(()) => (),
        }
        match self.abort_if_pause() {
            Err(e) => return Err(e),
            Ok(()) => (),
        }
        match assoc_get(&self.black_list, account_id) {
            Some(BlackListStatus::Banned) => (),
            _ => return Err(Error::Compliance),
        }
        let black_balance = self.token.balance_of(account_id);
        if black_balance == 0 {
            return Err(Error::State);
        }
        match self.token.withdraw(account_id, black_balance) {
            Err(_) => Err(Error::State),
            Ok(()) => Ok(()),
        }
    }

    /// Creates tokens out of thin air and credits them to an account,
    /// raising the total supply by the same amount. Owner-only, and only
    /// while working. An account with no balance record gets one.
    pub fn mint(&mut self, caller: &AccountId, account_id: &AccountId, amount: u128) -> (r: Result<
        (),
        Error,
    >)
        requires
            old(self).wf(),
        ensures
            final(self).wf(),
            r is Ok <==> (old(self)@.is_owner(caller@) && old(self)@.status is Working && old(
                self,
            )@.balance_of(account_id@) + amount <= u128::MAX && old(self)@.total_supply + amount
                <= u128::MAX),
            r is Ok ==> final(self)@ == (ContractView {
                total_supply: (old(self)@.total_supply + amount) as u128,
                balances: old(self)@.balances.insert(
                    account_id@,
                    (old(self)@.balance_of(account_id@) + amount) as u128,
                ),
                ..old(self)@
            }),
            r is Err ==> *final(self) == *old(self) && r == Err::<(), Error>(
                if !old(self)@.is_owner(caller@) {
                    Error::Authorization
                } else if !(old(self)@.status is Working) {
                    Error::State
                } else {
                    Error::Arithmetic
                },
            ),
    {
        match self.abort_if_not_owner(caller) {
            Err(e) => return Err(e),
            Ok(()) => (),
        }
        match self.abort_if_pause() {
            Err(e) => return Err(e),
            Ok(()) => (),
        }
        let bal = self.token.balance_of(account_id);
        if amount > u128::MAX - bal {
            return Err(Error::Arithmetic);
        }
        if amount > u128::MAX - self.token.total_supply() {
            return Err(Error::Arithmetic);
        }
        if !self.token.is_registered(account_id) {
            match self.token.register_account(account_id) {
                Err(_) => return Err(Error::Arithmetic),
                Ok(()) => (),
            }
        }
        match self.token.deposit(account_id, amount) {
            Err(_) => Err(Error::Arithmetic),
            Ok(()) => {
                proof {
                    assert(final(self)@.balances =~= old(self)@.balances.insert(
                        account_id@,
                        (old(self)@.balance_of(account_id@) + amount) as u128,
                    ));
                }
                Ok(())
            },
        }
    }

    /// Issues new tokens into the owner's own account. Owner-only.
    pub fn issue(&mut self, caller: &AccountId, amount: u128) -> (r: Result<(), Error>)
        requires
            old(self).wf(),
        ensures
            final(self).wf(),
            r is Ok <==> (old(self)@.is_owner(caller@) && old(self)@.status is Working && old(
                self,
            )@.balance_of(old(self)@.owner_id) + amount <= u128::MAX && old(self)@.total_supply
                + amount <= u128::MAX),
            r is Ok ==> final(self)@ == (ContractView {
                total_supply: (old(self)@.total_supply + amount) as u128,
                balances: old(self)@.balances.insert(
                    old(self)@.owner_id,
                    (old(self)@.balance_of(old(self)@.owner_id) + amount) as u128,
                ),
                ..old(self)@
            }),
            r is Err ==> *final(self) == *old(self) && r == Err::<(), Error>(
                if !old(self)@.is_owner(caller@) {
                    Error::Authorization
                } else if !(old(self)@.status is Working) {
                    Error::State
                } else {
                    Error::Arithmetic
                },
            ),
    {
        match self.abort_if_not_owner(caller) {
            Err(e) => return Err(e),
            Ok(()) => (),
        }
        let owner_account = self.owner_id.clone();
        self.mint(caller, &owner_account, amount)
    }

    /// Destroys tokens held by an account, lowering the total supply by
    /// the same amount. Owner-only, only while working; the account must
    /// be registered and hold at least the amount.
    pub fn burn(&mut self, caller: &AccountId, account_id: &AccountId, amount: u128) -> (r: Result<
        (),
        Error,
    >)
        requires
            old(self).wf(),
        ensures
            final(self).wf(),
            r is Ok <==> (old(self)@.is_owner(caller@) && old(self)@.status is Working && old(
                self,
            )@.registered(account_id@) && old(self)@.balance_of(account_id@) >= amount),
            r is Ok ==> final(self)@ == (ContractView {
                total_supply: (old(self)@.total_supply - amount) as u128,
                balances: old(self)@.balances.insert(
                    account_id@,
                    (old(self)@.balance_of(account_id@) - amount) as u128,
                ),
                ..old(self)@
            }),
            r is Err ==> *final(self) == *old(self) && r == Err::<(), Error>(
                if !old(self)@.is_owner(caller@) {
                    Error::Authorization
                } else if !(old(self)@.status is Working) {
                    Error::State
                } else if !old(self)@.registered(account_id@) {
                    Error::NotFound
                } else {
                    Error::Arithmetic
                },
            ),
    {
        match self.abort_if_not_owner(caller) {
            Err(e) => return Err(e),
            Ok(()) => (),
        }
        match self.abort_if_pause() {
            Err(e) => return Err(e),
            Ok(()) => (),
        }
        match self.token.withdraw(account_id, amount) {
            Err(e) => Err(e),
            Ok(()) => Ok(()),
        }
    }

    /// Redeems tokens from the owner's own account. Owner-only.
    pub fn redeem(&mut self, caller: &AccountId, amount: u128) -> (r: Result<(), Error>)
        requires
            old(self).wf(),
        ensures
            final(self).wf(),
            r is Ok <==> (old(self)@.is_owner(caller@) && old(self)@.status is Working && old(
                self,
            )@.registered(old(self)@.owner_id) && old(self)@.balance_of(old(self)@.owner_id)
                >= amount),
            r is Ok ==> final(self)@ == (ContractView {
                total_supply: (old(self)@.total_supply - amount) as u128,
                balances: old(self)@.balances.insert(
                    old(self)@.owner_id,
                    (old(self)@.balance_of(old(self)@.owner_id) - amount) as u128,
                ),
                ..old(self)@
            }),
            r is Err ==> *final(self) == *old(self) && r == Err::<(), Error>(
                if !old(self)@.is_owner(caller@) {
                    Error::Authorization
                } else if !(old(self)@.status is Working) {
                    Error::State
                } else if !old(self)@.registered(old(self)@.owner_id) {
                    Error::NotFound
                } else {
                    Error::Arithmetic
                },
            ),
    {
        match self.abort_if_not_owner(caller) {
            Err(e) => return Err(e),
            Ok(()) => (),
        }
        let owner_account = self.owner_id.clone();
        self.burn(caller, &owner_account, amount)
    }

    /// The token's name. Rejected while paused.
    pub fn name(&self) -> (r: Result<String, Error>)
        ensures
            r is Ok <==> self@.status is Working,
            r matches Ok(s) ==> s@ == self@.metadata.name,
            r is Err ==> r == Err::<String, Error>(Error::State),
    {
        match self.abort_if_pause() {
            Err(e) => Err(e),
            Ok(()) => Ok(self.metadata.name.clone()),
        }
    }

    /// The token's symbol. Rejected while paused.
    pub fn symbol(&self) -> (r: Result<String, Error>)
        ensures
            r is Ok <==> self@.status is Working,
            r matches Ok(s) ==> s@ == self@.metadata.symbol,
            r is Err ==> r == Err::<String, Error>(Error::State),
    {
        match self.abort_if_pause() {
            Err(e) => Err(e),
            Ok(()) => Ok(self.metadata.symbol.clone()),
        }
    }

    /// The token's decimal places. Rejected while paused.
    pub fn decimals(&self) -> (r: Result<u8, Error>)
        ensures
            r is Ok <==> self@.status is Working,
            r matches Ok(d) ==> d == self@.metadata.decimals,
            r is Err ==> r == Err::<u8, Error>(Error::State),
    {
        match self.abort_if_pause() {
            Err(e) => Err(e),
            Ok(()) => Ok(self.metadata.decimals),
        }
    }

    /// A copy of the token's metadata record.
    pub fn ft_metadata(&self) -> (r: FungibleTokenMetadata)
        ensures
            r@ == self@.metadata,
    {
        self.metadata.clone()
    }

    /// Renames the token. Owner-only.
    pub fn upgrade_name_symbol(&mut self, caller: &AccountId, name: String, symbol: String) -> (r:
        Result<(), Error>)
        requires
            old(self).wf(),
        ensures
            final(self).wf(),
            r is Ok <==> old(self)@.is_owner(caller@),
            r is Ok ==> final(self)@ == (ContractView {
                metadata: (crate::metadata::MetaView {
                    name: name@,
                    symbol: symbol@,
                    ..old(self)@.metadata
                }),
                ..old(self)@
            }),
            r is Err ==> *final(self) == *old(self) && r == Err::<(), Error>(Error::Authorization),
    {
        match self.abort_if_not_owner(caller) {
            Err(e) => return Err(e),
            Ok(()) => (),
        }
        self.metadata.name = name;
        self.metadata.symbol = symbol;
        Ok(())
    }

    /// Moves tokens from the caller's account to a receiver. The caller
    /// is the authenticated sender — the compliance gate is applied to
    /// the identity that authorized the call, never to a parameter.
    /// Rejected while paused and for banned senders; the transfer itself
    /// follows the ledger's rules. The memo is audit-log material and
    /// does not influence the outcome.
    #[allow(unused_variables)]
    pub fn ft_transfer(
        &mut self,
        caller: &AccountId,
        receiver_id: &AccountId,
        amount: u128,
        memo: Option<String>,
    ) -> (r: Result<(), Error>)
        requires
            old(self).wf(),
        ensures
            final(self).wf(),
            r is Ok <==> (old(self)@.status is Working && old(self)@.blacklist_status_of(
                caller@,
            ) is Allowable && caller@ != receiver_id@ && amount > 0 && old(self)@.registered(
                caller@,
            ) && old(self)@.registered(receiver_id@) && old(self)@.balance_of(caller@) >= amount),
            r is Ok ==> final(self)@ == (ContractView {
                balances: old(self)@.balances.insert(
                    caller@,
                    (old(self)@.balance_of(caller@) - amount) as u128,
                ).insert(receiver_id@, (old(self)@.balance_of(receiver_id@) + amount) as u128),
                ..old(self)@
            }),
            r is Err ==> *final(self) == *old(self) && r == Err::<(), Error>(
                if !(old(self)@.status is Working) {
                    Error::State
                } else if !(old(self)@.blacklist_status_of(caller@) is Allowable) {
                    Error::Compliance
                } else {
                    spec_transfer_error(old(self).spec_token(), caller@, receiver_id@, amount)
                },
            ),
    {
        match self.abort_if_pause() {
            Err(e) => return Err(e),
            Ok(()) => (),
        }
        match self.abort_if_blacklisted(caller) {
            Err(e) => return Err(e),
            Ok(()) => (),
        }
        match self.token.transfer(caller, receiver_id, amount) {
            Err(e) => Err(e),
            Ok(()) => Ok(()),
        }
    }

    /// Like `ft_transfer`, but the moved amount is then offered to the
    /// receiving contract, whose answer arrives later through
    /// `ft_resolve_transfer`. This entry point only decides and performs
    /// the transfer leg; scheduling the receiver call and the resolution
    /// callback — and the message handed to the receiver — are the host
    /// shim's work.
    #[allow(unused_variables)]
    pub fn ft_transfer_call(
        &mut self,
        caller: &AccountId,
        receiver_id: &AccountId,
        amount: u128,
        memo: Option<String>,
        msg: String,
    ) -> (r: Result<(), Error>)
        requires
            old(self).wf(),
        ensures
            final(self).wf(),
            r is Ok <==> (old(self)@.status is Working && old(self)@.blacklist_status_of(
                caller@,
            ) is Allowable && caller@ != receiver_id@ && amount > 0 && old(self)@.registered(
                caller@,
            ) && old(self)@.registered(receiver_id@) && old(self)@.balance_of(caller@) >= amount),
            r is Ok ==> final(self)@ == (ContractView {
                balances: old(self)@.balances.insert(
                    caller@,
                    (old(self)@.balance_of(caller@) - amount) as u128,
                ).insert(receiver_id@, (old(self)@.balance_of(receiver_id@) + amount) as u128),
                ..old(self)@
            }),
            r is Err ==> *final(self) == *old(self) && r == Err::<(), Error>(
                if !(old(self)@.status is Working) {
                    Error::State
                } else if !(old(self)@.blacklist_status_of(caller@) is Allowable) {
                    Error::Compliance
                } else {
                    spec_transfer_error(old(self).spec_token(), caller@, receiver_id@, amount)
                },
            ),
    {
        match self.abort_if_pause() {
            Err(e) => return Err(e),
            Ok(()) => (),
        }
        match self.abort_if_blacklisted(caller) {
            Err(e) => return Err(e),
            Ok(()) => (),
        }
        match self.token.transfer(caller, receiver_id, amount) {
            Err(e) => Err(e),
            Ok(()) => Ok(()),
        }
    }

    /// The total supply. Rejected while paused.
    pub fn ft_total_supply(&self) -> (r: Result<u128, Error>)
        ensures
            r is Ok <==> self@.status is Working,
            r matches Ok(t) ==> t == self@.total_supply,
            r is Err ==> r == Err::<u128, Error>(Error::State),
    {
        match self.abort_if_pause() {
            Err(e) => Err(e),
            Ok(()) => Ok(self.token.total_supply()),
        }
    }

    /// The balance of an account; zero when it has no record. Rejected
    /// while paused.
    pub fn ft_balance_of(&self, account_id: &AccountId) -> (r: Result<u128, Error>)
        requires
            self.wf(),
        ensures
            r is Ok <==> self@.status is Working,
            r matches Ok(b) ==> b == self@.balance_of(account_id@),
            r is Err ==> r == Err::<u128, Error>(Error::State),
    {
        match self.abort_if_pause() {
            Err(e) => Err(e),
            Ok(()) => Ok(self.token.balance_of(account_id)),
        }
    }

    /// Settles a transfer-with-callback once the receiver's answer (or
    /// its absence) is known. Only the contract itself — the host,
    /// running the scheduled callback — may call this: the caller must
    /// be the contract's own identity. Returns (used amount, burned
    /// amount); a burned amount arises only when the refund's owner
    /// disappeared mid-flight, and the total supply falls by exactly
    /// that amount.
    pub fn ft_resolve_transfer(
        &mut self,
        caller: &AccountId,
        contract_id: &AccountId,
        sender_id: &AccountId,
        receiver_id: &AccountId,
        amount: u128,
        reported_unused: Option<u128>,
    ) -> (r: Result<(u128, u128), Error>)
        requires
            old(self).wf(),
        ensures
            final(self).wf(),
            r is Ok <==> caller@ == contract_id@,
            r is Err ==> *final(self) == *old(self) && r == Err::<(u128, u128), Error>(
                Error::Authorization,
            ),
            r matches Ok(out) ==> ({
                let refund = spec_refund(
                    old(self).spec_token(),
                    receiver_id@,
                    amount,
                    reported_unused,
                );
                let rb = old(self)@.balance_of(receiver_id@);
                &&& final(self)@ == (ContractView {
                    total_supply: final(self)@.total_supply,
                    balances: final(self)@.balances,
                    ..old(self)@
                })
                &&& if refund == 0 {
                    *final(self) == *old(self) && out == (amount, 0u128)
                } else if old(self)@.registered(sender_id@) {
                    let moved = old(self)@.balances.insert(receiver_id@, (rb - refund) as u128);
                    &&& final(self)@.balances == moved.insert(
                        sender_id@,
                        (moved[sender_id@] + refund) as u128,
                    )
                    &&& final(self)@.total_supply == old(self)@.total_supply
                    &&& out == ((amount - refund) as u128, 0u128)
                } else {
                    &&& final(self)@.balances == old(self)@.balances.insert(
                        receiver_id@,
                        (rb - refund) as u128,
                    )
                    &&& final(self)@.total_supply as int == old(self)@.total_supply - refund
                    &&& out == (amount, refund)
                }
            }),
    {
        if !(*caller == *contract_id) {
            return Err(Error::Authorization);
        }
        let out = self.token.resolve_transfer(sender_id, receiver_id, amount, reported_unused);
        Ok(out)
    }

    /// Creates a zero-balance record for a new account, as the storage
    /// layer does on a paid registration. Refused when the account is
    /// already registered.
    pub fn internal_register_account(&mut self, account_id: &AccountId) -> (r: Result<(), Error>)
        requires
            old(self).wf(),
        ensures
            final(self).wf(),
            r is Ok <==> !old(self)@.registered(account_id@),
            r is Ok ==> final(self)@ == (ContractView {
                balances: old(self)@.balances.insert(account_id@, 0),
                ..old(self)@
            }),
            r is Err ==> *final(self) == *old(self) && r == Err::<(), Error>(Error::State),
    {
        match self.token.register_account(account_id) {
            Err(e) => Err(e),
            Ok(()) => Ok(()),
        }
    }

    /// Removes the caller's own balance record, as the storage layer
    /// does on unregistration. Without `force` the balance must be zero;
    /// with `force` whatever the account still held is burned, lowering
    /// the total supply by the same amount. Returns the burned balance.
    pub fn internal_storage_unregister(&mut self, caller: &AccountId, force: bool) -> (r: Result<
        u128,
        Error,
    >)
        requires
            old(self).wf(),
        ensures
            final(self).wf(),
            r is Ok <==> (old(self)@.registered(caller@) && (force || old(self)@.balance_of(
                caller@,
            ) == 0)),
            r matches Ok(b) ==> b == old(self)@.balance_of(caller@) && final(self)@
                == (ContractView {
                total_supply: (old(self)@.total_supply - old(self)@.balance_of(caller@)) as u128,
                balances: old(self)@.balances.remove(caller@),
                ..old(self)@
            }),
            r is Err ==> *final(self) == *old(self) && r == Err::<u128, Error>(
                if !old(self)@.registered(caller@) {
                    Error::NotFound
                } else {
                    Error::State
                },
            ),
    {
        if !self.token.is_registered(caller) {
            return Err(Error::NotFound);
        }
        let bal = self.token.balance_of(caller);
        if bal > 0 && !force {
            return Err(Error::State);
        }
        match self.token.unregister_account(caller) {
            Err(_) => Err(Error::NotFound),
            Ok(b) => Ok(b),
        }
    }

    /// A copy of the blacklist's entries, for persistence.
    pub fn blacklist_entries(&self) -> (r: Vec<(AccountId, BlackListStatus)>)
        ensures
            keyed(r@) == self.spec_blacklist_entries(),
    {
        let mut out: Vec<(AccountId, BlackListStatus)> = Vec::new();
        let mut i: usize = 0;
        while i < self.black_list.len()
            invariant
                i <= self.black_list.len(),
                out@.len() == i,
                forall|j: int|
                    0 <= j < i ==> #[trigger] keyed(out@)[j] == self.spec_blacklist_entries()[j],
            decreases self.black_list.len() - i,
        {
            let key = self.black_list[i].0.clone();
            let st = self.black_list[i].1;
            let ghost prev = out@;
            out.push((key, st));
            proof {
                assert forall|j: int| 0 <= j < out@.len() implies #[trigger] keyed(out@)[j]
                    == self.spec_blacklist_entries()[j] by {
                    if j < prev.len() {
                        assert(out@[j] == prev[j]);
                        assert(keyed(prev)[j] == self.spec_blacklist_entries()[j]);
                    } else {
                        assert(out@[j] == (key, st));
                    }
                }
            }
            i += 1;
        }
        proof {
            assert(keyed(out@) =~= self.spec_blacklist_entries());
        }
        out
    }

    /// A plain-value image of the whole state, for the host's storage
    /// layer to persist.
    pub fn snapshot(&self) -> (r: PersistedState)
        requires
            self.wf(),
        ensures
            r.owner_id@ == self@.owner_id,
            r.proposed_owner_id@ == self@.proposed_owner_id,
            r.total_supply == self@.total_supply,
            keyed(r.balances@) == self.spec_token().spec_entries(),
            names_of(r.guardians@) == self@.guardians,
            keyed(r.black_list@) == self.spec_blacklist_entries(),
            r.status == self@.status,
            r.metadata@ == self@.metadata,
            map_of(keyed(r.balances@)) == self@.balances,
            map_of(keyed(r.black_list@)) == self@.black_list,
    {
        PersistedState {
            owner_id: self.owner_id.clone(),
            proposed_owner_id: self.proposed_owner_id.clone(),
            total_supply: self.token.total_supply(),
            balances: self.token.entries(),
            guardians: self.guardians.to_vec(),
            black_list: self.blacklist_entries(),
            status: self.status,
            metadata: self.metadata.clone(),
        }
    }

    /// Rebuilds the contract from a persisted image, re-checking every
    /// invariant: one balance record per account summing exactly to the
    /// recorded total supply, a duplicate-free guardian roster, and one
    /// blacklist entry per account. A corrupt image is refused whole.
    pub fn restore(s: PersistedState) -> (r: Result<Contract, Error>)
        ensures
            r is Ok <==> (unique_keys(keyed(s.balances@)) && s.total_supply as int == sum_entries(
                keyed(s.balances@),
            ) && pairwise_distinct(s.guardians@) && unique_keys(keyed(s.black_list@))),
            r matches Ok(c) ==> c.wf() && c@ == (ContractView {
                owner_id: s.owner_id@,
                proposed_owner_id: s.proposed_owner_id@,
                total_supply: s.total_supply,
                balances: map_of(keyed(s.balances@)),
                guardians: names_of(s.guardians@),
                black_list: map_of(keyed(s.black_list@)),
                status: s.status,
                metadata: s.metadata@,
            }),
            r is Err ==> r == Err::<Contract, Error>(Error::State),
    {
        let PersistedState {
            owner_id,
            proposed_owner_id,
            total_supply,
            balances,
            guardians,
            black_list,
            status,
            metadata,
        } = s;
        let token = match Ledger::restore(balances, total_supply) {
            Err(_) => return Err(Error::State),
            Ok(l) => l,
        };
        let roster = match Roster::restore(guardians) {
            Err(_) => return Err(Error::State),
            Ok(ro) => ro,
        };
        if !check_unique_keys(&black_list) {
            return Err(Error::State);
        }
        Ok(
            Contract {
                owner_id,
                proposed_owner_id,
                token,
                metadata,
                guardians: roster,
                black_list,
                status,
            },
        )
    }

    /// Adopts the state persisted under the previous code image after an
    /// upgrade. Only the contract itself may run the migration — it is
    /// scheduled as a self-call in the deploy-and-migrate batch — and a
    /// missing state aborts it. This code layout needs no reshaping, so
    /// a present state is adopted unchanged.
    pub fn migrate(state: Option<Contract>, caller: &AccountId, contract_id: &AccountId) -> (r:
        Result<Contract, Error>)
        requires
            state matches Some(c) ==> c.wf(),
        ensures
            r is Ok <==> (caller@ == contract_id@ && state is Some),
            r matches Ok(c) ==> c.wf() && state == Some(c),
            r is Err ==> r == Err::<Contract, Error>(
                if caller@ != contract_id@ {
                    Error::Authorization
                } else {
                    Error::NotFound
                },
            ),
    {
        if !(*caller == *contract_id) {
            return Err(Error::Authorization);
        }
        match state {
            None => Err(Error::NotFound),
            Some(c) => Ok(c),
        }
    }

    /// Replaces the token's icon. Owner-only.
    pub fn upgrade_icon(&mut self, caller: &AccountId, data: String) -> (r: Result<(), Error>)
        requires
            old(self).wf(),
        ensures
            final(self).wf(),
            r is Ok <==> old(self)@.is_owner(caller@),
            r is Ok ==> final(self)@ == (ContractView {
                metadata: (crate::metadata::MetaView {
                    icon: Some(data@),
                    ..old(self)@.metadata
                }),
                ..old(self)@
            }),
            r is Err ==> *final(self) == *old(self) && r == Err::<(), Error>(Error::Authorization),
    {
        match self.abort_if_not_owner(caller) {
            Err(e) => return Err(e),
            Ok(()) => (),
        }
        self.metadata.icon = Some(data);
        Ok(())
    }
}

} // verus!
