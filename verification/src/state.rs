//! The durable service state: the stored profiles, the selected profile and
//! the encrypted envelope they are kept in.

use base64::Engine;
use vstd::prelude::*;

use crate::crypto::{CryptoError, CryptoFault, StateProtector};
use crate::profile::{profile_fault, NetworkProfile, ProfileError, ProfileFault, ProfileModel};
use crate::text::{
    concat2, concat3, debug_quoted, debug_text, decimal_string, decimal_text, owned, str_eq,
    str_lt, text_lt,
};

verus! {

broadcast use vstd::string::group_string_axioms;

pub const STATE_SCHEMA_VERSION: u32 = 1;

pub const ENVELOPE_FORMAT_VERSION: u32 = 1;

/// The stored profiles, ordered by id, and the selected profile.
#[derive(Clone, PartialEq, Eq)]
pub struct PersistedState {
    pub schema_version: u32,
    pub profiles: Vec<NetworkProfile>,
    pub active_profile_id: Option<String>,
}

/// The models of a list of profiles.
pub open spec fn models(ps: Seq<NetworkProfile>) -> Seq<ProfileModel> {
    ps.map_values(|p: NetworkProfile| p@)
}

/// The mathematical form of a [`PersistedState`].
pub ghost struct StateModel {
    pub schema_version: u32,
    pub profiles: Seq<ProfileModel>,
    pub active_profile_id: Option<Seq<char>>,
}

impl View for PersistedState {
    type V = StateModel;

    open spec fn view(&self) -> StateModel {
        StateModel {
            schema_version: self.schema_version,
            profiles: models(self.profiles@),
            active_profile_id: crate::protocol::opt_text(self.active_profile_id),
        }
    }
}

// ---------------------------------------------------------------------------
// Lookup in the ordered profile list
// ---------------------------------------------------------------------------

/// The first position at or after `i` holding profile `id`.
pub open spec fn find_from(ps: Seq<ProfileModel>, id: Seq<char>, i: int) -> Option<int>
    decreases ps.len() - i,
{
    if i < 0 || i >= ps.len() {
        None
    } else if ps[i].id == id {
        Some(i)
    } else {
        find_from(ps, id, i + 1)
    }
}

/// The position of profile `id`.
pub open spec fn find_profile(ps: Seq<ProfileModel>, id: Seq<char>) -> Option<int> {
    find_from(ps, id, 0)
}

pub open spec fn has_profile(ps: Seq<ProfileModel>, id: Seq<char>) -> bool {
    find_profile(ps, id) is Some
}

/// The first position at or after `i` of a profile that connects
/// automatically.
pub open spec fn auto_from(ps: Seq<ProfileModel>, i: int) -> Option<int>
    decreases ps.len() - i,
{
    if i < 0 || i >= ps.len() {
        None
    } else if ps[i].auto_connect {
        Some(i)
    } else {
        auto_from(ps, i + 1)
    }
}

/// Where an entry with `id` goes: after every entry with a smaller id.
pub open spec fn lower_bound(ps: Seq<ProfileModel>, id: Seq<char>) -> int
    decreases ps.len(),
{
    if ps.len() == 0 {
        0
    } else if text_lt(ps[0].id, id) {
        1 + lower_bound(ps.drop_first(), id)
    } else {
        0
    }
}

/// `ps` with `p` stored under its id: replacing the entry of that id, or
/// inserted in id order.
pub open spec fn upserted(ps: Seq<ProfileModel>, p: ProfileModel) -> Seq<ProfileModel> {
    let k = lower_bound(ps, p.id);
    if k < ps.len() && ps[k].id == p.id {
        ps.update(k, p)
    } else {
        ps.insert(k, p)
    }
}

/// Ids strictly increase along the list.
pub open spec fn ids_sorted(ps: Seq<ProfileModel>) -> bool {
    forall|i: int, j: int| 0 <= i < j < ps.len() ==> text_lt(#[trigger] ps[i].id, #[trigger] ps[j].id)
}

pub open spec fn without_auto_connect(p: ProfileModel) -> ProfileModel {
    ProfileModel { auto_connect: false, ..p }
}

pub open spec fn with_auto_connect(p: ProfileModel, enabled: bool) -> ProfileModel {
    ProfileModel { auto_connect: enabled, ..p }
}

/// Every profile with automatic connection switched off.
pub open spec fn all_manual(ps: Seq<ProfileModel>) -> Seq<ProfileModel> {
    ps.map_values(|p: ProfileModel| without_auto_connect(p))
}

// ---------------------------------------------------------------------------
// Errors
// ---------------------------------------------------------------------------

#[derive(Debug)]
pub enum StateError {
    Io(String),
    Serialization(String),
    Crypto(CryptoError),
    UnsupportedSchema(u32),
    InvalidState(String),
    Profile(ProfileError),
}

/// The mathematical form of a [`StateError`].
pub ghost enum StateFault {
    Io(Seq<char>),
    Serialization(Seq<char>),
    Crypto(CryptoFault),
    UnsupportedSchema(u32),
    InvalidState(Seq<char>),
    Profile(ProfileFault),
}

impl View for StateError {
    type V = StateFault;

    open spec fn view(&self) -> StateFault {
        match self {
            StateError::Io(d) => StateFault::Io(d@),
            StateError::Serialization(d) => StateFault::Serialization(d@),
            StateError::Crypto(e) => StateFault::Crypto(e@),
            StateError::UnsupportedSchema(v) => StateFault::UnsupportedSchema(*v),
            StateError::InvalidState(d) => StateFault::InvalidState(d@),
            StateError::Profile(e) => StateFault::Profile(e@),
        }
    }
}

pub open spec fn state_fault_text(f: StateFault) -> Seq<char> {
    match f {
        StateFault::Io(d) => "I/O failure: "@ + d,
        StateFault::Serialization(d) => "state serialization failed: "@ + d,
        StateFault::Crypto(e) => "state encryption failed: "@ + crate::crypto::crypto_fault_text(e),
        StateFault::UnsupportedSchema(v) => "state schema "@ + decimal_text(v as nat)
            + " is unsupported"@,
        StateFault::InvalidState(d) => "invalid persisted state: "@ + d,
        StateFault::Profile(e) => "invalid profile: "@ + crate::profile::profile_fault_text(e),
    }
}

impl StateError {
    /// The human-readable message of this error.
    pub fn message(&self) -> (r: String)
        ensures
            r@ == state_fault_text(self@),
    {
        match self {
            StateError::Io(d) => concat2("I/O failure: ", d.as_str()),
            StateError::Serialization(d) => concat2("state serialization failed: ", d.as_str()),
            StateError::Crypto(e) => concat2("state encryption failed: ", e.message().as_str()),
            StateError::UnsupportedSchema(v) => concat3(
                "state schema ",
                decimal_string(*v as u64).as_str(),
                " is unsupported",
            ),
            StateError::InvalidState(d) => concat2("invalid persisted state: ", d.as_str()),
            StateError::Profile(e) => concat2("invalid profile: ", e.message().as_str()),
        }
    }
}

pub open spec fn invalid_state(reason: Seq<char>) -> Option<StateFault> {
    Some(StateFault::InvalidState(reason))
}

pub open spec fn first_state_fault(a: Option<StateFault>, b: Option<StateFault>) -> Option<
    StateFault,
> {
    if a is Some {
        a
    } else {
        b
    }
}

pub open spec fn order_reason() -> Seq<char> {
    "profiles must be ordered by id without duplicates"@
}

pub open spec fn one_auto_reason() -> Seq<char> {
    "the slim client supports one auto-connected private network"@
}

pub open spec fn auto_active_reason() -> Seq<char> {
    "the auto-connected profile must be the active profile"@
}

/// The rules for entry `i`: in id order, a valid profile, and not a second
/// profile that connects automatically.
pub open spec fn entry_fault(ps: Seq<ProfileModel>, i: int) -> Option<StateFault> {
    if i > 0 && !text_lt(ps[i - 1].id, ps[i].id) {
        invalid_state(order_reason())
    } else if profile_fault(ps[i]) is Some {
        Some(StateFault::Profile(profile_fault(ps[i])->0))
    } else if ps[i].auto_connect && auto_from(ps, 0) != Some(i) {
        invalid_state(one_auto_reason())
    } else {
        None
    }
}

/// The first fault among the first `n` entries.
pub open spec fn entries_fault(ps: Seq<ProfileModel>, n: int) -> Option<StateFault>
    decreases n,
{
    if n <= 0 {
        None
    } else {
        first_state_fault(entries_fault(ps, n - 1), entry_fault(ps, n - 1))
    }
}

/// The keys of keyed profiles.
pub open spec fn entry_keys(entries: Seq<(String, NetworkProfile)>) -> Seq<Seq<char>> {
    entries.map_values(|e: (String, NetworkProfile)| e.0@)
}

/// The profiles of keyed profiles.
pub open spec fn entry_profiles(entries: Seq<(String, NetworkProfile)>) -> Seq<ProfileModel> {
    entries.map_values(|e: (String, NetworkProfile)| e.1@)
}

/// The first entry at or after `i` whose key is not its profile's id, or
/// the number of entries when there is none.
pub open spec fn first_key_mismatch(keys: Seq<Seq<char>>, ps: Seq<ProfileModel>, i: int) -> int
    decreases ps.len() - i,
{
    if i >= ps.len() {
        ps.len() as int
    } else if keys[i] != ps[i].id {
        i
    } else {
        first_key_mismatch(keys, ps, i + 1)
    }
}

pub open spec fn key_mismatch_reason(key: Seq<char>, id: Seq<char>) -> Seq<char> {
    "profile map key "@ + debug_text(key) + " does not match profile id "@ + debug_text(id)
}

/// The rules of a durable state whose profiles are keyed by `keys`: each
/// entry's key must be its profile's id, checked before the entry's other
/// rules.
pub open spec fn keyed_state_fault(keys: Seq<Seq<char>>, s: StateModel) -> Option<StateFault> {
    let k = first_key_mismatch(keys, s.profiles, 0);
    if s.schema_version != STATE_SCHEMA_VERSION {
        Some(StateFault::UnsupportedSchema(s.schema_version))
    } else if k < s.profiles.len() {
        if entries_fault(s.profiles, k) is Some {
            entries_fault(s.profiles, k)
        } else {
            invalid_state(key_mismatch_reason(keys[k], s.profiles[k].id))
        }
    } else {
        state_fault(s)
    }
}

/// Every rule a durable state satisfies, checked in this order.
pub open spec fn state_fault(s: StateModel) -> Option<StateFault> {
    if s.schema_version != STATE_SCHEMA_VERSION {
        Some(StateFault::UnsupportedSchema(s.schema_version))
    } else if entries_fault(s.profiles, s.profiles.len() as int) is Some {
        entries_fault(s.profiles, s.profiles.len() as int)
    } else if s.active_profile_id is Some && !has_profile(s.profiles, s.active_profile_id->0) {
        invalid_state(
            "active profile "@ + debug_text(s.active_profile_id->0) + " does not exist"@,
        )
    } else if auto_from(s.profiles, 0) is Some && s.active_profile_id != Some(
        s.profiles[auto_from(s.profiles, 0)->0].id,
    ) {
        invalid_state(auto_active_reason())
    } else {
        None
    }
}

pub open spec fn state_valid(s: StateModel) -> bool {
    state_fault(s) is None
}

pub open spec fn state_outcome_is(r: Result<(), StateError>, f: Option<StateFault>) -> bool {
    match r {
        Ok(_) => f is None,
        Err(e) => f == Some(e@),
    }
}

/// The state of a fresh installation.
pub open spec fn empty_state() -> StateModel {
    StateModel { schema_version: STATE_SCHEMA_VERSION, profiles: Seq::empty(), active_profile_id: None }
}

proof fn lemma_entries_fault_stays(ps: Seq<ProfileModel>, k: int, n: int)
    requires
        0 <= k <= n,
        entries_fault(ps, k) is Some,
    ensures
        entries_fault(ps, n) == entries_fault(ps, k),
    decreases n - k,
{
    if n > k {
        lemma_entries_fault_stays(ps, k, n - 1);
    }
}

proof fn lemma_find_from(ps: Seq<ProfileModel>, id: Seq<char>, i: int)
    requires
        0 <= i,
    ensures
        match find_from(ps, id, i) {
            Some(k) => i <= k < ps.len() && ps[k].id == id && forall|j: int|
                i <= j < k ==> ps[j].id != id,
            None => forall|j: int| i <= j < ps.len() ==> ps[j].id != id,
        },
    decreases ps.len() - i,
{
    if i < ps.len() && ps[i].id != id {
        lemma_find_from(ps, id, i + 1);
    }
}

proof fn lemma_entries_ordered(ps: Seq<ProfileModel>, n: int)
    requires
        0 <= n <= ps.len(),
        entries_fault(ps, n) is None,
    ensures
        forall|i: int| 0 < i < n ==> text_lt(ps[i - 1].id, #[trigger] ps[i].id),
    decreases n,
{
    if n > 0 {
        lemma_entries_ordered(ps, n - 1);
    }
}

proof fn lemma_ordered_chain(ps: Seq<ProfileModel>, i: int, j: int)
    requires
        0 <= i < j < ps.len(),
        forall|m: int| 0 < m < ps.len() ==> text_lt(ps[m - 1].id, #[trigger] ps[m].id),
    ensures
        text_lt(ps[i].id, ps[j].id),
    decreases j - i,
{
    if j > i + 1 {
        lemma_ordered_chain(ps, i, j - 1);
        crate::text::lemma_text_lt_transitive(ps[i].id, ps[j - 1].id, ps[j].id);
    }
}

/// A valid durable state lists its profiles in strictly increasing id
/// order, so every listing that follows the list is ordered by id and no id
/// occurs twice.
pub proof fn law_valid_state_is_ordered_by_id(s: StateModel)
    requires
        state_valid(s),
    ensures
        ids_sorted(s.profiles),
{
    let ps = s.profiles;
    lemma_entries_ordered(ps, ps.len() as int);
    assert forall|i: int, j: int| 0 <= i < j < ps.len() implies text_lt(
        #[trigger] ps[i].id,
        #[trigger] ps[j].id,
    ) by {
        lemma_ordered_chain(ps, i, j);
    }
}

/// What [`find_profile`] finds: the first profile with the id.
pub proof fn lemma_find_profile(ps: Seq<ProfileModel>, id: Seq<char>)
    ensures
        match find_profile(ps, id) {
            Some(k) => 0 <= k < ps.len() && ps[k].id == id && forall|j: int|
                0 <= j < k ==> ps[j].id != id,
            None => forall|j: int| 0 <= j < ps.len() ==> ps[j].id != id,
        },
{
    lemma_find_from(ps, id, 0);
}

/// Lookup by id sees only the ids: two lists with the same ids in the same
/// places find every id in the same place.
pub proof fn lemma_find_profile_same_ids(ps: Seq<ProfileModel>, qs: Seq<ProfileModel>, id: Seq<char>)
    requires
        ps.len() == qs.len(),
        forall|i: int| 0 <= i < ps.len() ==> #[trigger] ps[i].id == qs[i].id,
    ensures
        find_profile(ps, id) == find_profile(qs, id),
{
    lemma_find_profile(ps, id);
    lemma_find_profile(qs, id);
    match find_profile(ps, id) {
        Some(k) => {
            assert(qs[k].id == id);
            match find_profile(qs, id) {
                Some(m) => {
                    if m < k {
                        assert(ps[m].id == qs[m].id);
                    } else if k < m {
                        assert(qs[k].id == id);
                    }
                },
                None => {},
            }
        },
        None => {
            match find_profile(qs, id) {
                Some(m) => {
                    assert(ps[m].id == qs[m].id);
                },
                None => {},
            }
        },
    }
}

proof fn lemma_auto_from(ps: Seq<ProfileModel>, i: int)
    requires
        0 <= i,
    ensures
        match auto_from(ps, i) {
            Some(k) => i <= k < ps.len() && ps[k].auto_connect && forall|j: int|
                i <= j < k ==> !ps[j].auto_connect,
            None => forall|j: int| i <= j < ps.len() ==> !ps[j].auto_connect,
        },
    decreases ps.len() - i,
{
    if i < ps.len() && !ps[i].auto_connect {
        lemma_auto_from(ps, i + 1);
    }
}

impl PersistedState {
    /// The state of a fresh installation.
    pub fn new() -> (r: Self)
        ensures
            r@ == empty_state(),
    {
        let r = PersistedState {
            schema_version: STATE_SCHEMA_VERSION,
            profiles: Vec::new(),
            active_profile_id: None,
        };
        assert(r@.profiles =~= Seq::<ProfileModel>::empty());
        r
    }

    /// A field-by-field copy.
    pub fn duplicate(&self) -> (r: Self)
        ensures
            r@ == self@,
    {
        let mut profiles: Vec<NetworkProfile> = Vec::new();
        let mut i: usize = 0;
        while i < self.profiles.len()
            invariant
                i <= self.profiles@.len(),
                models(profiles@) =~= models(self.profiles@).take(i as int),
            decreases self.profiles@.len() - i,
        {
            let p = self.profiles[i].duplicate();
            proof {
                assert(models(profiles@.push(p)) =~= models(profiles@).push(p@));
                assert(models(self.profiles@).take(i + 1) =~= models(self.profiles@).take(
                    i as int,
                ).push(self.profiles@[i as int]@));
            }
            profiles.push(p);
            i = i + 1;
        }
        assert(models(self.profiles@).take(i as int) =~= models(self.profiles@));
        PersistedState {
            schema_version: self.schema_version,
            profiles,
            active_profile_id: crate::protocol::copy_opt_string(&self.active_profile_id),
        }
    }

    /// The position of profile `id`.
    pub fn find(&self, id: &str) -> (r: Option<usize>)
        ensures
            match r {
                Some(k) => find_profile(self@.profiles, id@) == Some(k as int) && k
                    < self.profiles@.len() && self@.profiles[k as int].id == id@,
                None => find_profile(self@.profiles, id@) is None,
            },
    {
        proof {
            lemma_find_from(self@.profiles, id@, 0);
        }
        let mut i: usize = 0;
        while i < self.profiles.len()
            invariant
                i <= self.profiles@.len(),
                find_profile(self@.profiles, id@) == find_from(self@.profiles, id@, i as int),
            decreases self.profiles@.len() - i,
        {
            if str_eq(self.profiles[i].id.as_str(), id) {
                return Some(i);
            }
            i = i + 1;
        }
        None
    }

    /// The stored profile `id`.
    pub fn get(&self, id: &str) -> (r: Option<&NetworkProfile>)
        ensures
            match r {
                Some(p) => find_profile(self@.profiles, id@) is Some && p@ == self@.profiles[find_profile(
                    self@.profiles,
                    id@,
                )->0],
                None => find_profile(self@.profiles, id@) is None,
            },
    {
        match self.find(id) {
            Some(k) => Some(&self.profiles[k]),
            None => None,
        }
    }

    pub fn contains(&self, id: &str) -> (r: bool)
        ensures
            r == has_profile(self@.profiles, id@),
    {
        self.find(id).is_some()
    }

    /// The profile that connects automatically, the first one in id order.
    pub fn auto_connect_profile(&self) -> (r: Option<&NetworkProfile>)
        ensures
            match r {
                Some(p) => auto_from(self@.profiles, 0) is Some && p@ == self@.profiles[auto_from(
                    self@.profiles,
                    0,
                )->0],
                None => auto_from(self@.profiles, 0) is None,
            },
    {
        let mut i: usize = 0;
        while i < self.profiles.len()
            invariant
                i <= self.profiles@.len(),
                auto_from(self@.profiles, 0) == auto_from(self@.profiles, i as int),
            decreases self.profiles@.len() - i,
        {
            if self.profiles[i].auto_connect {
                return Some(&self.profiles[i]);
            }
            i = i + 1;
        }
        None
    }

    /// Stores `profile` under its id, keeping the id order.
    pub fn upsert(&mut self, profile: NetworkProfile)
        ensures
            final(self)@ == (StateModel { profiles: upserted(old(self)@.profiles, profile@), ..old(self)@ }),
    {
        let ghost ps = self@.profiles;
        let mut i: usize = 0;
        assert(ps.skip(0) =~= ps);
        while i < self.profiles.len() && str_lt(self.profiles[i].id.as_str(), profile.id.as_str())
            invariant
                i <= self.profiles@.len(),
                ps == self@.profiles,
                lower_bound(ps, profile@.id) == i + lower_bound(ps.skip(i as int), profile@.id),
            decreases self.profiles@.len() - i,
        {
            assert(ps.skip(i as int).drop_first() =~= ps.skip(i + 1));
            i = i + 1;
        }
        assert(i < ps.len() ==> ps.skip(i as int)[0] == ps[i as int]);
        assert(lower_bound(ps, profile@.id) == i);
        if i < self.profiles.len() && str_eq(self.profiles[i].id.as_str(), profile.id.as_str()) {
            let ghost p = profile@;
            self.profiles.set(i, profile);
            assert(models(self.profiles@) =~= ps.update(i as int, p));
        } else {
            let ghost p = profile@;
            self.profiles.insert(i, profile);
            assert(models(self.profiles@) =~= ps.insert(i as int, p));
        }
    }

    /// Removes the entry at position `k`.
    pub fn remove_at(&mut self, k: usize)
        requires
            k < old(self).profiles@.len(),
        ensures
            final(self)@ == (StateModel { profiles: old(self)@.profiles.remove(k as int), ..old(self)@ }),
            final(self).profiles@.len() == old(self).profiles@.len() - 1,
    {
        let ghost ps = self@.profiles;
        self.profiles.remove(k);
        assert(models(self.profiles@) =~= ps.remove(k as int));
    }

    /// Sets whether the profile at position `k` connects automatically.
    pub fn set_auto_connect_at(&mut self, k: usize, enabled: bool)
        requires
            k < old(self).profiles@.len(),
        ensures
            final(self)@ == (StateModel {
                profiles: old(self)@.profiles.update(
                    k as int,
                    with_auto_connect(old(self)@.profiles[k as int], enabled),
                ),
                ..old(self)@
            }),
            final(self).profiles@.len() == old(self).profiles@.len(),
    {
        let ghost ps = self@.profiles;
        let mut p = self.profiles[k].duplicate();
        p.auto_connect = enabled;
        self.profiles.set(k, p);
        assert(models(self.profiles@) =~= ps.update(
            k as int,
            with_auto_connect(ps[k as int], enabled),
        ));
    }

    /// Switches automatic connection off for every profile.
    pub fn clear_auto_connect(&mut self)
        ensures
            final(self)@ == (StateModel { profiles: all_manual(old(self)@.profiles), ..old(self)@ }),
            final(self).profiles@.len() == old(self).profiles@.len(),
    {
        let ghost ps = self@.profiles;
        let mut i: usize = 0;
        while i < self.profiles.len()
            invariant
                i <= ps.len(),
                self.profiles@.len() == ps.len(),
                self@.schema_version == old(self)@.schema_version,
                self@.active_profile_id == old(self)@.active_profile_id,
                ps == old(self)@.profiles,
                forall|j: int| 0 <= j < i ==> #[trigger] self@.profiles[j] == without_auto_connect(ps[j]),
                forall|j: int| i <= j < ps.len() ==> #[trigger] self@.profiles[j] == ps[j],
            decreases ps.len() - i,
        {
            self.set_auto_connect_at(i, false);
            assert(self.profiles@.len() == self@.profiles.len());
            i = i + 1;
        }
        assert(self@.profiles =~= all_manual(ps));
    }

    /// Checks every rule a durable state satisfies.
    /// A durable state from profiles keyed by their ids, in key order, as
    /// the state file holds them; it is accepted only if it is valid and
    /// every key is its profile's id.
    pub fn from_keyed_profiles(
        schema_version: u32,
        entries: &Vec<(String, NetworkProfile)>,
        active_profile_id: Option<String>,
    ) -> (r: Result<PersistedState, StateError>)
        ensures
            ({
                let model = StateModel {
                    schema_version,
                    profiles: entry_profiles(entries@),
                    active_profile_id: crate::protocol::opt_text(active_profile_id),
                };
                match keyed_state_fault(entry_keys(entries@), model) {
                    None => r matches Ok(s) && s@ == model,
                    Some(f) => r matches Err(e) && e@ == f,
                }
            }),
    {
        let ghost keys = entry_keys(entries@);
        let ghost ps = entry_profiles(entries@);
        let mut profiles: Vec<NetworkProfile> = Vec::new();
        let mut mismatch: Option<usize> = None;
        let mut i: usize = 0;
        while i < entries.len()
            invariant
                i <= entries@.len(),
                keys == entry_keys(entries@),
                ps == entry_profiles(entries@),
                models(profiles@) =~= ps.take(i as int),
                match mismatch {
                    Some(k) => k < i && first_key_mismatch(keys, ps, 0) == k,
                    None => first_key_mismatch(keys, ps, 0) == first_key_mismatch(keys, ps, i as int),
                },
            decreases entries@.len() - i,
        {
            let profile = entries[i].1.duplicate();
            if mismatch.is_none() && !str_eq(entries[i].0.as_str(), entries[i].1.id.as_str()) {
                mismatch = Some(i);
            }
            proof {
                assert(keys[i as int] == entries@[i as int].0@);
                assert(ps[i as int] == entries@[i as int].1@);
                assert(models(profiles@.push(profile)) =~= models(profiles@).push(profile@));
            }
            profiles.push(profile);
            i = i + 1;
        }
        assert(ps.take(i as int) =~= ps);
        let state = PersistedState { schema_version, profiles, active_profile_id };
        if schema_version != STATE_SCHEMA_VERSION {
            return Err(StateError::UnsupportedSchema(schema_version));
        }
        match mismatch {
            Some(k) => {
                match state.check_entries(k) {
                    Err(e) => Err(e),
                    Ok(_) => {
                        let mut reason = concat2(
                            "profile map key ",
                            debug_quoted(entries[k].0.as_str()).as_str(),
                        );
                        crate::text::append_str(&mut reason, " does not match profile id ");
                        crate::text::append_str(&mut reason, debug_quoted(entries[k].1.id.as_str()).as_str());
                        proof {
                            assert(keys[k as int] == entries@[k as int].0@);
                            assert(ps[k as int] == entries@[k as int].1@);
                        }
                        Err(StateError::InvalidState(reason))
                    },
                }
            },
            None => match state.validate() {
                Err(e) => Err(e),
                Ok(()) => Ok(state),
            },
        }
    }

    /// Checks the first `n` entries in order: each in id order after the
    /// one before it, a valid profile, and not a second profile that
    /// connects automatically.  Returns the entry that connects
    /// automatically, if one of them does.
    fn check_entries(&self, n: usize) -> (r: Result<Option<usize>, StateError>)
        requires
            n <= self@.profiles.len(),
        ensures
            match r {
                Err(e) => entries_fault(self@.profiles, n as int) == Some(e@),
                Ok(auto) => entries_fault(self@.profiles, n as int) is None && match auto {
                    Some(k) => k < n && auto_from(self@.profiles, 0) == Some(k as int),
                    None => forall|j: int| 0 <= j < n ==> !(#[trigger] self@.profiles[j]).auto_connect,
                },
            },
    {
        let ghost ps = self@.profiles;
        let mut auto: Option<usize> = None;
        let mut i: usize = 0;
        while i < n
            invariant
                i <= n <= self.profiles@.len(),
                ps == self@.profiles,
                entries_fault(ps, i as int) is None,
                match auto {
                    Some(k) => k < i && auto_from(ps, 0) == Some(k as int),
                    None => forall|j: int| 0 <= j < i ==> !(#[trigger] ps[j]).auto_connect,
                },
            decreases n - i,
        {
            proof {
                lemma_auto_from(ps, 0);
            }
            if i > 0 && !str_lt(self.profiles[i - 1].id.as_str(), self.profiles[i].id.as_str()) {
                proof {
                    assert(entries_fault(ps, i + 1) == invalid_state(order_reason()));
                    lemma_entries_fault_stays(ps, i + 1, n as int);
                }
                return Err(
                    StateError::InvalidState(owned("profiles must be ordered by id without duplicates")),
                );
            }
            match self.profiles[i].validate() {
                Err(e) => {
                    proof {
                        assert(entries_fault(ps, i + 1) == Some(StateFault::Profile(e@)));
                        lemma_entries_fault_stays(ps, i + 1, n as int);
                    }
                    return Err(StateError::Profile(e));
                },
                Ok(()) => {},
            }
            if self.profiles[i].auto_connect {
                if auto.is_some() {
                    proof {
                        assert(auto_from(ps, 0) != Some(i as int));
                        assert(entries_fault(ps, i + 1) == invalid_state(one_auto_reason()));
                        lemma_entries_fault_stays(ps, i + 1, n as int);
                    }
                    return Err(
                        StateError::InvalidState(
                            owned("the slim client supports one auto-connected private network"),
                        ),
                    );
                }
                proof {
                    assert(auto_from(ps, 0) == Some(i as int));
                }
                auto = Some(i);
            }
            i = i + 1;
        }
        Ok(auto)
    }

    pub fn validate(&self) -> (r: Result<(), StateError>)
        ensures
            state_outcome_is(r, state_fault(self@)),
    {
        let ghost ps = self@.profiles;
        if self.schema_version != STATE_SCHEMA_VERSION {
            return Err(StateError::UnsupportedSchema(self.schema_version));
        }
        let auto = match self.check_entries(self.profiles.len()) {
            Ok(a) => a,
            Err(e) => {
                return Err(e);
            },
        };
        proof {
            lemma_auto_from(ps, 0);
        }
        match &self.active_profile_id {
            Some(active) => {
                if !self.contains(active.as_str()) {
                    let mut reason = concat2("active profile ", debug_quoted(active.as_str()).as_str());
                    crate::text::append_str(&mut reason, " does not exist");
                    return Err(StateError::InvalidState(reason));
                }
            },
            None => {},
        }
        match auto {
            Some(k) => {
                let matches = match &self.active_profile_id {
                    Some(active) => str_eq(active.as_str(), self.profiles[k].id.as_str()),
                    None => false,
                };
                if !matches {
                    return Err(
                        StateError::InvalidState(
                            owned("the auto-connected profile must be the active profile"),
                        ),
                    );
                }
            },
            None => {},
        }
        Ok(())
    }
}


// ---------------------------------------------------------------------------
// The encrypted envelope
// ---------------------------------------------------------------------------

/// What `base64::engine::general_purpose::STANDARD` encodes bytes as.
pub uninterp spec fn base64_encoded(bytes: Seq<u8>) -> Seq<char>;

/// What `STANDARD` decodes a text to, or the text of its error.
pub uninterp spec fn base64_decoded(text: Seq<char>) -> Result<Seq<u8>, Seq<char>>;

/// Whether `text` decodes to `bytes`.
pub open spec fn decodes_to(text: Seq<char>, bytes: Seq<u8>) -> bool {
    base64_decoded(text) == Ok::<Seq<u8>, Seq<char>>(bytes)
}

/// `STANDARD.encode`.  Its text decodes back to the same bytes.
#[verifier::external_body]
fn encode_base64(bytes: &[u8]) -> (r: String)
    ensures
        r@ == base64_encoded(bytes@),
        decodes_to(r@, bytes@),
{
    base64::engine::general_purpose::STANDARD.encode(bytes)
}

/// `STANDARD.decode`.  It accepts only canonical text, which is the
/// encoding of what it decodes to.
#[verifier::external_body]
fn decode_base64(text: &str) -> (r: Result<Vec<u8>, String>)
    ensures
        match r {
            Ok(b) => base64_decoded(text@) == Ok::<Seq<u8>, Seq<char>>(b@),
            Err(e) => base64_decoded(text@) == Err::<Seq<u8>, Seq<char>>(e@),
        },
        r matches Ok(v) ==> base64_encoded(v@) == text@,
{
    base64::engine::general_purpose::STANDARD.decode(text).map_err(|e| e.to_string())
}

/// The stored form of the encrypted state: the envelope format, the
/// protector's algorithm and the base64 ciphertext.
#[derive(Clone, Debug, PartialEq, Eq)]
pub struct EncryptedEnvelope {
    pub format_version: u32,
    pub algorithm: String,
    pub ciphertext: String,
}

/// The envelope of `ciphertext` made with `algorithm`.
pub fn seal_envelope(algorithm: &str, ciphertext: &[u8]) -> (r: EncryptedEnvelope)
    ensures
        r.format_version == ENVELOPE_FORMAT_VERSION,
        r.algorithm@ == algorithm@,
        r.ciphertext@ == base64_encoded(ciphertext@),
        decodes_to(r.ciphertext@, ciphertext@),
{
    EncryptedEnvelope {
        format_version: ENVELOPE_FORMAT_VERSION,
        algorithm: owned(algorithm),
        ciphertext: encode_base64(ciphertext),
    }
}

/// What opening an envelope with the `expected` algorithm gives: its
/// ciphertext, or the first error.
pub open spec fn envelope_contents(e: EncryptedEnvelope, expected: Seq<char>) -> Result<Seq<u8>, StateFault> {
    if e.format_version != ENVELOPE_FORMAT_VERSION {
        Err(StateFault::InvalidState("unsupported envelope version "@ + decimal_text(e.format_version as nat)))
    } else if e.algorithm@ != expected {
        Err(StateFault::InvalidState("state uses "@ + e.algorithm@ + ", expected "@ + expected))
    } else {
        match base64_decoded(e.ciphertext@) {
            Ok(b) => Ok(b),
            Err(m) => Err(StateFault::Serialization(m)),
        }
    }
}

/// The ciphertext of an envelope written for the `expected` algorithm.  An
/// envelope that [`seal_envelope`] made opens to the ciphertext it was made
/// from.
pub fn open_envelope(envelope: &EncryptedEnvelope, expected: &str) -> (r: Result<Vec<u8>, StateError>)
    ensures
        match r {
            Ok(b) => envelope_contents(*envelope, expected@) == Ok::<Seq<u8>, StateFault>(b@),
            Err(e) => envelope_contents(*envelope, expected@) == Err::<Seq<u8>, StateFault>(e@),
        },
        forall|c: Seq<u8>|
            #![trigger decodes_to(envelope.ciphertext@, c)]
            envelope.format_version == ENVELOPE_FORMAT_VERSION && envelope.algorithm@ == expected@
                && decodes_to(envelope.ciphertext@, c) ==> (r matches Ok(b) && b@ == c),
{
    if envelope.format_version != ENVELOPE_FORMAT_VERSION {
        return Err(
            StateError::InvalidState(
                concat2(
                    "unsupported envelope version ",
                    decimal_string(envelope.format_version as u64).as_str(),
                ),
            ),
        );
    }
    if !str_eq(envelope.algorithm.as_str(), expected) {
        let mut m = concat3("state uses ", envelope.algorithm.as_str(), ", expected ");
        crate::text::append_str(&mut m, expected);
        return Err(StateError::InvalidState(m));
    }
    match decode_base64(envelope.ciphertext.as_str()) {
        Ok(b) => Ok(b),
        Err(m) => Err(StateError::Serialization(m)),
    }
}

/// Encrypts serialized state with `protector` and wraps it for storage.
pub fn seal_state<P: StateProtector>(protector: &P, plaintext: &[u8]) -> (r: Result<EncryptedEnvelope, StateError>)
    ensures
        r matches Ok(e) ==> e.format_version == ENVELOPE_FORMAT_VERSION,
        r matches Err(e) ==> e is Crypto,
{
    let ciphertext = match protector.protect(plaintext) {
        Ok(c) => c,
        Err(e) => {
            return Err(StateError::Crypto(e));
        },
    };
    Ok(seal_envelope(protector.algorithm(), ciphertext.as_slice()))
}

/// Unwraps stored state and decrypts it with `protector`.  Envelopes of
/// another format or algorithm are refused before anything is decrypted.
pub fn open_state<P: StateProtector>(protector: &P, envelope: &EncryptedEnvelope) -> (r: Result<Vec<u8>, StateError>)
    ensures
        envelope.format_version != ENVELOPE_FORMAT_VERSION ==> (r matches Err(e) && e is InvalidState),
{
    let algorithm = protector.algorithm();
    let ciphertext = open_envelope(envelope, algorithm)?;
    match protector.unprotect(ciphertext.as_slice()) {
        Ok(p) => Ok(p),
        Err(e) => Err(StateError::Crypto(e)),
    }
}

// ---------------------------------------------------------------------------
// File names beneath the service directory
// ---------------------------------------------------------------------------

/// The file in the runtime directory that the core reads a profile's
/// configuration from.
pub fn runtime_profile_file_name(profile_id: &str) -> (r: String)
    ensures
        r@ == profile_id@ + ".toml"@,
{
    concat2(profile_id, ".toml")
}

/// A hidden, single-use name for a configuration staged for the core's
/// check, unique to the process and to its sequence number there.
pub fn staged_profile_file_name(profile_id: &str, process_id: u32, sequence: u64) -> (r: String)
    ensures
        r@ == "."@ + profile_id@ + ".validate."@ + decimal_text(process_id as nat) + "."@
            + decimal_text(sequence as nat) + ".toml"@,
{
    let mut r = concat3(".", profile_id, ".validate.");
    crate::text::append_str(&mut r, decimal_string(process_id as u64).as_str());
    crate::text::append_str(&mut r, ".");
    crate::text::append_str(&mut r, decimal_string(sequence).as_str());
    crate::text::append_str(&mut r, ".toml");
    r
}

/// The hidden sibling an atomic replacement of file `name` is written to
/// first.
pub fn temporary_file_name(name: &str, process_id: u32, sequence: u64) -> (r: String)
    ensures
        r@ == "."@ + name@ + "."@ + decimal_text(process_id as nat) + "."@ + decimal_text(
            sequence as nat,
        ) + ".tmp"@,
{
    let mut r = concat3(".", name, ".");
    crate::text::append_str(&mut r, decimal_string(process_id as u64).as_str());
    crate::text::append_str(&mut r, ".");
    crate::text::append_str(&mut r, decimal_string(sequence).as_str());
    crate::text::append_str(&mut r, ".tmp");
    r
}

} // verus!
