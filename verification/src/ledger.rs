//! The store of jar accounts, as the host persists it: one account per
//! derived key, looked up by the pair that the address derivation consumes
//! (the creator's identity and the jar's uniqueness token).
//!
//! The store is viewed as a [`Map`] from that pair to the jar account's
//! value; every operation's contract is an equation over that map.

use vstd::prelude::*;
use vstd::map::*;
use crate::account::AccountId;
use crate::ops::{delete_tip_jar, initialize_tipjar, send_tip, spec_delete, spec_initialize,
    spec_send_tip, spec_withdraw, tip_result_view, withdraw_tip};
use crate::state::{DESCRIPTION_MAX, NAME_MAX, CreateError, JarAccount, JarAccountView, TipEvent,
    TipEventView, TipJar, TipJarError};

verus! {

/// The pair that identifies a jar account: the creator's identity and the
/// jar's uniqueness token.  The host stores the account at the address
/// derived from this pair.
pub type JarKey = (Seq<u8>, u64);

/// The key under which a jar account is stored.
pub open spec fn key_of(a: JarAccountView) -> JarKey {
    (a.record.authority, a.record.unique_id)
}

/// No two accounts in the store share a key.
pub open spec fn keys_unique(s: Seq<JarAccountView>) -> bool {
    forall|i: int, j: int|
        0 <= i < s.len() && 0 <= j < s.len() && i != j ==> key_of(#[trigger] s[i]) != key_of(
            #[trigger] s[j],
        )
}

/// Some account in `s` is stored under `k`.
pub open spec fn has_key(s: Seq<JarAccountView>, k: JarKey) -> bool {
    exists|i: int| 0 <= i < s.len() && key_of(#[trigger] s[i]) == k
}

/// The position of the account stored under `k`.
pub open spec fn index_of_key(s: Seq<JarAccountView>, k: JarKey) -> int {
    choose|i: int| 0 <= i < s.len() && key_of(#[trigger] s[i]) == k
}

/// The sequence of accounts read as a finite map from key to account.
pub open spec fn as_map(s: Seq<JarAccountView>) -> Map<JarKey, JarAccountView> {
    Map::new(|k: JarKey| has_key(s, k), |k: JarKey| s[index_of_key(s, k)])
}

/// A key is in the map exactly when some account carries it.
pub proof fn lemma_as_map_dom(s: Seq<JarAccountView>, k: JarKey)
    ensures
        as_map(s).dom().contains(k) <==> has_key(s, k),
{
}

/// With unique keys, the map reads back the account at its position.
pub proof fn lemma_as_map_index(s: Seq<JarAccountView>, i: int)
    requires
        keys_unique(s),
        0 <= i < s.len(),
    ensures
        as_map(s).dom().contains(key_of(s[i])),
        as_map(s)[key_of(s[i])] == s[i],
{
    let k = key_of(s[i]);
    assert(has_key(s, k));
    let j = index_of_key(s, k);
    assert(0 <= j < s.len() && key_of(s[j]) == k);
    assert(j == i);
}

/// Appending an account with a fresh key inserts it into the map.
pub proof fn lemma_as_map_push(s: Seq<JarAccountView>, v: JarAccountView)
    requires
        keys_unique(s),
        !has_key(s, key_of(v)),
    ensures
        keys_unique(s.push(v)),
        as_map(s.push(v)) == as_map(s).insert(key_of(v), v),
{
    let s2 = s.push(v);
    assert forall|i: int, j: int|
        0 <= i < s2.len() && 0 <= j < s2.len() && i != j implies key_of(#[trigger] s2[i]) != key_of(
        #[trigger] s2[j],
    ) by {
        if i < s.len() && j < s.len() {
            assert(s2[i] == s[i] && s2[j] == s[j]);
        } else if i == s.len() {
            assert(s2[j] == s[j]);
            assert(key_of(s2[i]) == key_of(v));
            if key_of(s[j]) == key_of(v) {
                assert(has_key(s, key_of(v)));
            }
        } else {
            assert(s2[i] == s[i]);
            assert(key_of(s2[j]) == key_of(v));
            if key_of(s[i]) == key_of(v) {
                assert(has_key(s, key_of(v)));
            }
        }
    }
    assert_maps_equal!(as_map(s.push(v)), as_map(s).insert(key_of(v), v), k => {
        if k == key_of(v) {
            assert(key_of(s2[s.len() as int]) == k);
            assert(has_key(s2, k));
            lemma_as_map_index(s2, s.len() as int);
        } else {
            if has_key(s, k) {
                let i = index_of_key(s, k);
                assert(key_of(s2[i]) == k);
                assert(has_key(s2, k));
                lemma_as_map_index(s, i);
                lemma_as_map_index(s2, i);
            }
            if has_key(s2, k) {
                let i = index_of_key(s2, k);
                assert(0 <= i < s2.len() && key_of(s2[i]) == k);
                assert(i != s.len());
                assert(s2[i] == s[i]);
                assert(has_key(s, k));
            }
        }
    });
}

/// With unique keys, removing the account at a position removes exactly
/// its key from the map, and no account under that key remains.
pub proof fn lemma_as_map_remove(s: Seq<JarAccountView>, i: int)
    requires
        keys_unique(s),
        0 <= i < s.len(),
    ensures
        keys_unique(s.remove(i)),
        !has_key(s.remove(i), key_of(s[i])),
        as_map(s.remove(i)) == as_map(s).remove(key_of(s[i])),
{
    let k = key_of(s[i]);
    let s2 = s.remove(i);
    s.remove_ensures(i);
    assert forall|p: int, q: int|
        0 <= p < s2.len() && 0 <= q < s2.len() && p != q implies key_of(#[trigger] s2[p]) != key_of(
        #[trigger] s2[q],
    ) by {
        let p0 = if p < i { p } else { p + 1 };
        let q0 = if q < i { q } else { q + 1 };
        assert(s2[p] == s[p0] && s2[q] == s[q0]);
    }
    assert forall|p: int| 0 <= p < s2.len() implies key_of(#[trigger] s2[p]) != k by {
        let p0 = if p < i { p } else { p + 1 };
        assert(s2[p] == s[p0]);
        assert(p0 != i);
    }
    if has_key(s2, k) {
        let p = index_of_key(s2, k);
        assert(0 <= p < s2.len() && key_of(s2[p]) == k);
    }
    assert_maps_equal!(as_map(s.remove(i)), as_map(s).remove(key_of(s[i])), key => {
        if has_key(s2, key) {
            let p = index_of_key(s2, key);
            assert(0 <= p < s2.len() && key_of(s2[p]) == key);
            let p0 = if p < i { p } else { p + 1 };
            assert(s2[p] == s[p0]);
            assert(has_key(s, key));
            lemma_as_map_index(s2, p);
            lemma_as_map_index(s, p0);
        }
        if key != k && has_key(s, key) {
            let p0 = index_of_key(s, key);
            assert(0 <= p0 < s.len() && key_of(s[p0]) == key);
            assert(p0 != i);
            let p = if p0 < i { p0 } else { p0 - 1 };
            assert(s2[p] == s[p0]);
            assert(has_key(s2, key));
        }
    });
}

/// The store of jar accounts.
pub struct Ledger {
    entries: Vec<JarAccount>,
}

impl View for Ledger {
    type V = Map<JarKey, JarAccountView>;

    closed spec fn view(&self) -> Map<JarKey, JarAccountView> {
        as_map(self.entries_view())
    }
}

/// The map-level transition of a creation: a fresh record under the key
/// derived from the creator and the timestamp, carrying the reserved
/// storage deposit — unless the key is already occupied, in which case
/// nothing changes and the creation fails.
pub open spec fn spec_create(
    m: Map<JarKey, JarAccountView>,
    authority: Seq<u8>,
    name: Seq<char>,
    description: Seq<char>,
    timestamp: i64,
    bump: u8,
    deposit: u64,
) -> (Map<JarKey, JarAccountView>, Result<(), CreateError>) {
    let key = (authority, timestamp as u64);
    if m.dom().contains(key) {
        (m, Err(CreateError::DuplicateRecord))
    } else {
        let account = JarAccountView {
            record: spec_initialize(authority, name, description, timestamp, bump),
            lamports: deposit,
        };
        (m.insert(key, account), Ok(()))
    }
}

/// The map-level transition of a tip: the jar under `key` takes the
/// record-level tip transition; the rest of the store is untouched.
pub open spec fn spec_tip(
    m: Map<JarKey, JarAccountView>,
    key: JarKey,
    tipper: Seq<u8>,
    jar_address: Seq<u8>,
    amount: u64,
    message: Seq<char>,
    now: i64,
) -> (Map<JarKey, JarAccountView>, Result<TipEventView, TipJarError>)
    recommends
        m.dom().contains(key),
{
    let t = spec_send_tip(m[key], tipper, jar_address, amount, message, now);
    (m.insert(key, t.0), t.1)
}

/// The map-level transition of a withdrawal: the jar under `key` takes
/// the record-level withdrawal transition; the rest of the store is
/// untouched.
pub open spec fn spec_withdraw_at(
    m: Map<JarKey, JarAccountView>,
    key: JarKey,
    caller: Seq<u8>,
    amount: u64,
) -> (Map<JarKey, JarAccountView>, Result<(), TipJarError>)
    recommends
        m.dom().contains(key),
{
    let t = spec_withdraw(m[key], caller, amount);
    (m.insert(key, t.0), t.1)
}

/// The map-level transition of a close: by the authority, the record
/// leaves the store and its whole held balance is owed back; by anyone
/// else, nothing changes.
pub open spec fn spec_close(
    m: Map<JarKey, JarAccountView>,
    key: JarKey,
    caller: Seq<u8>,
) -> (Map<JarKey, JarAccountView>, Result<u64, TipJarError>)
    recommends
        m.dom().contains(key),
{
    match spec_delete(m[key], caller) {
        Ok(amt) => (m.remove(key), Ok(amt)),
        Err(e) => (m, Err(e)),
    }
}

impl Ledger {
    /// The accounts in the store, by value.
    pub closed spec fn entries_view(&self) -> Seq<JarAccountView> {
        self.entries@.map_values(|e: JarAccount| e@)
    }

    /// Well-formedness of the store: keys are unique, and every record
    /// respects the record invariant.
    pub closed spec fn wf(&self) -> bool {
        &&& keys_unique(self.entries_view())
        &&& forall|i: int|
            0 <= i < self.entries_view().len() ==> (#[trigger] self.entries_view()[i]).wf()
    }

    /// An empty store.
    pub fn new() -> (r: Ledger)
        ensures
            r.wf(),
            r@ == Map::<JarKey, JarAccountView>::empty(),
    {
        let l = Ledger { entries: Vec::new() };
        proof {
            assert(l.entries_view().len() == 0);
            assert_maps_equal!(as_map(l.entries_view()), Map::<JarKey, JarAccountView>::empty(), k => {
                if has_key(l.entries_view(), k) {
                    let i = index_of_key(l.entries_view(), k);
                    assert(0 <= i < l.entries_view().len());
                }
            });
        }
        l
    }

    /// Where the account under the given key sits, if anywhere.
    fn find_index(&self, authority: &AccountId, unique_id: u64) -> (r: Option<usize>)
        ensures
            match r {
                Some(i) => 0 <= i < self.entries_view().len() && key_of(
                    self.entries_view()[i as int],
                ) == (authority@, unique_id),
                None => !has_key(self.entries_view(), (authority@, unique_id)),
            },
    {
        let n = self.entries.len();
        let mut i: usize = 0;
        while i < n
            invariant
                n == self.entries.len(),
                n == self.entries_view().len(),
                i <= n,
                forall|j: int|
                    0 <= j < i ==> key_of(#[trigger] self.entries_view()[j]) != (
                    authority@,
                    unique_id,
                ),
            decreases n - i,
        {
            assert(self.entries_view()[i as int] == self.entries@[i as int]@);
            if self.entries[i].record.authority.same_id(authority) && self.entries[i].record.unique_id
                == unique_id {
                return Some(i);
            }
            i += 1;
        }
        proof {
            if has_key(self.entries_view(), (authority@, unique_id)) {
                let j = index_of_key(self.entries_view(), (authority@, unique_id));
                assert(0 <= j < n && key_of(self.entries_view()[j]) == (authority@, unique_id));
            }
        }
        None
    }

    /// Whether a record is stored under the given creator and token.
    pub fn contains_jar(&self, authority: &AccountId, unique_id: u64) -> (r: bool)
        ensures
            r == self@.dom().contains((authority@, unique_id)),
    {
        proof {
            lemma_as_map_dom(self.entries_view(), (authority@, unique_id));
        }
        match self.find_index(authority, unique_id) {
            Some(_) => true,
            None => false,
        }
    }

    /// Create: allocates a fresh record under the key derived from the
    /// creator and the supplied timestamp, seeded with the reserved
    /// storage deposit, or fails with `DuplicateRecord` when that key is
    /// already occupied, changing nothing.
    pub fn create(
        &mut self,
        authority: AccountId,
        name: String,
        description: String,
        timestamp: i64,
        bump: u8,
        deposit: u64,
    ) -> (r: Result<(), CreateError>)
        requires
            old(self).wf(),
            authority@.len() == 32,
            name@.len() <= NAME_MAX,
            description@.len() <= DESCRIPTION_MAX,
        ensures
            final(self).wf(),
            (final(self)@, r) == spec_create(old(self)@, authority@, name@, description@,
                timestamp, bump, deposit),
            r is Ok <==> !old(self)@.dom().contains((authority@, timestamp as u64)),
            r is Err ==> final(self)@ == old(self)@,
    {
        let ghost key: JarKey = (authority@, timestamp as u64);
        let unique_id: u64 = #[verifier::truncate] (timestamp as u64);
        proof {
            lemma_as_map_dom(self.entries_view(), key);
        }
        match self.find_index(&authority, unique_id) {
            Some(_) => Err(CreateError::DuplicateRecord),
            None => {
                let ghost s0 = self.entries_view();
                let record = initialize_tipjar(authority, name, description, timestamp, bump);
                let account = JarAccount { record, lamports: deposit };
                let ghost v = account@;
                self.entries.push(account);
                proof {
                    assert(self.entries_view() =~= s0.push(v));
                    assert(key_of(v) == key);
                    lemma_as_map_push(s0, v);
                    assert forall|i: int|
                        0 <= i < self.entries_view().len() implies (
                    #[trigger] self.entries_view()[i]).wf() by {
                        if i < s0.len() {
                            assert(self.entries_view()[i] == s0[i]);
                        } else {
                            assert(self.entries_view()[i] == v);
                        }
                    }
                }
                Ok(())
            },
        }
    }

    /// Tip: applies the record-level tip transition to the jar under the
    /// given key.  The tipper's debit is the host's side of the transfer;
    /// the jar's credit, the counters and the event are modelled here.
    pub fn tip(
        &mut self,
        tipper: AccountId,
        authority: &AccountId,
        unique_id: u64,
        jar_address: AccountId,
        amount: u64,
        message: String,
        now: i64,
    ) -> (r: Result<TipEvent, TipJarError>)
        requires
            old(self).wf(),
            old(self)@.dom().contains((authority@, unique_id)),
            old(self)@[(authority@, unique_id)].record.total_tips + amount <= u64::MAX,
            old(self)@[(authority@, unique_id)].record.tip_count + 1 <= u64::MAX,
            old(self)@[(authority@, unique_id)].lamports + amount <= u64::MAX,
        ensures
            final(self).wf(),
            final(self)@ == spec_tip(old(self)@, (authority@, unique_id), tipper@, jar_address@,
                amount, message@, now).0,
            tip_result_view(r) == spec_tip(old(self)@, (authority@, unique_id), tipper@,
                jar_address@, amount, message@, now).1,
            r is Ok <==> amount > 0,
            r is Err ==> final(self)@ == old(self)@,
    {
        let ghost key: JarKey = (authority@, unique_id);
        proof {
            lemma_as_map_dom(self.entries_view(), key);
        }
        let idx = match self.find_index(authority, unique_id) {
            Some(i) => i,
            None => {
                proof {
                    assert(false);
                }
                return Err(TipJarError::InvalidTipAmount);
            },
        };
        let ghost s0 = self.entries_view();
        proof {
            lemma_as_map_index(s0, idx as int);
        }
        let mut entry = self.entries.remove(idx);
        let res = send_tip(&mut entry, tipper, jar_address, amount, message, now);
        let ghost v2 = entry@;
        self.entries.push(entry);
        proof {
            s0.remove_ensures(idx as int);
            assert(self.entries_view() =~= s0.remove(idx as int).push(v2));
            self.lemma_remove_push(s0, idx as int, v2);
        }
        res
    }

    /// Withdraw: applies the record-level withdrawal transition to the
    /// jar under the given key.  The caller's credit is the host's side
    /// of the transfer; the jar's debit and the totals are modelled here.
    pub fn withdraw(
        &mut self,
        caller: &AccountId,
        authority: &AccountId,
        unique_id: u64,
        amount: u64,
    ) -> (r: Result<(), TipJarError>)
        requires
            old(self).wf(),
            old(self)@.dom().contains((authority@, unique_id)),
        ensures
            final(self).wf(),
            final(self)@ == spec_withdraw_at(old(self)@, (authority@, unique_id), caller@,
                amount).0,
            r == spec_withdraw_at(old(self)@, (authority@, unique_id), caller@, amount).1,
            r is Ok <==> caller@ == old(self)@[(authority@, unique_id)].record.authority
                && old(self)@[(authority@, unique_id)].lamports >= amount,
            r is Err ==> final(self)@ == old(self)@,
    {
        let ghost key: JarKey = (authority@, unique_id);
        proof {
            lemma_as_map_dom(self.entries_view(), key);
        }
        let idx = match self.find_index(authority, unique_id) {
            Some(i) => i,
            None => {
                proof {
                    assert(false);
                }
                return Err(TipJarError::NotAuthorized);
            },
        };
        let ghost s0 = self.entries_view();
        proof {
            lemma_as_map_index(s0, idx as int);
        }
        let mut entry = self.entries.remove(idx);
        let res = withdraw_tip(&mut entry, caller, amount);
        let ghost v2 = entry@;
        self.entries.push(entry);
        proof {
            s0.remove_ensures(idx as int);
            assert(self.entries_view() =~= s0.remove(idx as int).push(v2));
            self.lemma_remove_push(s0, idx as int, v2);
        }
        res
    }

    /// Close: by the jar's authority, removes the record and returns the
    /// whole held balance, which the host sweeps to the authority while
    /// deallocating the account; by anyone else, fails and changes
    /// nothing.
    pub fn close(&mut self, caller: &AccountId, authority: &AccountId, unique_id: u64) -> (r:
        Result<u64, TipJarError>)
        requires
            old(self).wf(),
            old(self)@.dom().contains((authority@, unique_id)),
        ensures
            final(self).wf(),
            final(self)@ == spec_close(old(self)@, (authority@, unique_id), caller@).0,
            r == spec_close(old(self)@, (authority@, unique_id), caller@).1,
            r is Ok <==> caller@ == old(self)@[(authority@, unique_id)].record.authority,
            r is Err ==> final(self)@ == old(self)@,
            r is Ok ==> !final(self)@.dom().contains((authority@, unique_id)),
    {
        let ghost key: JarKey = (authority@, unique_id);
        proof {
            lemma_as_map_dom(self.entries_view(), key);
        }
        let idx = match self.find_index(authority, unique_id) {
            Some(i) => i,
            None => {
                proof {
                    assert(false);
                }
                return Err(TipJarError::NotAuthorized);
            },
        };
        let ghost s0 = self.entries_view();
        proof {
            lemma_as_map_index(s0, idx as int);
        }
        let res = delete_tip_jar(&self.entries[idx], caller);
        match res {
            Ok(amt) => {
                let _removed = self.entries.remove(idx);
                proof {
                    assert(self.entries_view() =~= s0.remove(idx as int));
                    lemma_as_map_remove(s0, idx as int);
                    lemma_as_map_dom(self.entries_view(), key);
                    assert forall|i: int|
                        0 <= i < self.entries_view().len() implies (
                    #[trigger] self.entries_view()[i]).wf() by {
                        let i0 = if i < idx as int {
                            i
                        } else {
                            i + 1
                        };
                        s0.remove_ensures(idx as int);
                        assert(self.entries_view()[i] == s0[i0]);
                    }
                }
                Ok(amt)
            },
            Err(e) => Err(e),
        }
    }

    /// The stored record of the jar under the given key, if it exists.
    pub fn jar_record(&self, authority: &AccountId, unique_id: u64) -> (r: Option<&TipJar>)
        requires
            self.wf(),
        ensures
            match r {
                Some(record) => self@.dom().contains((authority@, unique_id)) && record@ == self@[
                    (authority@, unique_id)
                ].record,
                None => !self@.dom().contains((authority@, unique_id)),
            },
    {
        proof {
            lemma_as_map_dom(self.entries_view(), (authority@, unique_id));
        }
        match self.find_index(authority, unique_id) {
            Some(i) => {
                proof {
                    lemma_as_map_index(self.entries_view(), i as int);
                    assert(self.entries_view()[i as int] == self.entries@[i as int]@);
                }
                Some(&self.entries[i].record)
            },
            None => None,
        }
    }

    /// The running total of the jar under the given key, if it exists.
    pub fn jar_total_tips(&self, authority: &AccountId, unique_id: u64) -> (r: Option<u64>)
        requires
            self.wf(),
        ensures
            r == if self@.dom().contains((authority@, unique_id)) {
                Some(self@[(authority@, unique_id)].record.total_tips)
            } else {
                None::<u64>
            },
    {
        proof {
            lemma_as_map_dom(self.entries_view(), (authority@, unique_id));
        }
        match self.find_index(authority, unique_id) {
            Some(i) => {
                proof {
                    lemma_as_map_index(self.entries_view(), i as int);
                    assert(self.entries_view()[i as int] == self.entries@[i as int]@);
                }
                Some(self.entries[i].record.total_tips)
            },
            None => None,
        }
    }

    /// How many tips the jar under the given key has received, if it
    /// exists.
    pub fn jar_tip_count(&self, authority: &AccountId, unique_id: u64) -> (r: Option<u64>)
        requires
            self.wf(),
        ensures
            r == if self@.dom().contains((authority@, unique_id)) {
                Some(self@[(authority@, unique_id)].record.tip_count)
            } else {
                None::<u64>
            },
    {
        proof {
            lemma_as_map_dom(self.entries_view(), (authority@, unique_id));
        }
        match self.find_index(authority, unique_id) {
            Some(i) => {
                proof {
                    lemma_as_map_index(self.entries_view(), i as int);
                    assert(self.entries_view()[i as int] == self.entries@[i as int]@);
                }
                Some(self.entries[i].record.tip_count)
            },
            None => None,
        }
    }

    /// The held balance of the jar under the given key, if it exists.
    pub fn jar_lamports(&self, authority: &AccountId, unique_id: u64) -> (r: Option<u64>)
        requires
            self.wf(),
        ensures
            r == if self@.dom().contains((authority@, unique_id)) {
                Some(self@[(authority@, unique_id)].lamports)
            } else {
                None::<u64>
            },
    {
        proof {
            lemma_as_map_dom(self.entries_view(), (authority@, unique_id));
        }
        match self.find_index(authority, unique_id) {
            Some(i) => {
                proof {
                    lemma_as_map_index(self.entries_view(), i as int);
                    assert(self.entries_view()[i as int] == self.entries@[i as int]@);
                }
                Some(self.entries[i].lamports)
            },
            None => None,
        }
    }

    /// After removing the entry at `i` of `s0` and appending it back with
    /// key unchanged as `v2`, the store's map is the old one with `v2`
    /// written under that key, and well-formedness is preserved when the
    /// record kept its shape.
    proof fn lemma_remove_push(&self, s0: Seq<JarAccountView>, i: int, v2: JarAccountView)
        requires
            keys_unique(s0),
            forall|p: int| 0 <= p < s0.len() ==> (#[trigger] s0[p]).wf(),
            0 <= i < s0.len(),
            key_of(v2) == key_of(s0[i]),
            v2.wf(),
            self.entries_view() == s0.remove(i).push(v2),
        ensures
            self.wf(),
            self@ == as_map(s0).insert(key_of(s0[i]), v2),
            v2 == s0[i] ==> self@ == as_map(s0),
    {
        let k = key_of(s0[i]);
        let s1 = s0.remove(i);
        s0.remove_ensures(i);
        lemma_as_map_remove(s0, i);
        lemma_as_map_push(s1, v2);
        assert(as_map(self.entries_view()) == as_map(s0).remove(k).insert(k, v2));
        lemma_as_map_index(s0, i);
        assert_maps_equal!(as_map(s0).remove(k).insert(k, v2), as_map(s0).insert(k, v2));
        assert forall|p: int|
            0 <= p < self.entries_view().len() implies (#[trigger] self.entries_view()[p]).wf() by {
            if p < s1.len() {
                assert(self.entries_view()[p] == s1[p]);
                let p0 = if p < i {
                    p
                } else {
                    p + 1
                };
                assert(s1[p] == s0[p0]);
            } else {
                assert(self.entries_view()[p] == v2);
            }
        }
        if v2 == s0[i] {
            assert_maps_equal!(as_map(s0).insert(k, v2), as_map(s0));
        }
    }
}

} // verus!
