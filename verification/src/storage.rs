use vstd::prelude::*;

use crate::ident::Identity;

verus! {

//********** Storage constants **********//

/// Ledger ticks in one day, assuming 5 seconds per ledger on average.
pub const ONE_DAY_LEDGERS: u32 = 17280;

/// The durable (instance) tier is bumped to this many ledgers of lifetime
/// whenever its remaining lifetime drops below the threshold.
pub const LEDGER_BUMP_SHARED: u32 = 31 * ONE_DAY_LEDGERS;

/// Remaining lifetime below which the durable tier is bumped.
pub const LEDGER_THRESHOLD_SHARED: u32 = LEDGER_BUMP_SHARED - ONE_DAY_LEDGERS;

/// Lifetime given to every expiring-tier entry on each write. One day more
/// than the largest deadline the contract accepts, so no allocation or claim
/// record can lapse inside the claim window.
pub const LEDGER_BUMP_MAX_DEADLINE: u32 = 91 * ONE_DAY_LEDGERS;

/// Earliest deadline `initialize` accepts, measured from the current ledger.
pub const MIN_DEADLINE_LEDGERS: u32 = 30 * ONE_DAY_LEDGERS;

/// Latest deadline `initialize` accepts, measured from the current ledger.
pub const MAX_DEADLINE_LEDGERS: u32 = 90 * ONE_DAY_LEDGERS;

//********** Durable (instance) tier **********//

/// The durable storage tier: the contract's configuration, together with the
/// ledger height through which the host keeps it alive.
#[derive(Debug)]
pub struct InstanceStore {
    pub is_init: bool,
    pub finalized: bool,
    pub admin: Option<Identity>,
    pub token: Option<Identity>,
    pub deadline: Option<u32>,
    /// Ledger height through which the durable tier is retained.
    pub live_until: u64,
}

/// The configuration fields of two instance snapshots agree; only the
/// retention height may differ.
pub open spec fn config_unchanged(a: InstanceStore, b: InstanceStore) -> bool {
    &&& a.is_init == b.is_init
    &&& a.finalized == b.finalized
    &&& a.admin == b.admin
    &&& a.token == b.token
    &&& a.deadline == b.deadline
}

/// Retention height of the durable tier after an extension at height `now`:
/// bumped to `now + LEDGER_BUMP_SHARED` once less than `LEDGER_THRESHOLD_SHARED`
/// ledgers remain, untouched otherwise.
pub open spec fn extended_ttl(live_until: u64, now: u32) -> u64 {
    if live_until < now + LEDGER_THRESHOLD_SHARED {
        (now + LEDGER_BUMP_SHARED) as u64
    } else {
        live_until
    }
}

/// Bump the instance lifetime by the defined amount.
pub fn extend_instance(inst: &mut InstanceStore, now: u32)
    ensures
        final(inst).live_until == extended_ttl(old(inst).live_until, now),
        final(inst).live_until >= now + LEDGER_THRESHOLD_SHARED,
        config_unchanged(*final(inst), *old(inst)),
{
    let threshold: u64 = now as u64 + LEDGER_THRESHOLD_SHARED as u64;
    if inst.live_until < threshold {
        inst.live_until = now as u64 + LEDGER_BUMP_SHARED as u64;
    }
}

/// Check if the contract has been initialized.
pub fn get_is_init(inst: &InstanceStore) -> (r: bool)
    ensures
        r == inst.is_init,
{
    inst.is_init
}

/// Set the contract as initialized.
pub fn set_is_init(inst: &mut InstanceStore)
    ensures
        final(inst).is_init,
        final(inst).finalized == old(inst).finalized,
        final(inst).admin == old(inst).admin,
        final(inst).token == old(inst).token,
        final(inst).deadline == old(inst).deadline,
        final(inst).live_until == old(inst).live_until,
{
    inst.is_init = true;
}

/// Check if the distribution has been finalized.
pub fn is_finalized(inst: &InstanceStore) -> (r: bool)
    ensures
        r == inst.finalized,
{
    inst.finalized
}

/// Set the distribution as finalized.
pub fn set_finalized(inst: &mut InstanceStore)
    ensures
        final(inst).finalized,
        final(inst).is_init == old(inst).is_init,
        final(inst).admin == old(inst).admin,
        final(inst).token == old(inst).token,
        final(inst).deadline == old(inst).deadline,
        final(inst).live_until == old(inst).live_until,
{
    inst.finalized = true;
}

/// Get the owner of the distribution.
pub fn get_admin(inst: &InstanceStore) -> (r: Identity)
    requires
        inst.admin is Some,
    ensures
        Some(r) == inst.admin,
{
    inst.admin.unwrap()
}

/// Set the owner of the distribution.
pub fn set_admin(inst: &mut InstanceStore, admin: Identity)
    ensures
        final(inst).admin == Some(admin),
        final(inst).is_init == old(inst).is_init,
        final(inst).finalized == old(inst).finalized,
        final(inst).token == old(inst).token,
        final(inst).deadline == old(inst).deadline,
        final(inst).live_until == old(inst).live_until,
{
    inst.admin = Some(admin);
}

/// Get the token for distribution.
pub fn get_token(inst: &InstanceStore) -> (r: Identity)
    requires
        inst.token is Some,
    ensures
        Some(r) == inst.token,
{
    inst.token.unwrap()
}

/// Set the token for distribution.
pub fn set_token(inst: &mut InstanceStore, token: Identity)
    ensures
        final(inst).token == Some(token),
        final(inst).is_init == old(inst).is_init,
        final(inst).finalized == old(inst).finalized,
        final(inst).admin == old(inst).admin,
        final(inst).deadline == old(inst).deadline,
        final(inst).live_until == old(inst).live_until,
{
    inst.token = Some(token);
}

/// Get the deadline for distribution.
pub fn get_deadline(inst: &InstanceStore) -> (r: u32)
    requires
        inst.deadline is Some,
    ensures
        Some(r) == inst.deadline,
{
    inst.deadline.unwrap()
}

/// Set the deadline for distribution.
pub fn set_deadline(inst: &mut InstanceStore, ledger: u32)
    ensures
        final(inst).deadline == Some(ledger),
        final(inst).is_init == old(inst).is_init,
        final(inst).finalized == old(inst).finalized,
        final(inst).admin == old(inst).admin,
        final(inst).token == old(inst).token,
        final(inst).live_until == old(inst).live_until,
{
    inst.deadline = Some(ledger);
}

//********** Expiring (temporary) tier **********//

/// Key of an expiring-tier entry: a claim record or an allocation, each
/// tagged with the recipient it belongs to.
#[derive(Clone, Copy, PartialEq, Eq, Structural, Debug)]
pub enum DistributorKey {
    Claim(Identity),
    Dist(Identity),
}

/// One expiring-tier entry: its key, its payload, and the ledger height
/// through which the host keeps it alive.
#[derive(Clone, Copy, Debug)]
pub struct TempEntry {
    pub key: DistributorKey,
    pub value: i128,
    pub live_until: u64,
}

/// The first entry with the given key, if any.
pub open spec fn lookup(entries: Seq<TempEntry>, key: DistributorKey) -> Option<TempEntry>
    decreases entries.len(),
{
    if entries.len() == 0 {
        None
    } else if entries[0].key == key {
        Some(entries[0])
    } else {
        lookup(entries.skip(1), key)
    }
}

/// No two entries share a key.
pub open spec fn keys_unique(entries: Seq<TempEntry>) -> bool {
    forall|i: int, j: int|
        0 <= i < j < entries.len() ==> (#[trigger] entries[i].key) != (#[trigger] entries[j].key)
}

proof fn lemma_lookup_prefix(entries: Seq<TempEntry>, key: DistributorKey, i: int)
    requires
        0 <= i <= entries.len(),
        forall|j: int| 0 <= j < i ==> (#[trigger] entries[j].key) != key,
    ensures
        lookup(entries, key) == lookup(entries.skip(i), key),
    decreases i,
{
    if i > 0 {
        assert(entries[0].key != key);
        assert(lookup(entries, key) == lookup(entries.skip(1), key));
        assert forall|j: int| 0 <= j < i - 1 implies (#[trigger] entries.skip(1)[j].key) != key by {
            assert(entries.skip(1)[j] == entries[j + 1]);
        }
        lemma_lookup_prefix(entries.skip(1), key, i - 1);
        assert(entries.skip(1).skip(i - 1) =~= entries.skip(i));
    } else {
        assert(entries.skip(0) =~= entries);
    }
}

proof fn lemma_lookup_at(entries: Seq<TempEntry>, key: DistributorKey, i: int)
    requires
        0 <= i < entries.len(),
        entries[i].key == key,
        forall|j: int| 0 <= j < i ==> (#[trigger] entries[j].key) != key,
    ensures
        lookup(entries, key) == Some(entries[i]),
{
    lemma_lookup_prefix(entries, key, i);
    assert(entries.skip(i).len() > 0);
    assert(entries.skip(i)[0] == entries[i]);
}

proof fn lemma_lookup_none(entries: Seq<TempEntry>, key: DistributorKey)
    requires
        forall|j: int| 0 <= j < entries.len() ==> (#[trigger] entries[j].key) != key,
    ensures
        lookup(entries, key) is None,
{
    lemma_lookup_prefix(entries, key, entries.len() as int);
    assert(entries.skip(entries.len() as int).len() == 0);
}

proof fn lemma_lookup_none_pointwise(entries: Seq<TempEntry>, key: DistributorKey)
    requires
        lookup(entries, key) is None,
    ensures
        forall|j: int| 0 <= j < entries.len() ==> (#[trigger] entries[j].key) != key,
    decreases entries.len(),
{
    if entries.len() > 0 {
        assert(entries[0].key != key);
        lemma_lookup_none_pointwise(entries.skip(1), key);
        assert forall|j: int| 0 <= j < entries.len() implies (#[trigger] entries[j].key) != key by {
            if j > 0 {
                assert(entries.skip(1)[j - 1] == entries[j]);
                assert(entries.skip(1)[j - 1].key != key);
            }
        }
    }
}

proof fn lemma_lookup_update(entries: Seq<TempEntry>, i: int, entry: TempEntry, key: DistributorKey)
    requires
        keys_unique(entries),
        0 <= i < entries.len(),
        entries[i].key == entry.key,
    ensures
        lookup(entries.update(i, entry), key) == (if key == entry.key {
            Some(entry)
        } else {
            lookup(entries, key)
        }),
    decreases i,
{
    let u = entries.update(i, entry);
    assert(u.len() == entries.len());
    if i == 0 {
        assert(u[0] == entry);
        if key != entry.key {
            assert(u.skip(1) =~= entries.skip(1));
        }
    } else {
        assert(u[0] == entries[0]);
        assert(entries[0].key != entries[i].key);
        if key != entries[0].key {
            assert(u.skip(1) =~= entries.skip(1).update(i - 1, entry));
            assert(keys_unique(entries.skip(1))) by {
                assert forall|x: int, y: int|
                    0 <= x < y < entries.skip(1).len() implies (#[trigger] entries.skip(1)[x].key)
                    != (#[trigger] entries.skip(1)[y].key) by {
                    assert(entries.skip(1)[x] == entries[x + 1]);
                    assert(entries.skip(1)[y] == entries[y + 1]);
                }
            }
            assert(entries.skip(1)[i - 1] == entries[i]);
            lemma_lookup_update(entries.skip(1), i - 1, entry, key);
        }
    }
}

proof fn lemma_lookup_push(entries: Seq<TempEntry>, entry: TempEntry, key: DistributorKey)
    ensures
        lookup(entries.push(entry), key) == (match lookup(entries, key) {
            Some(e) => Some(e),
            None => if key == entry.key { Some(entry) } else { None },
        }),
    decreases entries.len(),
{
    let p = entries.push(entry);
    assert(p.len() == entries.len() + 1);
    if entries.len() == 0 {
        assert(p[0] == entry);
        if key == entry.key {
            assert(lookup(p, key) == Some(entry));
        } else {
            assert(p.skip(1) =~= Seq::<TempEntry>::empty());
            assert(lookup(p, key) == lookup(p.skip(1), key));
            assert(lookup(Seq::<TempEntry>::empty(), key) is None);
        }
        assert(lookup(entries, key) is None);
    } else {
        assert(p[0] == entries[0]);
        if key == entries[0].key {
            assert(lookup(p, key) == Some(entries[0]));
            assert(lookup(entries, key) == Some(entries[0]));
        } else {
            assert(p.skip(1) =~= entries.skip(1).push(entry));
            lemma_lookup_push(entries.skip(1), entry, key);
            assert(lookup(p, key) == lookup(p.skip(1), key));
            assert(lookup(entries, key) == lookup(entries.skip(1), key));
        }
    }
}

/// The expiring storage tier: a key-value store of small per-recipient
/// records, each with its own renewable lifetime.
#[derive(Debug)]
pub struct TemporaryStore {
    pub entries: Vec<TempEntry>,
}

impl TemporaryStore {
    /// At most one entry per key.
    pub open spec fn wf(self) -> bool {
        keys_unique(self.entries@)
    }

    /// The entry stored under `key`, if any.
    pub open spec fn spec_get(self, key: DistributorKey) -> Option<TempEntry> {
        lookup(self.entries@, key)
    }

    /// An empty store.
    pub fn new() -> (r: TemporaryStore)
        ensures
            r.wf(),
            r.entries@.len() == 0,
    {
        TemporaryStore { entries: Vec::new() }
    }

    fn find(&self, key: DistributorKey) -> (r: Option<usize>)
        ensures
            match r {
                Some(i) => i < self.entries@.len() && self.entries@[i as int].key == key
                    && self.spec_get(key) == Some(self.entries@[i as int]),
                None => self.spec_get(key) is None,
            },
    {
        let mut i: usize = 0;
        while i < self.entries.len()
            invariant
                i <= self.entries@.len(),
                forall|j: int| 0 <= j < i ==> (#[trigger] self.entries@[j].key) != key,
            decreases self.entries@.len() - i,
        {
            if self.entries[i].key == key {
                proof {
                    lemma_lookup_at(self.entries@, key, i as int);
                }
                return Some(i);
            }
            i += 1;
        }
        proof {
            lemma_lookup_none(self.entries@, key);
        }
        None
    }

    /// Whether an entry is stored under `key`.
    pub fn has(&self, key: DistributorKey) -> (r: bool)
        ensures
            r == (self.spec_get(key) is Some),
    {
        self.find(key).is_some()
    }

    /// The payload stored under `key`, if any.
    pub fn get(&self, key: DistributorKey) -> (r: Option<i128>)
        ensures
            r == (match self.spec_get(key) {
                Some(e) => Some(e.value),
                None => None::<i128>,
            }),
    {
        match self.find(key) {
            Some(i) => Some(self.entries[i].value),
            None => None,
        }
    }

    /// Write `value` under `key`, overwriting any earlier entry, and give the
    /// entry a lifetime through ledger `live_until`.
    pub fn set(&mut self, key: DistributorKey, value: i128, live_until: u64)
        requires
            old(self).wf(),
        ensures
            final(self).wf(),
            forall|k: DistributorKey| #[trigger] final(self).spec_get(k) == (if k == key {
                Some((TempEntry { key: key, value: value, live_until: live_until }))
            } else {
                old(self).spec_get(k)
            }),
    {
        let entry = TempEntry { key, value, live_until };
        match self.find(key) {
            Some(i) => {
                let ghost s0 = self.entries@;
                self.entries.set(i, entry);
                proof {
                    assert(self.entries@ == s0.update(i as int, entry));
                    assert forall|k: DistributorKey| #[trigger] self.spec_get(k) == (if k == key {
                        Some(entry)
                    } else {
                        lookup(s0, k)
                    }) by {
                        lemma_lookup_update(s0, i as int, entry, k);
                    }
                    assert forall|x: int, y: int|
                        0 <= x < y < self.entries@.len() implies (#[trigger] self.entries@[x].key)
                        != (#[trigger] self.entries@[y].key) by {
                        assert(s0[x].key != s0[y].key);
                        assert(self.entries@[x].key == s0[x].key);
                        assert(self.entries@[y].key == s0[y].key);
                    }
                }
            }
            None => {
                let ghost s0 = self.entries@;
                proof {
                    lemma_lookup_none_pointwise(s0, key);
                }
                self.entries.push(entry);
                proof {
                    assert(self.entries@ == s0.push(entry));
                    assert forall|k: DistributorKey| #[trigger] self.spec_get(k) == (if k == key {
                        Some(entry)
                    } else {
                        lookup(s0, k)
                    }) by {
                        lemma_lookup_push(s0, entry, k);
                    }
                    assert forall|x: int, y: int|
                        0 <= x < y < self.entries@.len() implies (#[trigger] self.entries@[x].key)
                        != (#[trigger] self.entries@[y].key) by {
                        if y < s0.len() {
                            assert(s0[x].key != s0[y].key);
                        } else {
                            assert(self.entries@[y] == entry);
                            assert(s0[x].key != key);
                        }
                    }
                }
            }
        }
    }
}

/// Lifetime an expiring-tier entry receives when written at height `now`.
pub open spec fn temp_bump_ttl(now: u32) -> u64 {
    (now + LEDGER_BUMP_MAX_DEADLINE) as u64
}

/// Whether `user` holds a claim record: presence of the record is the sole
/// source of truth for "already claimed".
pub open spec fn spec_claimed(temp: TemporaryStore, user: Identity) -> bool {
    temp.spec_get(DistributorKey::Claim(user)) is Some
}

/// The allocation owed to `user`; zero when none was ever written.
pub open spec fn spec_dist(temp: TemporaryStore, user: Identity) -> i128 {
    match temp.spec_get(DistributorKey::Dist(user)) {
        Some(e) => e.value,
        None => 0,
    }
}

/// Check if someone has claimed.
pub fn has_claimed(temp: &TemporaryStore, user: Identity) -> (r: bool)
    ensures
        r == spec_claimed(*temp, user),
{
    temp.has(DistributorKey::Claim(user))
}

/// Set that a user has claimed the distribution. The payload is a mere
/// presence flag; the entry's lifetime is bumped past every valid deadline.
pub fn set_claimed(temp: &mut TemporaryStore, user: Identity, now: u32)
    requires
        old(temp).wf(),
    ensures
        final(temp).wf(),
        forall|k: DistributorKey| #[trigger] final(temp).spec_get(k) == (if k
            == DistributorKey::Claim(user) {
            Some(
                (TempEntry {
                    key: DistributorKey::Claim(user),
                    value: 1,
                    live_until: temp_bump_ttl(now),
                }),
            )
        } else {
            old(temp).spec_get(k)
        }),
{
    let live_until: u64 = now as u64 + LEDGER_BUMP_MAX_DEADLINE as u64;
    temp.set(DistributorKey::Claim(user), 1, live_until);
}

/// Get the distribution for a user; an unknown user reads as zero.
pub fn get_distribution(temp: &TemporaryStore, user: Identity) -> (r: i128)
    ensures
        r == spec_dist(*temp, user),
{
    match temp.get(DistributorKey::Dist(user)) {
        Some(amount) => amount,
        None => 0,
    }
}

/// Set the distribution for a user, overwriting any earlier allocation; the
/// entry's lifetime is bumped past every valid deadline.
pub fn set_distribution(temp: &mut TemporaryStore, user: Identity, amount: i128, now: u32)
    requires
        old(temp).wf(),
    ensures
        final(temp).wf(),
        forall|k: DistributorKey| #[trigger] final(temp).spec_get(k) == (if k
            == DistributorKey::Dist(user) {
            Some(
                (TempEntry {
                    key: DistributorKey::Dist(user),
                    value: amount,
                    live_until: temp_bump_ttl(now),
                }),
            )
        } else {
            old(temp).spec_get(k)
        }),
{
    let live_until: u64 = now as u64 + LEDGER_BUMP_MAX_DEADLINE as u64;
    temp.set(DistributorKey::Dist(user), amount, live_until);
}

} // verus!
