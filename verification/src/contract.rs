use vstd::prelude::*;

use crate::errors::ContractError;
use crate::ident::Identity;
use crate::storage;
use crate::storage::DistributorKey;
use crate::storage::InstanceStore;
use crate::storage::TempEntry;
use crate::storage::TemporaryStore;

verus! {

/// Whether a proposed deadline lies within the accepted window, measured
/// from the current ledger height: no closer than 30 days and no farther
/// than 90 days of ledgers, both bounds included.
pub open spec fn deadline_in_range(now: u32, deadline: u32) -> bool {
    now + storage::MIN_DEADLINE_LEDGERS <= deadline <= now + storage::MAX_DEADLINE_LEDGERS
}

/// The last amount a batch assigns to `user`, if the batch names `user` at
/// all. Later pairs supersede earlier ones.
pub open spec fn batch_value(entries: Seq<(Identity, i128)>, user: Identity) -> Option<i128>
    decreases entries.len(),
{
    if entries.len() == 0 {
        None
    } else if entries.last().0 == user {
        Some(entries.last().1)
    } else {
        batch_value(entries.drop_last(), user)
    }
}

/// The allocation `user` holds after a batch is applied on top of `prev`.
pub open spec fn batch_applied(entries: Seq<(Identity, i128)>, user: Identity, prev: i128) -> i128 {
    match batch_value(entries, user) {
        Some(amount) => amount,
        None => prev,
    }
}

/// The distribution contract's persisted state: the durable configuration
/// tier and the expiring per-recipient tier, as one explicit value. The host
/// hands every operation the current ledger height and the authenticated
/// caller; token transfers and event publication stay with the host, which
/// performs whatever a successful operation returns.
pub struct Distributor {
    pub instance: InstanceStore,
    pub temp: TemporaryStore,
    /// The ledger height at which `initialize` ran. The host's height counter
    /// is monotone, so no later operation sees a smaller height.
    pub init_ledger: Ghost<u32>,
}

impl Distributor {
    /// The deadline of an initialized contract.
    pub open spec fn spec_deadline(self) -> u32 {
        match self.instance.deadline {
            Some(d) => d,
            None => 0,
        }
    }

    /// Claims are accepted through the deadline itself.
    pub open spec fn claim_window_open(self, now: u32) -> bool {
        now <= self.spec_deadline()
    }

    /// Refunds are accepted strictly after the deadline: the exact temporal
    /// negation of the claim window.
    pub open spec fn refund_window_open(self, now: u32) -> bool {
        now > self.spec_deadline()
    }

    /// Whether `caller` passes the admin authorization gate.
    pub open spec fn admin_gate(self, caller: Identity) -> bool {
        self.instance.admin == Some(caller)
    }

    /// Well-formedness. Before initialization nothing is stored; afterwards
    /// the configuration is complete, the deadline lies in the accepted
    /// window around the initialization height, and every expiring-tier
    /// entry outlives the deadline by at least a day of ledgers.
    pub open spec fn wf(self) -> bool {
        &&& self.temp.wf()
        &&& (!self.instance.is_init ==> {
            &&& !self.instance.finalized
            &&& self.instance.admin is None
            &&& self.instance.token is None
            &&& self.instance.deadline is None
            &&& self.temp.entries@.len() == 0
        })
        &&& (self.instance.is_init ==> {
            &&& self.instance.admin is Some
            &&& self.instance.token is Some
            &&& self.instance.deadline is Some
            &&& deadline_in_range(self.init_ledger@, self.spec_deadline())
            &&& forall|k: DistributorKey|
                (#[trigger] self.temp.spec_get(k)) matches Some(e) ==> e.live_until
                    >= self.spec_deadline() + storage::ONE_DAY_LEDGERS
        })
    }

    /// The exact outcome of `claim`, check by check, in the order the
    /// operation tests them: authorization, phase, replay, deadline,
    /// allocation. The order is observable through the returned error
    /// whenever several conditions fail at once.
    pub open spec fn claim_outcome(self, caller: Identity, user: Identity, now: u32) -> Result<
        i128,
        ContractError,
    > {
        if caller != user {
            Err(ContractError::UnauthorizedError)
        } else if !self.instance.finalized {
            Err(ContractError::NotFinalizedError)
        } else if storage::spec_claimed(self.temp, user) {
            Err(ContractError::AlreadyClaimedError)
        } else if !self.claim_window_open(now) {
            Err(ContractError::DeadlineError)
        } else if storage::spec_dist(self.temp, user) <= 0 {
            Err(ContractError::NoDistributionError)
        } else {
            Ok(storage::spec_dist(self.temp, user))
        }
    }

    /// A fresh, uninitialized contract state.
    pub fn new() -> (r: Distributor)
        ensures
            r.wf(),
            !r.instance.is_init,
    {
        Distributor {
            instance: InstanceStore {
                is_init: false,
                finalized: false,
                admin: None,
                token: None,
                deadline: None,
                live_until: 0,
            },
            temp: TemporaryStore::new(),
            init_ledger: Ghost(0u32),
        }
    }

    /// Initialize the contract
    ///
    /// ### Arguments
    /// * `now` - The current ledger height
    /// * `token` - The token to distribute
    /// * `deadline` - The deadline ledger sequence number of the distribution
    /// * `admin` - The admin of the contract
    ///
    /// ### Errors
    /// * `AlreadyInitializedError` - If the contract has already been initialized
    /// * `DeadlineError` - If the deadline is not within [30, 90] days of ledgers
    ///   in the future, assuming 5s a ledger
    pub fn initialize(
        &mut self,
        now: u32,
        token: Identity,
        deadline: u32,
        admin: Identity,
    ) -> (r: Result<(), ContractError>)
        requires
            old(self).wf(),
        ensures
            final(self).wf(),
            r is Ok <==> (!old(self).instance.is_init && deadline_in_range(now, deadline)),
            old(self).instance.is_init ==> r == Err::<(), ContractError>(
                ContractError::AlreadyInitializedError,
            ),
            !old(self).instance.is_init && !deadline_in_range(now, deadline) ==> r == Err::<
                (),
                ContractError,
            >(ContractError::DeadlineError),
            r is Err ==> *final(self) == *old(self),
            r is Ok ==> {
                &&& final(self).instance.is_init
                &&& !final(self).instance.finalized
                &&& final(self).instance.admin == Some(admin)
                &&& final(self).instance.token == Some(token)
                &&& final(self).instance.deadline == Some(deadline)
                &&& final(self).instance.live_until == old(self).instance.live_until
                &&& final(self).temp == old(self).temp
                &&& final(self).init_ledger@ == now
            },
    {
        if storage::get_is_init(&self.instance) {
            return Err(ContractError::AlreadyInitializedError);
        }
        let deadline_wide: u64 = deadline as u64;
        let min_deadline: u64 = now as u64 + storage::MIN_DEADLINE_LEDGERS as u64;
        let max_deadline: u64 = now as u64 + storage::MAX_DEADLINE_LEDGERS as u64;
        if deadline_wide < min_deadline || deadline_wide > max_deadline {
            return Err(ContractError::DeadlineError);
        }
        storage::set_token(&mut self.instance, token);
        storage::set_deadline(&mut self.instance, deadline);
        storage::set_admin(&mut self.instance, admin);
        storage::set_is_init(&mut self.instance);
        self.init_ledger = Ghost(now);
        proof {
            assert forall|k: DistributorKey| self.temp.spec_get(k) is None by {
                assert(self.temp.entries@.len() == 0);
            }
        }
        Ok(())
    }

    //********** Read-Only ***********//

    /// Fetch if a user has claimed their distribution
    pub fn get_claimed(&self, user: Identity) -> (r: bool)
        ensures
            r == storage::spec_claimed(self.temp, user),
    {
        storage::has_claimed(&self.temp, user)
    }

    /// Fetch the deadline ledger sequence for the distribution
    pub fn get_deadline(&self) -> (r: u32)
        requires
            self.wf(),
            self.instance.is_init,
        ensures
            Some(r) == self.instance.deadline,
    {
        storage::get_deadline(&self.instance)
    }

    /// Fetch the admin of the contract
    pub fn get_admin(&self) -> (r: Identity)
        requires
            self.wf(),
            self.instance.is_init,
        ensures
            Some(r) == self.instance.admin,
    {
        storage::get_admin(&self.instance)
    }

    /// Fetch the token being distributed
    pub fn get_token(&self) -> (r: Identity)
        requires
            self.wf(),
            self.instance.is_init,
        ensures
            Some(r) == self.instance.token,
    {
        storage::get_token(&self.instance)
    }

    //********** Read-Write ***********//

    /// (Admin Only) Set the distribution for users
    ///
    /// Each pair overwrites that recipient's allocation; within one batch and
    /// across batches, the last write wins.
    ///
    /// ### Arguments
    /// * `caller` - The authenticated caller
    /// * `distributions` - The distributions to set
    /// * `now` - The current ledger height
    ///
    /// ### Errors
    /// * `UnauthorizedError` - If the caller is not the admin
    /// * `AlreadyFinalizedError` - If the contract has already been finalized
    #[verifier::loop_isolation(false)]
    pub fn set_distribution(
        &mut self,
        caller: Identity,
        distributions: Vec<(Identity, i128)>,
        now: u32,
    ) -> (r: Result<(), ContractError>)
        requires
            old(self).wf(),
            old(self).instance.is_init,
            now >= old(self).init_ledger@,
        ensures
            final(self).wf(),
            r is Ok <==> (old(self).admin_gate(caller) && !old(self).instance.finalized),
            !old(self).admin_gate(caller) ==> r == Err::<(), ContractError>(
                ContractError::UnauthorizedError,
            ),
            old(self).admin_gate(caller) && old(self).instance.finalized ==> r == Err::<
                (),
                ContractError,
            >(ContractError::AlreadyFinalizedError),
            r is Err ==> *final(self) == *old(self),
            r is Ok ==> {
                &&& forall|u: Identity| #[trigger]
                    storage::spec_dist(final(self).temp, u) == batch_applied(
                        distributions@,
                        u,
                        storage::spec_dist(old(self).temp, u),
                    )
                &&& forall|u: Identity| #[trigger]
                    storage::spec_claimed(final(self).temp, u) == storage::spec_claimed(
                        old(self).temp,
                        u,
                    )
                &&& storage::config_unchanged(final(self).instance, old(self).instance)
                &&& final(self).instance.live_until == storage::extended_ttl(
                    old(self).instance.live_until,
                    now,
                )
                &&& final(self).init_ledger == old(self).init_ledger
            },
    {
        let admin = storage::get_admin(&self.instance);
        if admin != caller {
            return Err(ContractError::UnauthorizedError);
        }
        if storage::is_finalized(&self.instance) {
            return Err(ContractError::AlreadyFinalizedError);
        }
        storage::extend_instance(&mut self.instance, now);
        let ghost temp0 = self.temp;
        let ghost inst1 = self.instance;
        let ghost il = self.init_ledger@;
        let n = distributions.len();
        let mut i: usize = 0;
        while i < n
            invariant
                i <= n,
                self.temp.wf(),
                self.instance == inst1,
                self.init_ledger@ == il,
                forall|u: Identity| #[trigger]
                    storage::spec_dist(self.temp, u) == batch_applied(
                        distributions@.take(i as int),
                        u,
                        storage::spec_dist(temp0, u),
                    ),
                forall|u: Identity| #[trigger]
                    storage::spec_claimed(self.temp, u) == storage::spec_claimed(temp0, u),
                forall|k: DistributorKey|
                    (#[trigger] self.temp.spec_get(k)) matches Some(e) ==> e.live_until
                        >= self.spec_deadline() + storage::ONE_DAY_LEDGERS,
            decreases n - i,
        {
            let pair = distributions[i];
            let ghost prev = self.temp;
            storage::set_distribution(&mut self.temp, pair.0, pair.1, now);
            proof {
                assert(distributions@.take(i as int + 1).drop_last() =~= distributions@.take(
                    i as int,
                ));
                assert(distributions@.take(i as int + 1).last() == distributions@[i as int]);
                assert forall|u: Identity| #[trigger]
                    storage::spec_dist(self.temp, u) == batch_applied(
                        distributions@.take(i as int + 1),
                        u,
                        storage::spec_dist(temp0, u),
                    ) by {
                    assert(storage::spec_dist(prev, u) == batch_applied(
                        distributions@.take(i as int),
                        u,
                        storage::spec_dist(temp0, u),
                    ));
                    if u == pair.0 {
                        assert(self.temp.spec_get(DistributorKey::Dist(u)) == Some(
                            (TempEntry {
                                key: DistributorKey::Dist(u),
                                value: pair.1,
                                live_until: storage::temp_bump_ttl(now),
                            }),
                        ));
                    } else {
                        assert(self.temp.spec_get(DistributorKey::Dist(u)) == prev.spec_get(
                            DistributorKey::Dist(u),
                        ));
                    }
                }
                assert forall|u: Identity| #[trigger]
                    storage::spec_claimed(self.temp, u) == storage::spec_claimed(temp0, u) by {
                    assert(storage::spec_claimed(prev, u) == storage::spec_claimed(temp0, u));
                    assert(self.temp.spec_get(DistributorKey::Claim(u)) == prev.spec_get(
                        DistributorKey::Claim(u),
                    ));
                }
                assert forall|k: DistributorKey|
                    ((#[trigger] self.temp.spec_get(k)) matches Some(e) ==> e.live_until
                        >= self.spec_deadline() + storage::ONE_DAY_LEDGERS) by {
                    if k != DistributorKey::Dist(pair.0) {
                        assert(self.temp.spec_get(k) == prev.spec_get(k));
                    }
                }
            }
            i += 1;
        }
        proof {
            assert(distributions@.take(n as int) =~= distributions@);
        }
        Ok(())
    }

    /// (Admin Only) Finalize the distribution
    ///
    /// ### Arguments
    /// * `caller` - The authenticated caller
    /// * `now` - The current ledger height
    ///
    /// ### Errors
    /// * `UnauthorizedError` - If the caller is not the admin
    /// * `AlreadyFinalizedError` - If the contract has already been finalized
    pub fn finalize(&mut self, caller: Identity, now: u32) -> (r: Result<(), ContractError>)
        requires
            old(self).wf(),
            old(self).instance.is_init,
        ensures
            final(self).wf(),
            r is Ok <==> (old(self).admin_gate(caller) && !old(self).instance.finalized),
            !old(self).admin_gate(caller) ==> r == Err::<(), ContractError>(
                ContractError::UnauthorizedError,
            ),
            old(self).admin_gate(caller) && old(self).instance.finalized ==> r == Err::<
                (),
                ContractError,
            >(ContractError::AlreadyFinalizedError),
            r is Err ==> *final(self) == *old(self),
            r is Ok ==> {
                &&& final(self).instance.finalized
                &&& final(self).instance.is_init
                &&& final(self).instance.admin == old(self).instance.admin
                &&& final(self).instance.token == old(self).instance.token
                &&& final(self).instance.deadline == old(self).instance.deadline
                &&& final(self).instance.live_until == storage::extended_ttl(
                    old(self).instance.live_until,
                    now,
                )
                &&& final(self).temp == old(self).temp
                &&& final(self).init_ledger == old(self).init_ledger
            },
    {
        let admin = storage::get_admin(&self.instance);
        if admin != caller {
            return Err(ContractError::UnauthorizedError);
        }
        if storage::is_finalized(&self.instance) {
            return Err(ContractError::AlreadyFinalizedError);
        }
        storage::extend_instance(&mut self.instance, now);
        storage::set_finalized(&mut self.instance);
        Ok(())
    }

    /// (Admin Only) Set the admin of the contract
    ///
    /// ### Arguments
    /// * `caller` - The authenticated caller
    /// * `admin` - The new admin of the contract
    ///
    /// ### Errors
    /// * `UnauthorizedError` - If the caller is not the current admin
    pub fn set_admin(&mut self, caller: Identity, admin: Identity) -> (r: Result<
        (),
        ContractError,
    >)
        requires
            old(self).wf(),
            old(self).instance.is_init,
        ensures
            final(self).wf(),
            r is Ok <==> old(self).admin_gate(caller),
            !old(self).admin_gate(caller) ==> r == Err::<(), ContractError>(
                ContractError::UnauthorizedError,
            ),
            r is Err ==> *final(self) == *old(self),
            r is Ok ==> {
                &&& final(self).instance.admin == Some(admin)
                &&& final(self).instance.is_init
                &&& final(self).instance.finalized == old(self).instance.finalized
                &&& final(self).instance.token == old(self).instance.token
                &&& final(self).instance.deadline == old(self).instance.deadline
                &&& final(self).instance.live_until == old(self).instance.live_until
                &&& final(self).temp == old(self).temp
                &&& final(self).init_ledger == old(self).init_ledger
            },
    {
        let current = storage::get_admin(&self.instance);
        if current != caller {
            return Err(ContractError::UnauthorizedError);
        }
        storage::set_admin(&mut self.instance, admin);
        Ok(())
    }

    /// Claim the distribution
    ///
    /// On success the caller must transfer the returned amount of the
    /// distribution token from the contract's own balance to `user` and
    /// publish the claim event; the claim record is set here first, so a
    /// repeated claim can never pay twice.
    ///
    /// ### Arguments
    /// * `caller` - The authenticated caller, who must be `user` themselves
    /// * `user` - The user to claim the distribution for
    /// * `now` - The current ledger height
    ///
    /// ### Errors
    /// * `UnauthorizedError` - If the caller is not `user`
    /// * `NotFinalizedError` - If the contract has not been finalized
    /// * `AlreadyClaimedError` - If the user has already claimed their distribution
    /// * `DeadlineError` - If the deadline has passed
    /// * `NoDistributionError` - If the user has no distribution to claim
    pub fn claim(&mut self, caller: Identity, user: Identity, now: u32) -> (r: Result<
        i128,
        ContractError,
    >)
        requires
            old(self).wf(),
            old(self).instance.is_init ==> now >= old(self).init_ledger@,
        ensures
            final(self).wf(),
            r == old(self).claim_outcome(caller, user, now),
            r is Err ==> *final(self) == *old(self),
            r is Ok ==> {
                &&& storage::spec_claimed(final(self).temp, user)
                &&& forall|u: Identity|
                    u != user ==> #[trigger] storage::spec_claimed(final(self).temp, u)
                        == storage::spec_claimed(old(self).temp, u)
                &&& forall|u: Identity| #[trigger]
                    storage::spec_dist(final(self).temp, u) == storage::spec_dist(
                        old(self).temp,
                        u,
                    )
                &&& storage::config_unchanged(final(self).instance, old(self).instance)
                &&& final(self).instance.live_until == storage::extended_ttl(
                    old(self).instance.live_until,
                    now,
                )
                &&& final(self).init_ledger == old(self).init_ledger
            },
    {
        if caller != user {
            return Err(ContractError::UnauthorizedError);
        }
        if !storage::is_finalized(&self.instance) {
            return Err(ContractError::NotFinalizedError);
        }
        if storage::has_claimed(&self.temp, user) {
            return Err(ContractError::AlreadyClaimedError);
        }
        let deadline = storage::get_deadline(&self.instance);
        if now > deadline {
            return Err(ContractError::DeadlineError);
        }
        let amount = storage::get_distribution(&self.temp, user);
        if amount <= 0 {
            return Err(ContractError::NoDistributionError);
        }
        let ghost prev = self.temp;
        storage::extend_instance(&mut self.instance, now);
        storage::set_claimed(&mut self.temp, user, now);
        proof {
            assert forall|u: Identity|
                u != user implies #[trigger] storage::spec_claimed(self.temp, u)
                == storage::spec_claimed(prev, u) by {
                assert(self.temp.spec_get(DistributorKey::Claim(u)) == prev.spec_get(
                    DistributorKey::Claim(u),
                ));
            }
            assert forall|u: Identity| #[trigger]
                storage::spec_dist(self.temp, u) == storage::spec_dist(prev, u) by {
                assert(self.temp.spec_get(DistributorKey::Dist(u)) == prev.spec_get(
                    DistributorKey::Dist(u),
                ));
            }
            assert forall|k: DistributorKey|
                ((#[trigger] self.temp.spec_get(k)) matches Some(e) ==> e.live_until
                    >= self.spec_deadline() + storage::ONE_DAY_LEDGERS) by {
                if k != DistributorKey::Claim(user) {
                    assert(self.temp.spec_get(k) == prev.spec_get(k));
                }
            }
        }
        Ok(amount)
    }

    /// Refund the remaining balance to the admin
    ///
    /// Anyone may trigger a refund; funds only ever move to the stored admin.
    /// The caller reads the contract's token balance, hands it in, and on
    /// success transfers the returned amount (possibly zero) to the admin.
    ///
    /// ### Arguments
    /// * `now` - The current ledger height
    /// * `balance` - The contract's current balance of the distribution token
    ///
    /// ### Errors
    /// * `DeadlineError` - If the deadline has not passed
    pub fn refund(&self, now: u32, balance: i128) -> (r: Result<i128, ContractError>)
        requires
            self.wf(),
            self.instance.is_init,
        ensures
            r is Ok <==> self.refund_window_open(now),
            !self.refund_window_open(now) ==> r == Err::<i128, ContractError>(
                ContractError::DeadlineError,
            ),
            r is Ok ==> r == Ok::<i128, ContractError>(balance),
    {
        let deadline = storage::get_deadline(&self.instance);
        if now <= deadline {
            return Err(ContractError::DeadlineError);
        }
        Ok(balance)
    }
}

//********** Laws ***********//

/// Law: the claim window and the refund window never overlap. At no ledger
/// height are `claim` and `refund` both satisfiable: claiming requires the
/// height to be at most the deadline, refunding requires it to be past it.
pub proof fn lemma_temporal_exclusivity(s: Distributor, now: u32)
    ensures
        !(s.claim_window_open(now) && s.refund_window_open(now)),
{
}

/// Law: a successful claim is permanent. In any state reached after `user`'s
/// claim succeeded — the claim record set, the distribution still finalized —
/// a later claim by the same user fails with `AlreadyClaimedError`, whatever
/// the ledger height.
pub proof fn lemma_claim_idempotent(
    pre: Distributor,
    post: Distributor,
    user: Identity,
    now1: u32,
    now2: u32,
)
    requires
        pre.claim_outcome(user, user, now1) is Ok,
        post.instance.finalized == pre.instance.finalized,
        storage::spec_claimed(post.temp, user),
    ensures
        post.claim_outcome(user, user, now2) == Err::<i128, ContractError>(
            ContractError::AlreadyClaimedError,
        ),
{
}

/// Law: allocations are last-write-wins. When one batch is applied after
/// another and the second names `user`, the amount the second batch assigns
/// is the one `user` ends up with, whatever the first batch said.
pub proof fn lemma_allocation_overwrite(
    s0: Distributor,
    s1: Distributor,
    s2: Distributor,
    batch1: Seq<(Identity, i128)>,
    batch2: Seq<(Identity, i128)>,
    user: Identity,
    amount: i128,
)
    requires
        forall|u: Identity| #[trigger]
            storage::spec_dist(s1.temp, u) == batch_applied(
                batch1,
                u,
                storage::spec_dist(s0.temp, u),
            ),
        forall|u: Identity| #[trigger]
            storage::spec_dist(s2.temp, u) == batch_applied(
                batch2,
                u,
                storage::spec_dist(s1.temp, u),
            ),
        batch_value(batch2, user) == Some(amount),
    ensures
        storage::spec_dist(s2.temp, user) == amount,
{
    assert(storage::spec_dist(s2.temp, user) == batch_applied(
        batch2,
        user,
        storage::spec_dist(s1.temp, user),
    ));
}

/// Law: after an admin rotation, exactly the new admin passes the
/// authorization gate of every admin-gated operation.
pub proof fn lemma_admin_rotation(post: Distributor, new_admin: Identity, caller: Identity)
    requires
        post.instance.admin == Some(new_admin),
    ensures
        post.admin_gate(caller) <==> caller == new_admin,
{
}

/// Law: the expiring tier outlives the claim window. In a well-formed,
/// initialized state, every stored allocation and claim record is still
/// alive at any height inside the claim window: the lifetime bump on each
/// write exceeds the largest accepted deadline with a day to spare.
pub proof fn lemma_entries_outlive_claim_window(
    s: Distributor,
    now: u32,
    k: DistributorKey,
    e: TempEntry,
)
    requires
        s.wf(),
        s.instance.is_init,
        s.claim_window_open(now),
        s.temp.spec_get(k) == Some(e),
    ensures
        now < e.live_until,
{
}

} // verus!
