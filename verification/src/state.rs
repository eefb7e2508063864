use vstd::prelude::*;

use crate::error::ContractError;
use crate::fixed::Decimal18;

verus! {

/// The two named lock-period lengths, in seconds.
#[derive(Clone, Copy, Debug, PartialEq, Eq, Structural)]
pub struct LockPrd {
    pub long: u64,
    pub short: u64,
}

/// The tax rates applied to deposits at lock time, one per duration class.
#[derive(Clone, Copy, Debug, PartialEq, Eq, Structural)]
pub struct LockTax {
    pub long: Decimal18,
    pub short: Decimal18,
}

/// Immutable-after-init configuration of the ledger.
pub struct StakingInfo {
    /// Address that created the contract.
    pub owner: String,
    /// Denomination of the locked base asset.
    pub stake_denom: String,
    /// The trusted token contract whose deposit notifications are accepted
    /// as authentic lock requests.
    pub staking_token_address: String,
    /// The two lock-period lengths a depositor can choose between.
    pub period: LockPrd,
    /// The tax taken out of a deposit at lock time.
    pub tax: LockTax,
    /// The rate charged on the released amount when unlocking before
    /// maturity.
    pub penalty: Decimal18,
}

impl StakingInfo {
    /// All configured rates are fractions in [0, 1].
    pub open spec fn wf(self) -> bool {
        &&& self.tax.long.is_rate()
        &&& self.tax.short.is_rate()
        &&& self.penalty.is_rate()
    }
}

/// One lock position.
pub struct UserStakingInfo {
    /// Unique caller-chosen key of this position.
    pub idx: String,
    /// Address entitled to unlock this position.
    pub owner: String,
    /// Timestamp, in seconds, of lock creation.
    pub date: u64,
    /// Outstanding base-asset amount still locked under this key.
    pub amount: u128,
    /// The lock-period length chosen at lock time, frozen into the position.
    pub period: u64,
}

impl Clone for UserStakingInfo {
    fn clone(&self) -> (r: Self)
        ensures
            r == *self,
    {
        UserStakingInfo {
            idx: self.idx.clone(),
            owner: self.owner.clone(),
            date: self.date,
            amount: self.amount,
            period: self.period,
        }
    }
}

/// The three running totals summarizing all positions.
#[derive(Clone, Copy, Debug, PartialEq, Eq, Structural)]
pub struct Supply {
    /// How many derivative tokens this ledger has issued and not yet burned.
    pub issued: u128,
    /// How much base asset is locked against all open positions.
    pub locked: u128,
    /// How much base asset has been retained as tax and penalty.
    pub fees: u128,
}

impl Default for Supply {
    fn default() -> (r: Self)
        ensures
            r == (Supply { issued: 0, locked: 0, fees: 0 }),
    {
        Supply { issued: 0, locked: 0, fees: 0 }
    }
}

/// The sum of the outstanding amounts of a sequence of positions.
pub open spec fn sum_amounts(s: Seq<UserStakingInfo>) -> int
    decreases s.len(),
{
    if s.len() == 0 {
        0
    } else {
        sum_amounts(s.drop_last()) + s.last().amount
    }
}

pub proof fn lemma_sum_nonneg(s: Seq<UserStakingInfo>)
    ensures
        0 <= sum_amounts(s),
    decreases s.len(),
{
    if s.len() > 0 {
        lemma_sum_nonneg(s.drop_last());
    }
}

pub proof fn lemma_sum_push(s: Seq<UserStakingInfo>, p: UserStakingInfo)
    ensures
        sum_amounts(s.push(p)) == sum_amounts(s) + p.amount,
{
    assert(s.push(p).drop_last() =~= s);
    assert(s.push(p).last() == p);
}

pub proof fn lemma_sum_remove(s: Seq<UserStakingInfo>, i: int)
    requires
        0 <= i < s.len(),
    ensures
        sum_amounts(s) == sum_amounts(s.remove(i)) + s[i].amount,
    decreases s.len(),
{
    if i == s.len() - 1 {
        assert(s.remove(i) =~= s.drop_last());
    } else {
        assert(s.remove(i).drop_last() =~= s.drop_last().remove(i));
        assert(s.remove(i).last() == s.last());
        lemma_sum_remove(s.drop_last(), i);
    }
}

pub proof fn lemma_sum_update(s: Seq<UserStakingInfo>, i: int, p: UserStakingInfo)
    requires
        0 <= i < s.len(),
    ensures
        sum_amounts(s.update(i, p)) == sum_amounts(s) - s[i].amount + p.amount,
    decreases s.len(),
{
    if i == s.len() - 1 {
        assert(s.update(i, p).drop_last() =~= s.drop_last());
        assert(s.update(i, p).last() == p);
    } else {
        assert(s.update(i, p).drop_last() =~= s.drop_last().update(i, p));
        assert(s.update(i, p).last() == s.last());
        lemma_sum_update(s.drop_last(), i, p);
    }
}

/// Every single outstanding amount is bounded by the sum of all of them.
pub proof fn lemma_sum_element_le(s: Seq<UserStakingInfo>, i: int)
    requires
        0 <= i < s.len(),
    ensures
        s[i].amount <= sum_amounts(s),
{
    lemma_sum_remove(s, i);
    lemma_sum_nonneg(s.remove(i));
}

/// True of a position held by `owner`.
pub open spec fn owned_by(p: UserStakingInfo, owner: Seq<char>) -> bool {
    p.owner@ == owner
}

/// The subsequence of positions held by `owner`, in stored order.
pub open spec fn filter_owned(s: Seq<UserStakingInfo>, owner: Seq<char>) -> Seq<UserStakingInfo> {
    s.filter(|p: UserStakingInfo| owned_by(p, owner))
}

/// Taking one more element into a filtered prefix: the filtered prefix grows
/// by `s[i]` exactly when `s[i]` passes the filter.
proof fn lemma_filter_owned_step(s: Seq<UserStakingInfo>, owner: Seq<char>, i: int)
    requires
        0 <= i < s.len(),
    ensures
        filter_owned(s.subrange(0, i + 1), owner) == if owned_by(s[i], owner) {
            filter_owned(s.subrange(0, i), owner).push(s[i])
        } else {
            filter_owned(s.subrange(0, i), owner)
        },
{
    reveal(Seq::filter);
    let t = s.subrange(0, i + 1);
    assert(t.drop_last() =~= s.subrange(0, i));
    assert(t.last() == s[i]);
}

/// One entry of the owner index: the position keyed `idx` belongs to `owner`.
pub struct OwnerIndexEntry {
    pub owner: String,
    pub idx: String,
}

/// The secondary indexes over the position store. They are derived from the
/// primary records and maintained in the same atomic step as every insert
/// and delete, so a reader never observes them out of sync.
pub struct UserStakingIndexes {
    /// Owner index: entry `i` names the owner and key of position `i`.
    pub owner: Vec<OwnerIndexEntry>,
}

/// The keyed table of lock positions, in insertion order, together with the
/// owner index.
pub struct PositionStore {
    pub positions: Vec<UserStakingInfo>,
    pub indexes: UserStakingIndexes,
}

impl PositionStore {
    /// No two stored positions share a key.
    pub open spec fn unique_ids(self) -> bool {
        forall|i: int, j: int|
            0 <= i < self.positions@.len() && 0 <= j < self.positions@.len()
                && #[trigger] self.positions@[i].idx@ == #[trigger] self.positions@[j].idx@
                ==> i == j
    }

    /// The owner index mirrors the primary records entry for entry.
    pub open spec fn index_matches(self) -> bool {
        &&& self.indexes.owner@.len() == self.positions@.len()
        &&& forall|i: int|
            0 <= i < self.positions@.len() ==> {
                &&& (#[trigger] self.indexes.owner@[i]).owner@ == self.positions@[i].owner@
                &&& self.indexes.owner@[i].idx@ == self.positions@[i].idx@
            }
    }

    /// Every stored position has a positive outstanding amount: a position
    /// whose principal reaches zero is deleted, never zeroed.
    pub open spec fn positive_amounts(self) -> bool {
        forall|i: int|
            0 <= i < self.positions@.len() ==> (#[trigger] self.positions@[i]).amount > 0
    }

    pub open spec fn wf(self) -> bool {
        &&& self.unique_ids()
        &&& self.index_matches()
        &&& self.positive_amounts()
    }

    /// Whether some stored position has key `id`.
    pub open spec fn has_id(self, id: Seq<char>) -> bool {
        exists|i: int|
            0 <= i < self.positions@.len() && #[trigger] self.positions@[i].idx@ == id
    }

    /// The index of the position with key `id`, when there is one.
    pub open spec fn id_index(self, id: Seq<char>) -> int {
        choose|i: int|
            0 <= i < self.positions@.len() && #[trigger] self.positions@[i].idx@ == id
    }

    /// The position with key `id`, when there is one.
    pub open spec fn spec_get(self, id: Seq<char>) -> UserStakingInfo {
        self.positions@[self.id_index(id)]
    }

    /// Under key uniqueness, any index holding `id` is the index of `id`.
    pub proof fn lemma_id_index_is(self, id: Seq<char>, i: int)
        requires
            self.unique_ids(),
            0 <= i < self.positions@.len(),
            self.positions@[i].idx@ == id,
        ensures
            self.has_id(id),
            self.id_index(id) == i,
    {
        assert(self.has_id(id));
        let k = self.id_index(id);
        assert(0 <= k < self.positions@.len() && self.positions@[k].idx@ == id);
    }

    /// The positions held by `owner`, in stored order.
    pub open spec fn positions_of(self, owner: Seq<char>) -> Seq<UserStakingInfo> {
        filter_owned(self.positions@, owner)
    }

    /// An empty store.
    pub fn new() -> (s: Self)
        ensures
            s.wf(),
            s.positions@.len() == 0,
            sum_amounts(s.positions@) == 0,
    {
        PositionStore { positions: Vec::new(), indexes: UserStakingIndexes { owner: Vec::new() } }
    }

    /// The index of the position with key `id`, or `None` when no position
    /// has that key.
    fn find(&self, id: &String) -> (r: Option<usize>)
        ensures
            match r {
                Some(i) => i < self.positions@.len() && self.positions@[i as int].idx@ == id@,
                None => !self.has_id(id@),
            },
    {
        let n = self.positions.len();
        let mut i: usize = 0;
        while i < n
            invariant
                i <= n,
                n == self.positions@.len(),
                forall|j: int| 0 <= j < i ==> (#[trigger] self.positions@[j].idx@) != id@,
            decreases n - i,
        {
            if self.positions[i].idx == *id {
                return Some(i);
            }
            i += 1;
        }
        None
    }

    /// The position with key `id`, or `None` when no position has that key.
    pub fn get(&self, id: &String) -> (r: Option<&UserStakingInfo>)
        requires
            self.wf(),
        ensures
            match r {
                Some(p) => self.has_id(id@) && *p == self.spec_get(id@),
                None => !self.has_id(id@),
            },
    {
        match self.find(id) {
            Some(i) => {
                proof {
                    self.lemma_id_index_is(id@, i as int);
                }
                Some(&self.positions[i])
            },
            None => None,
        }
    }

    /// Stores a new position and indexes it under its owner, in one step.
    /// A key collision is rejected, never overwritten.
    pub fn insert(&mut self, p: UserStakingInfo) -> (r: Result<(), ContractError>)
        requires
            old(self).wf(),
            p.amount > 0,
        ensures
            final(self).wf(),
            old(self).has_id(p.idx@) ==> r == Err::<(), ContractError>(
                ContractError::DuplicateIdentifier,
            ) && *final(self) == *old(self),
            !old(self).has_id(p.idx@) ==> r == Ok::<(), ContractError>(())
                && final(self).positions@ == old(self).positions@.push(p)
                && final(self).has_id(p.idx@),
    {
        match self.find(&p.idx) {
            Some(_) => Err(ContractError::DuplicateIdentifier),
            None => {
                let entry = OwnerIndexEntry { owner: p.owner.clone(), idx: p.idx.clone() };
                let ghost old_store = *self;
                self.indexes.owner.push(entry);
                self.positions.push(p);
                proof {
                    let n = old_store.positions@.len() as int;
                    assert(self.positions@ =~= old_store.positions@.push(p));
                    assert(self.positions@[n].idx@ == p.idx@);
                    assert forall|i: int, j: int|
                        0 <= i < self.positions@.len() && 0 <= j < self.positions@.len()
                            && #[trigger] self.positions@[i].idx@
                            == #[trigger] self.positions@[j].idx@ implies i == j by {
                        if i < n && j == n {
                            assert(old_store.positions@[i].idx@ == p.idx@);
                            assert(old_store.has_id(p.idx@));
                        }
                        if j < n && i == n {
                            assert(old_store.positions@[j].idx@ == p.idx@);
                            assert(old_store.has_id(p.idx@));
                        }
                    }
                }
                Ok(())
            },
        }
    }

    /// Deletes the position with key `id` and its entry in the owner index,
    /// in one step, and hands the deleted position back.
    pub fn remove(&mut self, id: &String) -> (r: Result<UserStakingInfo, ContractError>)
        requires
            old(self).wf(),
        ensures
            final(self).wf(),
            !old(self).has_id(id@) ==> r == Err::<UserStakingInfo, ContractError>(
                ContractError::NotFound,
            ) && *final(self) == *old(self),
            old(self).has_id(id@) ==> r == Ok::<UserStakingInfo, ContractError>(
                old(self).spec_get(id@),
            ) && final(self).positions@ == old(self).positions@.remove(old(self).id_index(id@))
                && !final(self).has_id(id@),
    {
        match self.find(id) {
            None => Err(ContractError::NotFound),
            Some(i) => {
                proof {
                    self.lemma_id_index_is(id@, i as int);
                }
                let ghost old_store = *self;
                self.indexes.owner.remove(i);
                let p = self.positions.remove(i);
                proof {
                    let n = self.positions@.len() as int;
                    let k = i as int;
                    assert(!self.has_id(id@)) by {
                        assert forall|a: int| 0 <= a < n implies (#[trigger] self.positions@[
                            a
                        ].idx@) != id@ by {
                            if a < k {
                                assert(self.positions@[a] == old_store.positions@[a]);
                            } else {
                                assert(self.positions@[a] == old_store.positions@[a + 1]);
                            }
                        }
                    }
                }
                Ok(p)
            },
        }
    }

    /// Decreases the outstanding amount of the position with key `id` by
    /// `delta`, leaving its opening time and period unchanged. The remaining
    /// amount must stay positive: a full release goes through `remove`.
    pub fn decrease(&mut self, id: &String, delta: u128) -> (r: Result<(), ContractError>)
        requires
            old(self).wf(),
            old(self).has_id(id@) ==> delta < old(self).spec_get(id@).amount,
        ensures
            final(self).wf(),
            !old(self).has_id(id@) ==> r == Err::<(), ContractError>(ContractError::NotFound)
                && *final(self) == *old(self),
            old(self).has_id(id@) ==> r == Ok::<(), ContractError>(()) && ({
                let i = old(self).id_index(id@);
                let p0 = old(self).positions@[i];
                let p1 = final(self).positions@[i];
                &&& final(self).positions@ == old(self).positions@.update(i, p1)
                &&& p1.idx@ == p0.idx@
                &&& p1.owner@ == p0.owner@
                &&& p1.date == p0.date
                &&& p1.period == p0.period
                &&& p1.amount == p0.amount - delta
                &&& final(self).has_id(id@)
                &&& final(self).id_index(id@) == i
            }),
    {
        match self.find(id) {
            None => Err(ContractError::NotFound),
            Some(i) => {
                proof {
                    self.lemma_id_index_is(id@, i as int);
                }
                let ghost old_store = *self;
                let p = self.positions.remove(i);
                let reduced = UserStakingInfo {
                    idx: p.idx,
                    owner: p.owner,
                    date: p.date,
                    amount: p.amount - delta,
                    period: p.period,
                };
                self.positions.insert(i, reduced);
                proof {
                    let k = i as int;
                    assert(self.positions@ =~= old_store.positions@.update(
                        k,
                        self.positions@[k],
                    ));
                    assert forall|a: int, b: int|
                        0 <= a < self.positions@.len() && 0 <= b < self.positions@.len()
                            && #[trigger] self.positions@[a].idx@
                            == #[trigger] self.positions@[b].idx@ implies a == b by {
                        assert(self.positions@[a].idx@ == old_store.positions@[a].idx@);
                        assert(self.positions@[b].idx@ == old_store.positions@[b].idx@);
                    }
                    self.lemma_id_index_is(id@, k);
                }
                Ok(())
            },
        }
    }

    /// All positions held by `owner`, read through the owner index, in
    /// insertion order.
    pub fn list_by_owner(&self, owner: &String) -> (r: Vec<UserStakingInfo>)
        requires
            self.wf(),
        ensures
            r@ == self.positions_of(owner@),
    {
        let mut out: Vec<UserStakingInfo> = Vec::new();
        let n = self.indexes.owner.len();
        let mut i: usize = 0;
        while i < n
            invariant
                i <= n,
                self.wf(),
                n == self.indexes.owner@.len(),
                n == self.positions@.len(),
                out@ == filter_owned(self.positions@.subrange(0, i as int), owner@),
            decreases n - i,
        {
            proof {
                lemma_filter_owned_step(self.positions@, owner@, i as int);
            }
            if self.indexes.owner[i].owner == *owner {
                out.push(self.positions[i].clone());
            }
            i += 1;
        }
        proof {
            assert(self.positions@.subrange(0, n as int) =~= self.positions@);
        }
        out
    }
}

/// The owner key a position is indexed under.
pub fn staking_owner_idx(_pk: &[u8], d: &UserStakingInfo) -> (r: String)
    ensures
        r@ == d.owner@,
{
    d.owner.clone()
}

} // verus!
