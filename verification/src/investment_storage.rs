//! Storage of investments together with the index of active investments.
//!
//! The index holds exactly the identifiers of the stored investments whose
//! status is `Active`, each once: terminal transitions remove the entry, so
//! the index never holds an orphan.
use vstd::prelude::*;

use crate::errors::QuickLendXError;
use crate::investment::{
    add_insurance_error, new_policy, premium_of, same_except_insurance, transition_allowed,
    Investment, InvestmentStatus,
};
use crate::Address;

verus! {

/// Whether some investment in `s` carries identifier `id`.
pub open spec fn has_id(s: Seq<Investment>, id: u64) -> bool {
    exists|i: int| 0 <= i < s.len() && (#[trigger] s[i]).investment_id == id
}

/// Whether the investment with identifier `id` in `s` is `Active`.
pub open spec fn is_active_id(s: Seq<Investment>, id: u64) -> bool {
    exists|i: int|
        0 <= i < s.len() && (#[trigger] s[i]).investment_id == id && s[i].status
            == InvestmentStatus::Active
}

/// Identifiers in `s` are pairwise distinct.
pub open spec fn ids_unique(s: Seq<Investment>) -> bool {
    forall|i: int, j: int|
        0 <= i < s.len() && 0 <= j < s.len() && i != j ==> (#[trigger] s[i]).investment_id
            != (#[trigger] s[j]).investment_id
}

/// `index` lists, each once, exactly the identifiers of the active
/// investments of `s`.
pub open spec fn index_consistent(s: Seq<Investment>, index: Seq<u64>) -> bool {
    &&& index.no_duplicates()
    &&& forall|k: int| 0 <= k < index.len() ==> is_active_id(s, #[trigger] index[k])
    &&& forall|i: int|
        0 <= i < s.len() && (#[trigger] s[i]).status == InvestmentStatus::Active
            ==> index.contains(s[i].investment_id)
}

/// The investments and the active index.
pub struct InvestmentStorage {
    investments: Vec<Investment>,
    active_ids: Vec<u64>,
    next_id: u64,
}

impl InvestmentStorage {
    /// The stored investments, in insertion order.
    pub closed spec fn stored(&self) -> Seq<Investment> {
        self.investments@
    }

    /// The index of active investments.
    pub closed spec fn active_index(&self) -> Seq<u64> {
        self.active_ids@
    }

    /// Next identifier to hand out.
    pub closed spec fn next_identifier(&self) -> u64 {
        self.next_id
    }

    /// Well-formedness: unique identifiers, a consistent active index, and
    /// every stored identifier below the next one to hand out.
    pub open spec fn wf(&self) -> bool {
        &&& ids_unique(self.stored())
        &&& index_consistent(self.stored(), self.active_index())
        &&& forall|i: int|
            0 <= i < self.stored().len() ==> (#[trigger] self.stored()[i]).investment_id
                < self.next_identifier()
    }

    /// Empty storage.
    pub fn new() -> (r: Self)
        ensures
            r.wf(),
            r.stored() == Seq::<Investment>::empty(),
            r.active_index() == Seq::<u64>::empty(),
            r.next_identifier() == 0,
    {
        InvestmentStorage { investments: Vec::new(), active_ids: Vec::new(), next_id: 0 }
    }

    /// The investment at position `p`, in insertion order.
    pub fn investment_at(&self, p: usize) -> (r: &Investment)
        requires
            p < self.stored().len(),
        ensures
            *r == self.stored()[p as int],
    {
        &self.investments[p]
    }

    /// Number of stored investments.
    pub fn investment_count(&self) -> (r: usize)
        ensures
            r == self.stored().len(),
    {
        self.investments.len()
    }

    /// Whether an identifier is left to hand out.
    pub fn has_free_id(&self) -> (r: bool)
        ensures
            r == (self.next_identifier() < u64::MAX),
    {
        self.next_id < u64::MAX
    }

    /// Hands out an identifier that no stored investment carries.
    pub fn generate_unique_investment_id(&mut self) -> (r: u64)
        requires
            old(self).wf(),
            old(self).next_identifier() < u64::MAX,
        ensures
            final(self).wf(),
            !has_id(final(self).stored(), r),
            r == old(self).next_identifier(),
            final(self).next_identifier() == r + 1,
            final(self).stored() == old(self).stored(),
            final(self).active_index() == old(self).active_index(),
    {
        let id = self.next_id;
        self.next_id = self.next_id + 1;
        id
    }

    /// Position of the investment with identifier `id`, if stored.
    fn find_index(&self, id: u64) -> (r: Option<usize>)
        ensures
            r matches Some(i) ==> i < self.investments@.len() && self.investments@[i as int].investment_id
                == id,
            r is None ==> !has_id(self.investments@, id),
    {
        let mut i: usize = 0;
        while i < self.investments.len()
            invariant
                0 <= i <= self.investments.len(),
                forall|j: int| 0 <= j < i ==> (#[trigger] self.investments@[j]).investment_id != id,
            decreases self.investments.len() - i,
        {
            if self.investments[i].investment_id == id {
                return Some(i);
            }
            i = i + 1;
        }
        None
    }

    /// Position of `id` in the active index, if present.
    fn find_active_position(&self, id: u64) -> (r: Option<usize>)
        ensures
            r matches Some(k) ==> k < self.active_ids@.len() && self.active_ids@[k as int] == id,
            r is None ==> !self.active_ids@.contains(id),
    {
        let mut k: usize = 0;
        while k < self.active_ids.len()
            invariant
                0 <= k <= self.active_ids.len(),
                forall|j: int| 0 <= j < k ==> self.active_ids@[j] != id,
            decreases self.active_ids.len() - k,
        {
            if self.active_ids[k] == id {
                return Some(k);
            }
            k = k + 1;
        }
        None
    }

    /// The stored investment with identifier `id`.
    pub fn get_investment(&self, id: u64) -> (r: Option<&Investment>)
        requires
            self.wf(),
        ensures
            r is None <==> !has_id(self.stored(), id),
            r matches Some(inv) ==> exists|i: int|
                0 <= i < self.stored().len() && self.stored()[i] == *inv && inv.investment_id == id,
    {
        match self.find_index(id) {
            Some(i) => Some(&self.investments[i]),
            None => None,
        }
    }

    /// Stores a new investment; an `Active` one enters the active index.
    /// Fails with `OperationNotAllowed` when its identifier is already taken
    /// or is `u64::MAX`.
    pub fn store_investment(&mut self, investment: Investment) -> (r: Result<(), QuickLendXError>)
        requires
            old(self).wf(),
        ensures
            final(self).wf(),
            r is Err <==> (has_id(old(self).stored(), investment.investment_id)
                || investment.investment_id == u64::MAX),
            r is Err ==> r == Err::<(), QuickLendXError>(QuickLendXError::OperationNotAllowed)
                && final(self).stored() == old(self).stored() && final(self).active_index()
                == old(self).active_index(),
            r is Ok ==> final(self).stored() == old(self).stored().push(investment),
            r is Ok ==> final(self).next_identifier() == if investment.investment_id >= old(
                self,
            ).next_identifier() {
                (investment.investment_id + 1) as u64
            } else {
                old(self).next_identifier()
            },
            r is Err ==> final(self).next_identifier() == old(self).next_identifier(),
            r is Ok ==> final(self).active_index() == if investment.status
                == InvestmentStatus::Active {
                old(self).active_index().push(investment.investment_id)
            } else {
                old(self).active_index()
            },
    {
        let id = investment.investment_id;
        if id == u64::MAX {
            return Err(QuickLendXError::OperationNotAllowed);
        }
        if self.find_index(id).is_some() {
            return Err(QuickLendXError::OperationNotAllowed);
        }
        let is_active = investment.status == InvestmentStatus::Active;
        let ghost old_inv = self.investments@;
        let ghost old_idx = self.active_ids@;
        self.investments.push(investment);
        if is_active {
            self.active_ids.push(id);
        }
        if id >= self.next_id {
            self.next_id = id + 1;
        }
        proof {
            let s = self.investments@;
            let n = old_inv.len() as int;
            assert(s[n].investment_id == id);
            assert forall|k: int| 0 <= k < self.active_ids@.len() implies is_active_id(
                s,
                #[trigger] self.active_ids@[k],
            ) by {
                if k < old_idx.len() {
                    let w = choose|i: int|
                        0 <= i < old_inv.len() && (#[trigger] old_inv[i]).investment_id
                            == old_idx[k] && old_inv[i].status == InvestmentStatus::Active;
                    assert(s[w] == old_inv[w]);
                } else {
                    assert(s[n].status == InvestmentStatus::Active);
                }
            }
            assert forall|i: int|
                0 <= i < s.len() && (#[trigger] s[i]).status
                    == InvestmentStatus::Active implies self.active_ids@.contains(
                s[i].investment_id,
            ) by {
                if i < n {
                    assert(s[i] == old_inv[i]);
                    let k = choose|k: int| 0 <= k < old_idx.len() && old_idx[k] == old_inv[i].investment_id;
                    assert(self.active_ids@[k] == old_idx[k]);
                } else {
                    assert(self.active_ids@[self.active_ids@.len() - 1] == id);
                }
            }
            assert forall|i: int, j: int|
                0 <= i < s.len() && 0 <= j < s.len() && i != j implies (#[trigger] s[i]).investment_id
                != (#[trigger] s[j]).investment_id by {
                if i < n && j < n {
                    assert(s[i] == old_inv[i] && s[j] == old_inv[j]);
                } else if i < n {
                    assert(s[i] == old_inv[i]);
                } else if j < n {
                    assert(s[j] == old_inv[j]);
                }
            }
            assert(self.active_ids@.no_duplicates()) by {
                if is_active {
                    assert forall|a: int, b: int|
                        0 <= a < self.active_ids@.len() && 0 <= b < self.active_ids@.len() && a
                            != b implies self.active_ids@[a] != self.active_ids@[b] by {
                        let m = old_idx.len() as int;
                        if a == m || b == m {
                            let o = if a == m {
                                b
                            } else {
                                a
                            };
                            let w = choose|i: int|
                                0 <= i < old_inv.len() && (#[trigger] old_inv[i]).investment_id
                                    == old_idx[o] && old_inv[i].status == InvestmentStatus::Active;
                            assert(old_inv[w].investment_id != id);
                        }
                    }
                }
            }
            assert forall|i: int| 0 <= i < s.len() implies (#[trigger] s[i]).investment_id
                < self.next_id by {
                if i < n {
                    assert(s[i] == old_inv[i]);
                }
            }
        }
        Ok(())
    }

    /// Takes `id` out of the active index.
    fn unlist(&mut self, id: u64)
        requires
            old(self).active_ids@.no_duplicates(),
        ensures
            final(self).active_ids@.no_duplicates(),
            !final(self).active_ids@.contains(id),
            forall|x: u64|
                x != id ==> (final(self).active_ids@.contains(x) <==> old(self).active_ids@.contains(x)),
            final(self).investments == old(self).investments,
            final(self).next_id == old(self).next_id,
    {
        match self.find_active_position(id) {
            None => {},
            Some(k) => {
                let ghost old_idx = self.active_ids@;
                self.active_ids.remove(k);
                proof {
                    let idx = self.active_ids@;
                    assert(idx =~= old_idx.remove(k as int));
                    assert(idx.no_duplicates()) by {
                        assert forall|a: int, b: int|
                            0 <= a < idx.len() && 0 <= b < idx.len() && a != b implies idx[a] != idx[b] by {
                            let oa = if a < k { a } else { a + 1 };
                            let ob = if b < k { b } else { b + 1 };
                            assert(idx[a] == old_idx[oa] && idx[b] == old_idx[ob]);
                        }
                    }
                    assert(!idx.contains(id)) by {
                        if idx.contains(id) {
                            let kk = choose|kk: int| 0 <= kk < idx.len() && idx[kk] == id;
                            let o = if kk < k { kk } else { kk + 1 };
                            assert(old_idx[o] == id && old_idx[k as int] == id);
                        }
                    }
                    assert forall|x: u64| x != id implies (idx.contains(x) <==> old_idx.contains(x)) by {
                        if old_idx.contains(x) {
                            let o = choose|o: int| 0 <= o < old_idx.len() && old_idx[o] == x;
                            if o < k {
                                assert(idx[o] == x);
                            } else {
                                assert(o != k);
                                assert(idx[o - 1] == x);
                            }
                        }
                        if idx.contains(x) {
                            let kk = choose|kk: int| 0 <= kk < idx.len() && idx[kk] == x;
                            if kk < k {
                                assert(old_idx[kk] == x);
                            } else {
                                assert(old_idx[kk + 1] == x);
                            }
                        }
                    }
                }
            },
        }
    }

    /// Replaces the stored investment that carries the identifier of
    /// `investment` with it, whatever its status: the identifier is listed
    /// in the active index exactly when the new status is `Active`.
    /// `StorageKeyNotFound`, changing nothing, when no investment carries
    /// that identifier.
    pub fn update_investment(&mut self, investment: Investment) -> (r: Result<(), QuickLendXError>)
        requires
            old(self).wf(),
        ensures
            final(self).wf(),
            final(self).next_identifier() == old(self).next_identifier(),
            r is Ok <==> has_id(old(self).stored(), investment.investment_id),
            r is Err ==> r == Err::<(), QuickLendXError>(QuickLendXError::StorageKeyNotFound)
                && final(self).stored() == old(self).stored() && final(self).active_index()
                == old(self).active_index(),
            r is Ok ==> exists|i: int|
                0 <= i < old(self).stored().len() && old(self).stored()[i].investment_id
                    == investment.investment_id && final(self).stored() == old(self).stored().update(
                    i,
                    investment,
                ),
            r is Ok ==> (final(self).active_index().contains(investment.investment_id) <==> investment.status
                == InvestmentStatus::Active),
            r is Ok ==> forall|x: u64|
                x != investment.investment_id ==> (final(self).active_index().contains(x) <==> old(
                    self,
                ).active_index().contains(x)),
    {
        let id = investment.investment_id;
        let i = match self.find_index(id) {
            Some(i) => i,
            None => return Err(QuickLendXError::StorageKeyNotFound),
        };
        let ghost old_inv = self.investments@;
        let ghost old_idx = self.active_ids@;
        let now_active = investment.status == InvestmentStatus::Active;
        self.unlist(id);
        let ghost mid_idx = self.active_ids@;
        self.investments.set(i, investment);
        if now_active {
            self.active_ids.push(id);
        }
        proof {
            let s = self.investments@;
            let idx = self.active_ids@;
            assert(s == old_inv.update(i as int, investment));
            assert forall|x: u64| x != id implies (idx.contains(x) <==> old_idx.contains(x)) by {
                if now_active {
                    if idx.contains(x) {
                        let kk = choose|kk: int| 0 <= kk < idx.len() && idx[kk] == x;
                        assert(kk < mid_idx.len());
                        assert(mid_idx[kk] == x);
                    }
                    if mid_idx.contains(x) {
                        let kk = choose|kk: int| 0 <= kk < mid_idx.len() && mid_idx[kk] == x;
                        assert(idx[kk] == x);
                    }
                }
            }
            assert(idx.contains(id) <==> now_active) by {
                if now_active {
                    assert(idx[idx.len() - 1] == id);
                }
            }
            assert forall|a: int, b: int|
                0 <= a < s.len() && 0 <= b < s.len() && a != b implies (#[trigger] s[a]).investment_id
                != (#[trigger] s[b]).investment_id by {
                assert(s[a].investment_id == old_inv[a].investment_id);
                assert(s[b].investment_id == old_inv[b].investment_id);
            }
            assert forall|j: int| 0 <= j < s.len() implies (#[trigger] s[j]).investment_id
                < self.next_id by {
                assert(s[j].investment_id == old_inv[j].investment_id);
            }
            assert(idx.no_duplicates()) by {
                if now_active {
                    assert forall|a: int, b: int|
                        0 <= a < idx.len() && 0 <= b < idx.len() && a != b implies idx[a] != idx[b] by {
                        let m = mid_idx.len() as int;
                        if a == m {
                            assert(mid_idx[b] != id);
                        } else if b == m {
                            assert(mid_idx[a] != id);
                        } else {
                            assert(idx[a] == mid_idx[a] && idx[b] == mid_idx[b]);
                        }
                    }
                }
            }
            assert forall|k: int| 0 <= k < idx.len() implies is_active_id(s, #[trigger] idx[k]) by {
                let x = idx[k];
                if x == id {
                    assert(s[i as int].investment_id == id && s[i as int].status == InvestmentStatus::Active);
                } else {
                    assert(old_idx.contains(x));
                    let o = choose|o: int| 0 <= o < old_idx.len() && old_idx[o] == x;
                    assert(is_active_id(old_inv, old_idx[o]));
                    let w = choose|w: int|
                        0 <= w < old_inv.len() && (#[trigger] old_inv[w]).investment_id == x
                            && old_inv[w].status == InvestmentStatus::Active;
                    assert(w != i);
                    assert(s[w] == old_inv[w]);
                }
            }
            assert forall|j: int|
                0 <= j < s.len() && (#[trigger] s[j]).status == InvestmentStatus::Active implies idx.contains(
                s[j].investment_id,
            ) by {
                if j != i {
                    assert(s[j] == old_inv[j]);
                    assert(old_idx.contains(old_inv[j].investment_id));
                    assert(old_inv[j].investment_id != id);
                }
            }
        }
        Ok(())
    }

    /// Moves the investment with identifier `id` to status `to`.
    ///
    /// Fails with `StorageKeyNotFound` when no such investment is stored and
    /// with `InvalidStatus` when the move is not one from `Active` to a
    /// terminal status. On success the status is set and the identifier
    /// leaves the active index.
    pub fn update_investment_status(&mut self, id: u64, to: InvestmentStatus) -> (r: Result<
        (),
        QuickLendXError,
    >)
        requires
            old(self).wf(),
        ensures
            final(self).wf(),
            !has_id(old(self).stored(), id) ==> r == Err::<(), QuickLendXError>(
                QuickLendXError::StorageKeyNotFound,
            ),
            has_id(old(self).stored(), id) ==> (r is Ok <==> transition_allowed(
                InvestmentStatus::Active,
                to,
            ) && is_active_id(old(self).stored(), id)),
            r is Err ==> final(self).stored() == old(self).stored() && final(self).active_index()
                == old(self).active_index(),
            has_id(old(self).stored(), id) && r is Err ==> r == Err::<(), QuickLendXError>(
                QuickLendXError::InvalidStatus,
            ),
            r is Ok ==> exists|i: int|
                0 <= i < old(self).stored().len() && old(self).stored()[i].investment_id == id
                    && final(self).stored() == old(self).stored().update(
                    i,
                    Investment { status: to, ..old(self).stored()[i] },
                ),
            r is Ok ==> !final(self).active_index().contains(id),
            final(self).next_identifier() == old(self).next_identifier(),
            r is Ok ==> forall|x: u64|
                x != id ==> (final(self).active_index().contains(x) <==> old(
                    self,
                ).active_index().contains(x)),
    {
        let i = match self.find_index(id) {
            Some(i) => i,
            None => return Err(QuickLendXError::StorageKeyNotFound),
        };
        let from = self.investments[i].status;
        let checked = InvestmentStatus::validate_transition(&from, &to);
        if checked.is_err() {
            proof {
                if is_active_id(self.investments@, id) {
                    let w = choose|w: int|
                        0 <= w < self.investments@.len() && (#[trigger] self.investments@[w]).investment_id
                            == id && self.investments@[w].status == InvestmentStatus::Active;
                    assert(w == i);
                }
            }
            return Err(QuickLendXError::InvalidStatus);
        }
        let ghost old_inv = self.investments@;
        let ghost old_idx = self.active_ids@;
        proof {
            assert(is_active_id(old_inv, id));
            assert(old_idx.contains(id));
        }
        self.investments[i].status = to;
        let pos = self.find_active_position(id);
        let k = match pos {
            Some(k) => k,
            None => {
                proof {
                    assert(false);
                }
                return Err(QuickLendXError::InvalidStatus);
            },
        };
        self.active_ids.remove(k);
        proof {
            let s = self.investments@;
            assert(s == old_inv.update(i as int, Investment { status: to, ..old_inv[i as int] }));
            assert forall|kk: int| 0 <= kk < self.active_ids@.len() implies is_active_id(
                s,
                #[trigger] self.active_ids@[kk],
            ) by {
                let o = if kk < k {
                    kk
                } else {
                    kk + 1
                };
                assert(self.active_ids@[kk] == old_idx[o]);
                let w = choose|w: int|
                    0 <= w < old_inv.len() && (#[trigger] old_inv[w]).investment_id == old_idx[o]
                        && old_inv[w].status == InvestmentStatus::Active;
                assert(old_idx[o] != id);
                assert(w != i);
                assert(s[w] == old_inv[w]);
            }
            assert forall|j: int|
                0 <= j < s.len() && (#[trigger] s[j]).status
                    == InvestmentStatus::Active implies self.active_ids@.contains(
                s[j].investment_id,
            ) by {
                assert(j != i);
                assert(s[j] == old_inv[j]);
                let o = choose|o: int| 0 <= o < old_idx.len() && old_idx[o] == old_inv[j].investment_id;
                assert(old_inv[j].investment_id != id);
                assert(o != k);
                if o < k {
                    assert(self.active_ids@[o] == old_idx[o]);
                } else {
                    assert(self.active_ids@[o - 1] == old_idx[o]);
                }
            }
            assert forall|a: int, b: int|
                0 <= a < s.len() && 0 <= b < s.len() && a != b implies (#[trigger] s[a]).investment_id
                != (#[trigger] s[b]).investment_id by {
                assert(s[a].investment_id == old_inv[a].investment_id);
                assert(s[b].investment_id == old_inv[b].investment_id);
            }
            assert forall|j: int| 0 <= j < s.len() implies (#[trigger] s[j]).investment_id
                < self.next_id by {
                assert(s[j].investment_id == old_inv[j].investment_id);
            }
            assert(!self.active_ids@.contains(id)) by {
                if self.active_ids@.contains(id) {
                    let kk = choose|kk: int| 0 <= kk < self.active_ids@.len() && self.active_ids@[kk] == id;
                    let o = if kk < k {
                        kk
                    } else {
                        kk + 1
                    };
                    assert(old_idx[o] == id);
                    assert(old_idx[k as int] == id);
                }
            }
            assert forall|x: u64| x != id implies (self.active_ids@.contains(x)
                <==> old_idx.contains(x)) by {
                if old_idx.contains(x) {
                    let o = choose|o: int| 0 <= o < old_idx.len() && old_idx[o] == x;
                    if o < k {
                        assert(self.active_ids@[o] == x);
                    } else {
                        assert(o != k);
                        assert(self.active_ids@[o - 1] == x);
                    }
                }
                if self.active_ids@.contains(x) {
                    let kk = choose|kk: int| 0 <= kk < self.active_ids@.len() && self.active_ids@[kk] == x;
                    if kk < k {
                        assert(old_idx[kk] == x);
                    } else {
                        assert(old_idx[kk + 1] == x);
                    }
                }
            }
        }
        Ok(())
    }

    /// Identifiers of the active investments.
    pub fn get_active_investment_ids(&self) -> (r: Vec<u64>)
        ensures
            r@ == self.active_index(),
    {
        let mut out: Vec<u64> = Vec::new();
        let mut k: usize = 0;
        while k < self.active_ids.len()
            invariant
                0 <= k <= self.active_ids.len(),
                out@ == self.active_ids@.take(k as int),
            decreases self.active_ids.len() - k,
        {
            out.push(self.active_ids[k]);
            k = k + 1;
            proof {
                assert(out@ =~= self.active_ids@.take(k as int));
            }
        }
        proof {
            assert(self.active_ids@.take(k as int) =~= self.active_ids@);
        }
        out
    }

    /// Checks that every entry of the active index names a stored investment
    /// whose status is `Active`.
    pub fn validate_no_orphan_investments(&self) -> (r: bool)
        requires
            self.wf(),
        ensures
            r == (forall|k: int|
                0 <= k < self.active_index().len() ==> is_active_id(
                    self.stored(),
                    #[trigger] self.active_index()[k],
                )),
            r,
    {
        let mut k: usize = 0;
        while k < self.active_ids.len()
            invariant
                0 <= k <= self.active_ids.len(),
                self.wf(),
                forall|j: int| 0 <= j < k ==> is_active_id(self.investments@, #[trigger] self.active_ids@[j]),
            decreases self.active_ids.len() - k,
        {
            let id = self.active_ids[k];
            proof {
                assert(is_active_id(self.investments@, self.active_ids@[k as int]));
            }
            match self.find_index(id) {
                Some(i) => {
                    if self.investments[i].status != InvestmentStatus::Active {
                        proof {
                            let w = choose|w: int|
                                0 <= w < self.investments@.len() && (#[trigger] self.investments@[w]).investment_id
                                    == id && self.investments@[w].status == InvestmentStatus::Active;
                            assert(w == i);
                        }
                        return false;
                    }
                },
                None => {
                    proof {
                        let w = choose|w: int|
                            0 <= w < self.investments@.len() && (#[trigger] self.investments@[w]).investment_id
                                == id && self.investments@[w].status == InvestmentStatus::Active;
                        assert(has_id(self.investments@, id));
                    }
                    return false;
                },
            }
            k = k + 1;
        }
        true
    }

    /// Attaches an insurance policy to the stored investment `id`, charging
    /// the premium that `calculate_premium` gives.
    ///
    /// Fails with `StorageKeyNotFound` when no such investment is stored and
    /// otherwise as `Investment::add_insurance` does for that premium; on
    /// success returns the premium.
    pub fn add_investment_insurance(
        &mut self,
        id: u64,
        provider: Address,
        coverage_percentage: u32,
    ) -> (r: Result<i128, QuickLendXError>)
        requires
            old(self).wf(),
        ensures
            final(self).wf(),
            !has_id(old(self).stored(), id) ==> r == Err::<i128, QuickLendXError>(
                QuickLendXError::StorageKeyNotFound,
            ) && final(self).stored() == old(self).stored(),
            final(self).active_index() == old(self).active_index(),
            final(self).stored().len() == old(self).stored().len(),
            forall|j: int|
                0 <= j < old(self).stored().len() && old(self).stored()[j].investment_id != id
                    ==> #[trigger] final(self).stored()[j] == old(self).stored()[j],
            has_id(old(self).stored(), id) ==> exists|j: int|
                #![trigger old(self).stored()[j]]
                {
                    let inv = old(self).stored()[j];
                    let p = premium_of(inv.amount as int, coverage_percentage as int);
                    &&& 0 <= j < old(self).stored().len()
                    &&& inv.investment_id == id
                    &&& same_except_insurance(final(self).stored()[j], inv)
                    &&& match add_insurance_error(inv, coverage_percentage as int, p) {
                        Some(e) => r == Err::<i128, QuickLendXError>(e)
                            && final(self).stored()[j].insurance@ == inv.insurance@,
                        None => r == Ok::<i128, QuickLendXError>(p as i128) && final(self).stored()[j].insurance@ == inv.insurance@.push(
                            new_policy(inv, provider, coverage_percentage, p as i128),
                        ),
                    }
                },
    {
        let i = match self.find_index(id) {
            Some(i) => i,
            None => return Err(QuickLendXError::StorageKeyNotFound),
        };
        let premium = Investment::calculate_premium(self.investments[i].amount, coverage_percentage);
        let ghost old_inv = self.investments@;
        let mut inv = self.investments.remove(i);
        let res = inv.add_insurance(provider, coverage_percentage, premium);
        self.investments.insert(i, inv);
        proof {
            let s = self.investments@;
            assert forall|j: int| 0 <= j < s.len() && j != i implies #[trigger] s[j] == old_inv[j] by {
                if j < i {
                } else {
                }
            }
            assert(s.len() == old_inv.len());
            assert forall|j: int| 0 <= j < s.len() implies (#[trigger] s[j]).investment_id
                == old_inv[j].investment_id && s[j].status == old_inv[j].status by {
                if j != i {
                    assert(s[j] == old_inv[j]);
                }
            }
            assert forall|a: int, b: int|
                0 <= a < s.len() && 0 <= b < s.len() && a != b implies (#[trigger] s[a]).investment_id
                != (#[trigger] s[b]).investment_id by {
                assert(s[a].investment_id == old_inv[a].investment_id);
                assert(s[b].investment_id == old_inv[b].investment_id);
            }
            assert forall|kk: int| 0 <= kk < self.active_ids@.len() implies is_active_id(
                s,
                #[trigger] self.active_ids@[kk],
            ) by {
                let w = choose|w: int|
                    0 <= w < old_inv.len() && (#[trigger] old_inv[w]).investment_id
                        == self.active_ids@[kk] && old_inv[w].status == InvestmentStatus::Active;
                assert(s[w].investment_id == old_inv[w].investment_id);
            }
            assert forall|j: int|
                0 <= j < s.len() && (#[trigger] s[j]).status
                    == InvestmentStatus::Active implies self.active_ids@.contains(
                s[j].investment_id,
            ) by {
                assert(old_inv[j].investment_id == s[j].investment_id);
                assert(old_inv[j].status == InvestmentStatus::Active);
            }
            assert forall|j: int| 0 <= j < s.len() implies (#[trigger] s[j]).investment_id
                < self.next_id by {
                assert(s[j].investment_id == old_inv[j].investment_id);
            }
        }
        proof {
            assert(old(self).stored()[i as int] == old_inv[i as int]);
            assert(same_except_insurance(self.investments@[i as int], old_inv[i as int]));
        }
        match res {
            Ok(_) => Ok(premium),
            Err(e) => Err(e),
        }
    }

    /// Insurance policies of the stored investment `id`; `StorageKeyNotFound`
    /// when no such investment is stored.
    pub fn query_investment_insurance(&self, id: u64) -> (r: Result<
        &Vec<crate::investment::InsuranceCoverage>,
        QuickLendXError,
    >)
        requires
            self.wf(),
        ensures
            r is Err <==> !has_id(self.stored(), id),
            r is Err ==> r == Err::<&Vec<crate::investment::InsuranceCoverage>, QuickLendXError>(
                QuickLendXError::StorageKeyNotFound,
            ),
            r matches Ok(v) ==> exists|i: int|
                0 <= i < self.stored().len() && self.stored()[i].investment_id == id
                    && self.stored()[i].insurance@ == v@,
    {
        match self.find_index(id) {
            Some(i) => Ok(&self.investments[i].insurance),
            None => Err(QuickLendXError::StorageKeyNotFound),
        }
    }
}


/// Two investments stored one after the other (each store succeeding, that
/// is its identifier not yet taken) carry different identifiers, the first
/// stays stored as it was, and the identifiers stay pairwise distinct.
pub proof fn lemma_consecutive_stores_keep_first(s: Seq<Investment>, a: Investment, b: Investment)
    requires
        ids_unique(s),
        !has_id(s, a.investment_id),
        !has_id(s.push(a), b.investment_id),
    ensures
        a.investment_id != b.investment_id,
        s.push(a).push(b)[s.len() as int] == a,
        s.push(a).push(b).len() == s.len() + 2,
        forall|i: int| 0 <= i < s.len() ==> #[trigger] s.push(a).push(b)[i] == s[i],
        ids_unique(s.push(a).push(b)),
{
    let t = s.push(a);
    let u = t.push(b);
    assert(t[s.len() as int] == a);
    assert forall|i: int, j: int|
        0 <= i < u.len() && 0 <= j < u.len() && i != j implies (#[trigger] u[i]).investment_id
        != (#[trigger] u[j]).investment_id by {
        if i < s.len() && j < s.len() {
            assert(u[i] == s[i] && u[j] == s[j]);
        } else if i == s.len() && j < s.len() {
            assert(u[j] == s[j]);
        } else if j == s.len() && i < s.len() {
            assert(u[i] == s[i]);
        } else if i == s.len() + 1 {
            assert(u[j] == t[j]);
        } else if j == s.len() + 1 {
            assert(u[i] == t[i]);
        }
    }
}

} // verus!
