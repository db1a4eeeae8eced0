//! The height-indexed weighted-membership store.
//!
//! For each address the store keeps an append-only, height-ordered
//! sequence of checkpoints; a checkpoint records the weight effective
//! from the start of its height, and a checkpoint whose weight is absent
//! records the member's removal. A query "weight as of height `h`"
//! answers from the latest checkpoint at or below `h` and is untouched
//! by anything written later. The aggregate total weight is maintained
//! alongside every write and always equals the sum of the current
//! per-address weights.

use vstd::prelude::*;

use crate::error::ContractError;
use crate::order::{
    addr_lt, lemma_first_above_skip, lemma_str_lt_connected, lemma_str_lt_neq,
    lemma_str_lt_transitive, spec_first_above, spec_str_lt,
};

verus! {

/// One entry of an address's history: the weight effective from the
/// start of `height`, or `None` once the member was removed.
#[derive(Clone, Copy, Debug, PartialEq, Eq, Structural)]
pub struct Checkpoint {
    pub height: u64,
    pub weight: Option<u64>,
}

/// The full history of one address.
#[derive(Clone, Debug)]
pub struct MemberHistory {
    pub addr: String,
    pub checkpoints: Vec<Checkpoint>,
}

/// A member of the group together with its current weight, as listings
/// report it.
#[derive(Clone, Debug)]
pub struct Member {
    pub addr: String,
    pub weight: u64,
}

/// The membership store: one history per address, in the order the
/// addresses first appeared, plus the running total of current weights.
#[derive(Debug)]
pub struct MemberStore {
    pub records: Vec<MemberHistory>,
    pub total: u64,
}

/// The weight effective at height `h` under a history: the weight of the
/// latest checkpoint whose height is at or below `h`, or `None` when no
/// checkpoint reaches back that far.
pub open spec fn spec_weight_in(cps: Seq<Checkpoint>, h: u64) -> Option<u64>
    decreases cps.len(),
{
    if cps.len() == 0 {
        None
    } else if cps.last().height <= h {
        cps.last().weight
    } else {
        spec_weight_in(cps.drop_last(), h)
    }
}

/// The live weight under a history: the weight of its last checkpoint.
pub open spec fn spec_current(cps: Seq<Checkpoint>) -> Option<u64> {
    if cps.len() == 0 {
        None
    } else {
        cps.last().weight
    }
}

/// An absent weight counts as zero.
pub open spec fn weight_of(w: Option<u64>) -> int {
    match w {
        Some(x) => x as int,
        None => 0,
    }
}

/// The sum of the current weights over a sequence of histories.
pub open spec fn spec_total(records: Seq<MemberHistory>) -> int
    decreases records.len(),
{
    if records.len() == 0 {
        0
    } else {
        spec_total(records.drop_last()) + weight_of(spec_current(records.last().checkpoints@))
    }
}

/// Whether some record carries the address.
pub open spec fn spec_has_member(s: MemberStore, addr: Seq<char>) -> bool {
    exists|i: int| 0 <= i < s.records@.len() && (#[trigger] s.records@[i]).addr@ == addr
}

/// The index of the record carrying the address; meaningful only when
/// [`spec_has_member`] holds and the store is well formed, which makes
/// the index unique.
pub open spec fn spec_member_index(s: MemberStore, addr: Seq<char>) -> int {
    choose|i: int| 0 <= i < s.records@.len() && (#[trigger] s.records@[i]).addr@ == addr
}

/// The checkpoint history of an address; empty when the address never
/// appeared.
pub open spec fn spec_history(s: MemberStore, addr: Seq<char>) -> Seq<Checkpoint> {
    if spec_has_member(s, addr) {
        s.records@[spec_member_index(s, addr)].checkpoints@
    } else {
        Seq::empty()
    }
}

/// The weight of an address as of height `h`.
pub open spec fn spec_weight_at(s: MemberStore, addr: Seq<char>, h: u64) -> Option<u64> {
    spec_weight_in(spec_history(s, addr), h)
}

/// The current weight of an address.
pub open spec fn spec_current_weight(s: MemberStore, addr: Seq<char>) -> Option<u64> {
    spec_current(spec_history(s, addr))
}

/// A history the store may hold: at least one checkpoint, heights
/// strictly increasing.
pub open spec fn history_wf(cps: Seq<Checkpoint>) -> bool {
    &&& cps.len() > 0
    &&& forall|k: int, l: int| 0 <= k < l < cps.len() ==> cps[k].height < cps[l].height
}

/// The history left after writing a checkpoint: a fresh history for a
/// new address, a replaced last checkpoint when the height repeats
/// within one block, an appended checkpoint otherwise.
pub open spec fn spec_history_after_set(
    cps: Seq<Checkpoint>,
    height: u64,
    weight: Option<u64>,
) -> Seq<Checkpoint> {
    if cps.len() == 0 {
        seq![Checkpoint { height, weight }]
    } else if cps.last().height == height {
        cps.update(cps.len() - 1, Checkpoint { height, weight })
    } else {
        cps.push(Checkpoint { height, weight })
    }
}

/// Whether a write is admissible: the height may not fall below the
/// address's latest checkpoint, and the adjusted total must still fit in
/// 64 bits.
pub open spec fn spec_set_allowed(
    s: MemberStore,
    addr: Seq<char>,
    weight: Option<u64>,
    height: u64,
) -> bool {
    let hist = spec_history(s, addr);
    &&& (hist.len() == 0 || hist.last().height <= height)
    &&& s.total - weight_of(spec_current(hist)) + weight_of(weight) <= u64::MAX
}

/// The error a refused write reports: a backwards height is the fatal
/// internal error, anything else is the total leaving the 64-bit range.
pub open spec fn spec_set_err(
    s: MemberStore,
    addr: Seq<char>,
    weight: Option<u64>,
    height: u64,
) -> ContractError {
    let hist = spec_history(s, addr);
    if hist.len() > 0 && hist.last().height > height {
        ContractError::InvalidHeight
    } else {
        ContractError::Overflow
    }
}

impl MemberStore {
    /// Well-formedness: every history is non-empty and strictly
    /// height-ordered, the records are sorted strictly ascending by
    /// address — which makes addresses unique — and the running total
    /// equals the sum of the current weights.
    pub open spec fn wf(self) -> bool {
        &&& forall|i: int|
            0 <= i < self.records@.len() ==> history_wf(
                (#[trigger] self.records@[i]).checkpoints@,
            )
        &&& forall|i: int, j: int|
            0 <= i < j < self.records@.len() ==> self.records@[i].addr@ != self.records@[j].addr@
        &&& forall|i: int, j: int|
            0 <= i < j < self.records@.len() ==> spec_str_lt(
                self.records@[i].addr@,
                self.records@[j].addr@,
            )
        &&& self.total as int == spec_total(self.records@)
    }

    /// An empty store: no members, total zero.
    pub fn new() -> (r: MemberStore)
        ensures
            r.wf(),
            r.records@.len() == 0,
            r.total == 0,
    {
        MemberStore { records: Vec::new(), total: 0 }
    }
}

impl MemberStore {
    /// The index of the record carrying the address, if any.
    fn find_index(&self, addr: &String) -> (r: Option<usize>)
        ensures
            match r {
                Some(i) => i < self.records@.len() && self.records@[i as int].addr@ == addr@,
                None => !spec_has_member(*self, addr@),
            },
    {
        let n = self.records.len();
        let mut i: usize = 0;
        while i < n
            invariant
                i <= n,
                n == self.records@.len(),
                forall|j: int| 0 <= j < i ==> (#[trigger] self.records@[j]).addr@ != addr@,
            decreases n - i,
        {
            if self.records[i].addr == *addr {
                return Some(i);
            }
            i = i + 1;
        }
        None
    }

    /// The position where a fresh address belongs: everything before it
    /// sorts below the address, everything from it on sorts above.
    fn find_insert_pos(&self, addr: &String) -> (r: usize)
        requires
            self.wf(),
            !spec_has_member(*self, addr@),
        ensures
            r <= self.records@.len(),
            forall|j: int|
                0 <= j < r ==> spec_str_lt((#[trigger] self.records@[j]).addr@, addr@),
            forall|j: int|
                r <= j < self.records@.len() ==> spec_str_lt(
                    addr@,
                    (#[trigger] self.records@[j]).addr@,
                ),
    {
        let n = self.records.len();
        let mut k: usize = 0;
        while k < n
            invariant
                k <= n,
                n == self.records@.len(),
                self.wf(),
                !spec_has_member(*self, addr@),
                forall|j: int|
                    0 <= j < k ==> spec_str_lt((#[trigger] self.records@[j]).addr@, addr@),
            decreases n - k,
        {
            if addr_lt(&self.records[k].addr, addr) {
                k = k + 1;
            } else {
                proof {
                    assert(self.records@[k as int].addr@ != addr@);
                    lemma_str_lt_connected(addr@, self.records@[k as int].addr@);
                    assert forall|j: int| k <= j < self.records@.len() implies spec_str_lt(
                        addr@,
                        (#[trigger] self.records@[j]).addr@,
                    ) by {
                        if j > k {
                            lemma_str_lt_transitive(
                                addr@,
                                self.records@[k as int].addr@,
                                self.records@[j].addr@,
                            );
                        }
                    }
                }
                return k;
            }
        }
        n
    }

    /// The current weight of the address: `None` when the address never
    /// appeared or was removed, `Some(0)` for a non-voting member.
    pub fn weight(&self, addr: &String) -> (r: Option<u64>)
        requires
            self.wf(),
        ensures
            r == spec_current_weight(*self, addr@),
    {
        match self.find_index(addr) {
            Some(i) => {
                proof {
                    lemma_index_resolves(*self, i as int);
                }
                let cps = &self.records[i].checkpoints;
                let len = cps.len();
                cps[len - 1].weight
            },
            None => None,
        }
    }

    /// The weight of the address effective at the start of height `h`:
    /// the weight of the latest checkpoint at or below `h`. Checkpoints
    /// written above `h` play no role in the answer.
    pub fn weight_at(&self, addr: &String, h: u64) -> (r: Option<u64>)
        requires
            self.wf(),
        ensures
            r == spec_weight_at(*self, addr@, h),
    {
        match self.find_index(addr) {
            Some(i) => {
                proof {
                    lemma_index_resolves(*self, i as int);
                }
                let cps = &self.records[i].checkpoints;
                let mut k = cps.len();
                proof {
                    assert(cps@.subrange(0, k as int) =~= cps@);
                }
                while k > 0
                    invariant
                        k <= cps@.len(),
                        spec_weight_in(cps@.subrange(0, k as int), h) == spec_weight_in(cps@, h),
                        spec_weight_in(cps@, h) == spec_weight_at(*self, addr@, h),
                    decreases k,
                {
                    let cp = cps[k - 1];
                    if cp.height <= h {
                        proof {
                            assert(cps@.subrange(0, k as int).last() == cp);
                        }
                        return cp.weight;
                    }
                    proof {
                        assert(cps@.subrange(0, k as int).drop_last() =~= cps@.subrange(
                            0,
                            k as int - 1,
                        ));
                    }
                    k = k - 1;
                }
                proof {
                    assert(cps@.subrange(0, 0) =~= Seq::<Checkpoint>::empty());
                }
                None
            },
            None => None,
        }
    }

    /// The current total weight, maintained incrementally and equal to
    /// the sum of all current per-address weights.
    pub fn total_weight(&self) -> (r: u64)
        requires
            self.wf(),
        ensures
            r == self.total,
            r as int == spec_total(self.records@),
    {
        self.total
    }

    /// A deep copy of the store, answering every query exactly as the
    /// original does.
    pub fn snapshot(&self) -> (r: MemberStore)
        requires
            self.wf(),
        ensures
            r.wf(),
            r.total == self.total,
            r.records@.len() == self.records@.len(),
            forall|a: Seq<char>| #[trigger] spec_history(r, a) == spec_history(*self, a),
            forall|a: Seq<char>| #[trigger] spec_has_member(r, a) == spec_has_member(*self, a),
    {
        let mut records: Vec<MemberHistory> = Vec::new();
        let n = self.records.len();
        let mut k: usize = 0;
        while k < n
            invariant
                k <= n,
                n == self.records@.len(),
                records@.len() == k,
                forall|i: int|
                    0 <= i < k ==> (#[trigger] records@[i]).addr@ == self.records@[i].addr@
                        && records@[i].checkpoints@ == self.records@[i].checkpoints@,
            decreases n - k,
        {
            let rec = &self.records[k];
            let cps = rec.checkpoints.clone();
            proof {
                assert forall|j: int| 0 <= j < cps@.len() implies cps@[j]
                    == rec.checkpoints@[j] by {
                    assert(cloned::<Checkpoint>(rec.checkpoints@[j], cps@[j]));
                }
                assert(cps@ =~= rec.checkpoints@);
            }
            records.push(MemberHistory { addr: rec.addr.clone(), checkpoints: cps });
            k = k + 1;
        }
        let r = MemberStore { records, total: self.total };
        proof {
            lemma_mirrored_totals(r.records@, self.records@);
            assert forall|a: Seq<char>| #[trigger] spec_has_member(r, a) == spec_has_member(
                *self,
                a,
            ) by {
                if spec_has_member(*self, a) {
                    let i = spec_member_index(*self, a);
                    assert(r.records@[i].addr@ == a);
                }
                if spec_has_member(r, a) {
                    let i = spec_member_index(r, a);
                    assert(self.records@[i].addr@ == a);
                }
            }
            assert forall|a: Seq<char>| #[trigger] spec_history(r, a) == spec_history(
                *self,
                a,
            ) by {
                if spec_has_member(*self, a) {
                    let i = spec_member_index(*self, a);
                    lemma_index_resolves(*self, i);
                    lemma_index_resolves(r, i);
                }
            }
        }
        r
    }

    /// Records a checkpoint for the address at the given height, updates
    /// the live weight and adjusts the running total.
    ///
    /// A height below the address's latest checkpoint is refused as a
    /// fatal internal error; a second write within the same height
    /// replaces the latest checkpoint. Writes at heights above some `h`
    /// never change what [`Self::weight_at`] answers as of `h`.
    pub fn set(&mut self, addr: &String, weight: Option<u64>, height: u64) -> (r: Result<
        (),
        ContractError,
    >)
        requires
            old(self).wf(),
        ensures
            final(self).wf(),
            r is Ok <==> spec_set_allowed(*old(self), addr@, weight, height),
            r is Err ==> *final(self) == *old(self) && r == Err::<(), _>(
                spec_set_err(*old(self), addr@, weight, height),
            ),
            r is Ok ==> spec_history(*final(self), addr@) == spec_history_after_set(
                spec_history(*old(self), addr@),
                height,
                weight,
            ),
            r is Ok ==> forall|a: Seq<char>|
                a != addr@ ==> spec_history(*final(self), a) == spec_history(*old(self), a),
            r is Ok ==> final(self).total as int == old(self).total - weight_of(
                spec_current(spec_history(*old(self), addr@)),
            ) + weight_of(weight),
            r is Ok ==> forall|a: Seq<char>, hh: u64|
                hh < height ==> spec_weight_at(*final(self), a, hh) == spec_weight_at(
                    *old(self),
                    a,
                    hh,
                ),
    {
        let found = self.find_index(addr);
        match found {
            Some(i) => {
                proof {
                    lemma_index_resolves(*self, i as int);
                }
                let cps_len = self.records[i].checkpoints.len();
                let last = self.records[i].checkpoints[cps_len - 1];
                if height < last.height {
                    return Err(ContractError::InvalidHeight);
                }
                let old_cur: u64 = match last.weight {
                    Some(w) => w,
                    None => 0,
                };
                proof {
                    lemma_current_le_total(self.records@, i as int);
                }
                let reduced: u64 = self.total - old_cur;
                let new_w: u64 = match weight {
                    Some(w) => w,
                    None => 0,
                };
                let new_total: u64 = match reduced.checked_add(new_w) {
                    Some(t) => t,
                    None => {
                        return Err(ContractError::Overflow);
                    },
                };
                let ghost pre = *self;
                let cp = Checkpoint { height, weight };
                if last.height == height {
                    self.records[i].checkpoints[cps_len - 1] = cp;
                } else {
                    self.records[i].checkpoints.push(cp);
                }
                self.total = new_total;
                proof {
                    let recs = pre.records@;
                    let cps0 = recs[i as int].checkpoints@;
                    let rec2 = self.records@[i as int];
                    assert(self.records@ =~= recs.update(i as int, rec2));
                    assert(rec2.checkpoints@ == spec_history_after_set(cps0, height, weight));
                    // The rewritten history is still strictly height-ordered.
                    assert(history_wf(rec2.checkpoints@)) by {
                        if cps0.last().height == height {
                            assert(forall|k: int|
                                0 <= k < rec2.checkpoints@.len() ==> (
                                #[trigger] rec2.checkpoints@[k]).height == cps0[k].height);
                        }
                    }
                    // Addresses are untouched, so uniqueness carries over.
                    assert(forall|k: int|
                        0 <= k < self.records@.len() ==> (#[trigger] self.records@[k]).addr@
                            == recs[k].addr@);
                    // The running total moves by exactly the weight delta.
                    lemma_total_update(recs, i as int, rec2);
                    // The address resolves to the same record before and after.
                    lemma_index_resolves(*self, i as int);
                    // Nothing below the written height changes, anywhere.
                    assert forall|hh: u64|
                        hh < height implies spec_weight_in(rec2.checkpoints@, hh)
                        == spec_weight_in(cps0, hh) by {
                        lemma_weight_in_after_set(cps0, height, weight, hh);
                    }
                    lemma_set_frame(pre, *self, i as int, height);
                }
                Ok(())
            },
            None => {
                let new_w: u64 = match weight {
                    Some(w) => w,
                    None => 0,
                };
                let new_total: u64 = match self.total.checked_add(new_w) {
                    Some(t) => t,
                    None => {
                        return Err(ContractError::Overflow);
                    },
                };
                let ghost pre = *self;
                let pos = self.find_insert_pos(addr);
                let mut cps: Vec<Checkpoint> = Vec::new();
                cps.push(Checkpoint { height, weight });
                self.records.insert(pos, MemberHistory { addr: addr.clone(), checkpoints: cps });
                self.total = new_total;
                proof {
                    let recs = pre.records@;
                    let p = pos as int;
                    let rec2 = self.records@[p];
                    assert(self.records@ == recs.insert(p, rec2)) by {
                        recs.insert_ensures(p, rec2);
                    }
                    recs.insert_ensures(p, rec2);
                    lemma_total_insert(recs, p, rec2);
                    // The fresh record lands in its sorted gap, keeping
                    // the order strict and the addresses distinct.
                    assert forall|k: int, l: int|
                        0 <= k < l < self.records@.len() implies spec_str_lt(
                        self.records@[k].addr@,
                        self.records@[l].addr@,
                    ) by {
                        if l < p {
                        } else if k < p && l == p {
                            assert(self.records@[k] == recs[k]);
                        } else if k < p && l > p {
                            assert(self.records@[k] == recs[k]);
                            assert(self.records@[l] == recs[l - 1]);
                        } else if k == p {
                            assert(self.records@[l] == recs[l - 1]);
                        } else {
                            assert(self.records@[k] == recs[k - 1]);
                            assert(self.records@[l] == recs[l - 1]);
                        }
                    }
                    assert forall|k: int, l: int|
                        0 <= k < l < self.records@.len() implies self.records@[k].addr@
                        != self.records@[l].addr@ by {
                        lemma_str_lt_neq(self.records@[k].addr@, self.records@[l].addr@);
                    }
                    lemma_index_resolves(*self, p);
                    assert(spec_history(pre, addr@) =~= Seq::<Checkpoint>::empty());
                    // A fresh one-checkpoint history answers nothing below
                    // its height.
                    assert(rec2.checkpoints@.len() == 1);
                    assert(rec2.checkpoints@.last() == Checkpoint { height, weight });
                    assert forall|hh: u64|
                        hh < height implies spec_weight_in(rec2.checkpoints@, hh) is None by {
                        assert(rec2.checkpoints@.drop_last() =~= Seq::<Checkpoint>::empty());
                        assert(spec_weight_in(Seq::<Checkpoint>::empty(), hh) is None);
                        assert(spec_weight_in(rec2.checkpoints@, hh) == spec_weight_in(
                            rec2.checkpoints@.drop_last(),
                            hh,
                        ));
                    }
                    lemma_insert_frame(pre, *self, p, height);
                }
                Ok(())
            },
        }
    }
}

/// Frame and snapshot facts after an in-place update of record `i`:
/// other addresses keep their histories, and every answer below `height`
/// is unchanged for every address.
proof fn lemma_set_frame(pre: MemberStore, post: MemberStore, i: int, height: u64)
    requires
        forall|k: int, l: int|
            0 <= k < l < pre.records@.len() ==> pre.records@[k].addr@ != pre.records@[l].addr@,
        0 <= i < pre.records@.len(),
        post.records@ == pre.records@.update(i, post.records@[i]),
        post.records@[i].addr@ == pre.records@[i].addr@,
        forall|hh: u64|
            hh < height ==> spec_weight_in(post.records@[i].checkpoints@, hh) == spec_weight_in(
                pre.records@[i].checkpoints@,
                hh,
            ),
    ensures
        forall|a: Seq<char>|
            a != pre.records@[i].addr@ ==> spec_history(post, a) == spec_history(pre, a),
        forall|a: Seq<char>, hh: u64|
            hh < height ==> spec_weight_at(post, a, hh) == spec_weight_at(pre, a, hh),
{
    let addr = pre.records@[i].addr@;
    assert(forall|k: int|
        0 <= k < post.records@.len() ==> (#[trigger] post.records@[k]).addr@
            == pre.records@[k].addr@);
    assert forall|a: Seq<char>| a != addr implies spec_history(post, a) == spec_history(pre, a) by {
        lemma_history_frame(pre, post, i, a);
    }
    assert forall|a: Seq<char>, hh: u64|
        hh < height implies spec_weight_at(post, a, hh) == spec_weight_at(pre, a, hh) by {
        if a == addr {
            lemma_index_resolves(pre, i);
            lemma_index_resolves(post, i);
        } else {
            lemma_history_frame(pre, post, i, a);
        }
    }
}

/// Histories of untouched addresses are unchanged by an update of
/// record `i`.
proof fn lemma_history_frame(pre: MemberStore, post: MemberStore, i: int, a: Seq<char>)
    requires
        forall|k: int, l: int|
            0 <= k < l < pre.records@.len() ==> pre.records@[k].addr@ != pre.records@[l].addr@,
        0 <= i < pre.records@.len(),
        post.records@ == pre.records@.update(i, post.records@[i]),
        post.records@[i].addr@ == pre.records@[i].addr@,
        a != pre.records@[i].addr@,
    ensures
        spec_history(post, a) == spec_history(pre, a),
{
    assert(post.records@.len() == pre.records@.len());
    assert(forall|k: int, l: int|
        0 <= k < l < post.records@.len() ==> post.records@[k].addr@ != post.records@[l].addr@);
    if spec_has_member(pre, a) {
        let j = spec_member_index(pre, a);
        assert(0 <= j < pre.records@.len() && pre.records@[j].addr@ == a);
        assert(j != i);
        assert(post.records@[j] == pre.records@[j]);
        lemma_index_resolves(pre, j);
        lemma_index_resolves(post, j);
    } else {
        if spec_has_member(post, a) {
            let j = spec_member_index(post, a);
            assert(0 <= j < post.records@.len() && post.records@[j].addr@ == a);
            assert(j != i);
            assert(pre.records@[j].addr@ == a);
            assert(spec_has_member(pre, a));
        }
    }
}

/// Histories of existing addresses are unchanged by appending a record
/// with a fresh address.
proof fn lemma_insert_frame(pre: MemberStore, post: MemberStore, pos: int, height: u64)
    requires
        forall|k: int, l: int|
            0 <= k < l < pre.records@.len() ==> pre.records@[k].addr@ != pre.records@[l].addr@,
        forall|k: int, l: int|
            0 <= k < l < post.records@.len() ==> post.records@[k].addr@ != post.records@[l].addr@,
        0 <= pos <= pre.records@.len(),
        !spec_has_member(pre, post.records@[pos].addr@),
        post.records@ == pre.records@.insert(pos, post.records@[pos]),
        forall|hh: u64|
            hh < height ==> spec_weight_in(post.records@[pos].checkpoints@, hh) is None,
    ensures
        forall|a: Seq<char>|
            a != post.records@[pos].addr@ ==> spec_history(post, a) == spec_history(pre, a),
        forall|a: Seq<char>, hh: u64|
            hh < height ==> spec_weight_at(post, a, hh) == spec_weight_at(pre, a, hh),
{
    let n = pre.records@.len() as int;
    let addr = post.records@[pos].addr@;
    pre.records@.insert_ensures(pos, post.records@[pos]);
    assert forall|a: Seq<char>| a != addr implies spec_history(post, a) == spec_history(pre, a) by {
        if spec_has_member(pre, a) {
            let j = spec_member_index(pre, a);
            assert(0 <= j < n && pre.records@[j].addr@ == a);
            let j2 = if j < pos {
                j
            } else {
                j + 1
            };
            assert(post.records@[j2] == pre.records@[j]);
            lemma_index_resolves(pre, j);
            lemma_index_resolves(post, j2);
        } else {
            if spec_has_member(post, a) {
                let j2 = spec_member_index(post, a);
                assert(0 <= j2 < n + 1 && post.records@[j2].addr@ == a);
                assert(j2 != pos);
                let j = if j2 < pos {
                    j2
                } else {
                    j2 - 1
                };
                assert(pre.records@[j].addr@ == a);
            }
        }
    }
    assert forall|a: Seq<char>, hh: u64|
        hh < height implies spec_weight_at(post, a, hh) == spec_weight_at(pre, a, hh) by {
        if a == addr {
            lemma_index_resolves(post, pos);
            assert(spec_history(pre, a) =~= Seq::<Checkpoint>::empty());
        }
    }
}

/// The pairs a member listing reports: every record whose current
/// weight is present — zero included — with that weight, in the store's
/// order, which is ascending by address. Removed members are left out.
pub open spec fn spec_listing(records: Seq<MemberHistory>) -> Seq<(Seq<char>, u64)>
    decreases records.len(),
{
    if records.len() == 0 {
        Seq::empty()
    } else {
        let rest = spec_listing(records.drop_last());
        match spec_current(records.last().checkpoints@) {
            Some(w) => rest.push((records.last().addr@, w)),
            None => rest,
        }
    }
}

/// The names of a listing's entries, in order.
pub open spec fn spec_listing_names(listing: Seq<(Seq<char>, u64)>) -> Seq<Seq<char>> {
    listing.map(|i: int, e: (Seq<char>, u64)| e.0)
}

/// The page size a listing uses: the caller's wish, defaulted and
/// capped.
pub open spec fn spec_page_size(limit: Option<u32>) -> int {
    let wished = match limit {
        None => 10int,
        Some(l) => l as int,
    };
    if wished <= 30 {
        wished
    } else {
        30
    }
}

/// The caller's page wish, defaulted to ten entries and capped at
/// thirty.
pub fn page_size(limit: Option<u32>) -> (r: usize)
    ensures
        r == spec_page_size(limit),
{
    let wished: u32 = match limit {
        None => 10,
        Some(l) => l,
    };
    if wished <= 30 {
        wished as usize
    } else {
        30
    }
}

impl MemberStore {
    /// One page of the member listing, in ascending address order,
    /// holding everything that sorts strictly after the cursor — listed
    /// there or not — up to the page cap. Every reported member carries
    /// exactly its current weight.
    pub fn list_members(&self, start_after: Option<&String>, limit: Option<u32>) -> (r: Vec<
        Member,
    >)
        requires
            self.wf(),
        ensures
            forall|k: int|
                0 <= k < r@.len() ==> spec_current_weight(*self, (#[trigger] r@[k]).addr@) == Some(
                    r@[k].weight,
                ),
            forall|k: int, l: int|
                0 <= k < l < r@.len() ==> spec_str_lt(r@[k].addr@, r@[l].addr@),
            ({
                let listing = spec_listing(self.records@);
                let first = match start_after {
                    None => 0int,
                    Some(a) => spec_first_above(spec_listing_names(listing), a@, 0),
                };
                let count = if spec_page_size(limit) <= listing.len() - first {
                    spec_page_size(limit)
                } else {
                    listing.len() - first
                };
                &&& r@.len() == count
                &&& forall|k: int|
                    0 <= k < count ==> ((#[trigger] r@[k]).addr@, r@[k].weight) == listing[first
                        + k]
            }),
    {
        let n = self.records.len();
        let mut full: Vec<Member> = Vec::new();
        let mut i: usize = 0;
        while i < n
            invariant
                i <= n,
                n == self.records@.len(),
                self.wf(),
                forall|k: int|
                    0 <= k < full@.len() ==> spec_current_weight(
                        *self,
                        (#[trigger] full@[k]).addr@,
                    ) == Some(full@[k].weight),
                forall|k: int|
                    0 <= k < full@.len() ==> ((#[trigger] full@[k]).addr@, full@[k].weight)
                        == spec_listing(self.records@.subrange(0, i as int))[k],
                full@.len() == spec_listing(self.records@.subrange(0, i as int)).len(),
                forall|k: int, m: int|
                    0 <= k < full@.len() && i <= m < n ==> spec_str_lt(
                        (#[trigger] full@[k]).addr@,
                        (#[trigger] self.records@[m]).addr@,
                    ),
                forall|k: int, l: int|
                    0 <= k < l < full@.len() ==> spec_str_lt(full@[k].addr@, full@[l].addr@),
            decreases n - i,
        {
            let ghost prefix = self.records@.subrange(0, i as int);
            proof {
                assert(self.records@.subrange(0, i as int + 1).drop_last() =~= prefix);
                assert(self.records@.subrange(0, i as int + 1).last() == self.records@[i as int]);
            }
            let rec = &self.records[i];
            let len = rec.checkpoints.len();
            match rec.checkpoints[len - 1].weight {
                Some(w) => {
                    proof {
                        lemma_index_resolves(*self, i as int);
                    }
                    full.push(Member { addr: rec.addr.clone(), weight: w });
                },
                None => {},
            }
            i = i + 1;
        }
        proof {
            assert(self.records@.subrange(0, n as int) =~= self.records@);
        }
        let ghost listing = spec_listing(self.records@);
        let ghost names = spec_listing_names(listing);
        proof {
            assert(forall|t: int|
                0 <= t < listing.len() ==> #[trigger] names[t] == listing[t].0);
        }
        let start: usize = match start_after {
            None => 0,
            Some(a) => {
                let flen = full.len();
                let mut j: usize = 0;
                let mut s: usize = flen;
                let mut found = false;
                while j < flen && !found
                    invariant
                        j <= flen,
                        flen == full@.len(),
                        full@.len() == listing.len(),
                        names == spec_listing_names(listing),
                        forall|t: int|
                            0 <= t < listing.len() ==> ((#[trigger] full@[t]).addr@, full@[t].weight)
                                == listing[t],
                        !found ==> s == flen && forall|t: int|
                            0 <= t < j ==> !spec_str_lt(a@, #[trigger] names[t]),
                        found ==> s < j <= flen && spec_str_lt(a@, names[s as int]) && forall|
                            t: int,
                        | 0 <= t < s ==> !spec_str_lt(a@, #[trigger] names[t]),
                    decreases flen - j,
                {
                    if addr_lt(a, &full[j].addr) {
                        proof {
                            assert(names[j as int] == full@[j as int].addr@);
                        }
                        s = j;
                        found = true;
                    }
                    j = j + 1;
                }
                proof {
                    if found {
                        lemma_first_above_skip(names, a@, s as int);
                    } else {
                        lemma_first_above_skip(names, a@, flen as int);
                        assert(spec_first_above(names, a@, flen as int) == names.len());
                        assert(names.len() == listing.len());
                    }
                    assert(s == spec_first_above(names, a@, 0));
                }
                s
            },
        };
        let cap = page_size(limit);
        let mut page: Vec<Member> = Vec::new();
        let mut k: usize = start;
        while k < full.len() && page.len() < cap
            invariant
                start <= k <= full@.len(),
                page@.len() <= cap,
                cap == spec_page_size(limit),
                page@.len() == k - start,
                forall|t: int| 0 <= t < page@.len() ==> #[trigger] page@[t] == full@[start + t],
                forall|t: int|
                    0 <= t < full@.len() ==> spec_current_weight(
                        *self,
                        (#[trigger] full@[t]).addr@,
                    ) == Some(full@[t].weight),
                full@.len() == spec_listing(self.records@).len(),
                forall|t: int|
                    0 <= t < full@.len() ==> ((#[trigger] full@[t]).addr@, full@[t].weight)
                        == spec_listing(self.records@)[t],
                forall|t: int, u: int|
                    0 <= t < u < full@.len() ==> spec_str_lt(full@[t].addr@, full@[u].addr@),
            decreases full@.len() - k,
        {
            let m = &full[k];
            page.push(Member { addr: m.addr.clone(), weight: m.weight });
            k = k + 1;
        }
        page
    }
}

/// Two record sequences with elementwise equal histories have equal
/// sums.
proof fn lemma_mirrored_totals(a: Seq<MemberHistory>, b: Seq<MemberHistory>)
    requires
        a.len() == b.len(),
        forall|i: int|
            0 <= i < a.len() ==> (#[trigger] a[i]).checkpoints@ == b[i].checkpoints@,
    ensures
        spec_total(a) == spec_total(b),
    decreases a.len(),
{
    if a.len() > 0 {
        lemma_mirrored_totals(a.drop_last(), b.drop_last());
    }
}

/// The sum of current weights is never negative.
pub proof fn lemma_total_nonneg(records: Seq<MemberHistory>)
    ensures
        spec_total(records) >= 0,
    decreases records.len(),
{
    if records.len() > 0 {
        lemma_total_nonneg(records.drop_last());
    }
}

/// One record's current weight never exceeds the sum.
pub proof fn lemma_current_le_total(records: Seq<MemberHistory>, i: int)
    requires
        0 <= i < records.len(),
    ensures
        weight_of(spec_current(records[i].checkpoints@)) <= spec_total(records),
    decreases records.len(),
{
    lemma_total_nonneg(records.drop_last());
    if i == records.len() - 1 {
    } else {
        lemma_current_le_total(records.drop_last(), i);
    }
}

/// Replacing one record adjusts the sum by the difference of the two
/// current weights.
pub proof fn lemma_total_update(records: Seq<MemberHistory>, i: int, r: MemberHistory)
    requires
        0 <= i < records.len(),
    ensures
        spec_total(records.update(i, r)) == spec_total(records) - weight_of(
            spec_current(records[i].checkpoints@),
        ) + weight_of(spec_current(r.checkpoints@)),
    decreases records.len(),
{
    let updated = records.update(i, r);
    if i == records.len() - 1 {
        assert(updated.drop_last() =~= records.drop_last());
    } else {
        assert(updated.drop_last() =~= records.drop_last().update(i, r));
        lemma_total_update(records.drop_last(), i, r);
    }
}

/// Inserting a record anywhere adds its current weight to the sum.
pub proof fn lemma_total_insert(records: Seq<MemberHistory>, pos: int, r: MemberHistory)
    requires
        0 <= pos <= records.len(),
    ensures
        spec_total(records.insert(pos, r)) == spec_total(records) + weight_of(
            spec_current(r.checkpoints@),
        ),
    decreases records.len(),
{
    let ins = records.insert(pos, r);
    records.insert_ensures(pos, r);
    if pos == records.len() {
        assert(ins.drop_last() =~= records);
        assert(ins.last() == r);
    } else {
        assert(ins.last() == records[records.len() - 1]);
        assert(ins.drop_last() =~= records.drop_last().insert(pos, r)) by {
            records.drop_last().insert_ensures(pos, r);
        }
        lemma_total_insert(records.drop_last(), pos, r);
    }
}

/// Checkpoints written above `h` never change what a history answers as
/// of `h`.
pub proof fn lemma_weight_in_ignores_later(cps: Seq<Checkpoint>, ext: Seq<Checkpoint>, h: u64)
    requires
        forall|k: int| 0 <= k < ext.len() ==> (#[trigger] ext[k]).height > h,
    ensures
        spec_weight_in(cps + ext, h) == spec_weight_in(cps, h),
    decreases ext.len(),
{
    if ext.len() == 0 {
        assert(cps + ext =~= cps);
    } else {
        let shorter = ext.drop_last();
        assert((cps + ext).drop_last() =~= cps + shorter);
        lemma_weight_in_ignores_later(cps, shorter, h);
    }
}

/// A one-checkpoint extension above `h` leaves the answer as of `h`
/// unchanged; a replacement of the last checkpoint at an unchanged
/// height above `h` does too.
pub proof fn lemma_weight_in_after_set(cps: Seq<Checkpoint>, height: u64, weight: Option<u64>, h: u64)
    requires
        h < height,
        cps.len() == 0 || cps.last().height <= height,
    ensures
        spec_weight_in(spec_history_after_set(cps, height, weight), h) == spec_weight_in(cps, h),
{
    let after = spec_history_after_set(cps, height, weight);
    if cps.len() == 0 {
        assert(after.len() == 1);
        assert(after.last().height == height);
        assert(after.drop_last() =~= cps);
        assert(spec_weight_in(after, h) == spec_weight_in(cps, h));
    } else if cps.last().height == height {
        assert(after.len() == cps.len());
        assert(after.last() == Checkpoint { height, weight });
        assert(after.drop_last() =~= cps.drop_last());
        assert(spec_weight_in(after, h) == spec_weight_in(cps.drop_last(), h));
        assert(spec_weight_in(cps, h) == spec_weight_in(cps.drop_last(), h));
    } else {
        assert(after.last() == Checkpoint { height, weight });
        assert(after.drop_last() =~= cps);
        assert(spec_weight_in(after, h) == spec_weight_in(cps, h));
    }
}

/// Of two writes at one height, the later one wins outright: the
/// second write replaces the checkpoint the first one left.
pub proof fn lemma_set_absorbs(
    cps: Seq<Checkpoint>,
    height: u64,
    w1: Option<u64>,
    w2: Option<u64>,
)
    requires
        cps.len() == 0 || cps.last().height <= height,
    ensures
        spec_history_after_set(spec_history_after_set(cps, height, w1), height, w2)
            == spec_history_after_set(cps, height, w2),
{
    let once = spec_history_after_set(cps, height, w1);
    assert(once.len() > 0);
    assert(once.last() == Checkpoint { height, weight: w1 });
    let twice = spec_history_after_set(once, height, w2);
    assert(twice == once.update(once.len() - 1, Checkpoint { height, weight: w2 }));
    if cps.len() == 0 {
        assert(twice =~= spec_history_after_set(cps, height, w2));
    } else if cps.last().height == height {
        assert(twice =~= cps.update(cps.len() - 1, Checkpoint { height, weight: w2 }));
    } else {
        assert(twice =~= cps.push(Checkpoint { height, weight: w2 }));
    }
}

/// Writing the same weight at the same height twice is the same as
/// writing it once: a rewrite within one height replaces the latest
/// checkpoint, and replacing it with itself changes nothing. This is
/// what makes a bulk resynchronization of the whole roster idempotent.
pub proof fn lemma_set_idempotent(cps: Seq<Checkpoint>, height: u64, weight: Option<u64>)
    ensures
        spec_history_after_set(spec_history_after_set(cps, height, weight), height, weight)
            == spec_history_after_set(cps, height, weight),
{
    let once = spec_history_after_set(cps, height, weight);
    assert(once.len() > 0);
    assert(once.last() == Checkpoint { height, weight });
    assert(once.update(once.len() - 1, Checkpoint { height, weight }) =~= once);
}

/// In a store with unique addresses, the record at any index is the one
/// its own address resolves to.
pub proof fn lemma_index_resolves(s: MemberStore, i: int)
    requires
        forall|k: int, l: int|
            0 <= k < l < s.records@.len() ==> s.records@[k].addr@ != s.records@[l].addr@,
        0 <= i < s.records@.len(),
    ensures
        spec_has_member(s, s.records@[i].addr@),
        spec_member_index(s, s.records@[i].addr@) == i,
        spec_history(s, s.records@[i].addr@) == s.records@[i].checkpoints@,
{
    let addr = s.records@[i].addr@;
    assert(spec_has_member(s, addr));
    let j = spec_member_index(s, addr);
    if j != i {
        if j < i {
            assert(s.records@[j].addr@ != s.records@[i].addr@);
        } else {
            assert(s.records@[i].addr@ != s.records@[j].addr@);
        }
    }
}

/// The total a well-formed store reports is exactly the sum of the
/// current weights of its records: the aggregate can never drift from
/// the per-address state.
pub proof fn lemma_total_is_weight_sum(s: MemberStore)
    requires
        s.wf(),
    ensures
        s.total as int == spec_total(s.records@),
{
}



/// The effective weights and the running total after the first `k`
/// writes of a batch against store `s`: later writes to one address
/// supersede earlier ones, and every write moves the total by the
/// difference to the weight it replaces.
pub open spec fn spec_sweep(
    s: MemberStore,
    ws: Seq<(Seq<char>, Option<u64>)>,
    k: int,
) -> (Map<Seq<char>, Option<u64>>, int)
    decreases k,
{
    if k <= 0 {
        (Map::empty(), s.total as int)
    } else {
        let (m, t) = spec_sweep(s, ws, k - 1);
        let addr = ws[k - 1].0;
        let w = ws[k - 1].1;
        let prev = if m.dom().contains(addr) {
            m[addr]
        } else {
            spec_current_weight(s, addr)
        };
        (m.insert(addr, w), t - weight_of(prev) + weight_of(w))
    }
}

/// Whether the `k`-th write is the batch's first touch of its address.
pub open spec fn spec_first_write(ws: Seq<(Seq<char>, Option<u64>)>, k: int) -> bool {
    forall|j: int| 0 <= j < k ==> (#[trigger] ws[j]).0 != ws[k].0
}

/// Whether the `k`-th write of the batch is admissible in order: a
/// first touch of an address must not fall below its latest checkpoint,
/// and the total after the write must still fit in 64 bits.
pub open spec fn spec_write_ok(
    s: MemberStore,
    ws: Seq<(Seq<char>, Option<u64>)>,
    height: u64,
    k: int,
) -> bool {
    &&& (spec_first_write(ws, k) ==> {
        let hist = spec_history(s, ws[k].0);
        hist.len() == 0 || hist.last().height <= height
    })
    &&& spec_sweep(s, ws, k + 1).1 <= u64::MAX
}

/// Whether the whole batch goes through.
pub open spec fn spec_sweep_ok(
    s: MemberStore,
    ws: Seq<(Seq<char>, Option<u64>)>,
    height: u64,
) -> bool {
    forall|k: int| 0 <= k < ws.len() ==> #[trigger] spec_write_ok(s, ws, height, k)
}

/// What a store looks like after a batch of writes at one height: each
/// touched address carries one checkpoint at that height with its last
/// written weight, every other address is untouched, the total is the
/// batch's fold, and nothing below the height changes for anyone.
pub open spec fn spec_sweep_applied(
    pre: MemberStore,
    post: MemberStore,
    ws: Seq<(Seq<char>, Option<u64>)>,
    height: u64,
) -> bool {
    let m = spec_sweep(pre, ws, ws.len() as int).0;
    &&& post.total as int == spec_sweep(pre, ws, ws.len() as int).1
    &&& forall|a: Seq<char>|
        m.dom().contains(a) ==> #[trigger] spec_history(post, a) == spec_history_after_set(
            spec_history(pre, a),
            height,
            m[a],
        )
    &&& forall|a: Seq<char>|
        !m.dom().contains(a) ==> #[trigger] spec_history(post, a) == spec_history(pre, a)
    &&& forall|a: Seq<char>, hh: u64|
        hh < height ==> spec_weight_at(post, a, hh) == spec_weight_at(pre, a, hh)
}

/// An address is in the fold's domain exactly when some earlier write
/// touched it.
pub proof fn lemma_sweep_dom(
    s: MemberStore,
    ws: Seq<(Seq<char>, Option<u64>)>,
    k: int,
    a: Seq<char>,
)
    requires
        0 <= k <= ws.len(),
    ensures
        spec_sweep(s, ws, k).0.dom().contains(a) <==> exists|j: int|
            0 <= j < k && (#[trigger] ws[j]).0 == a,
    decreases k,
{
    if k > 0 {
        lemma_sweep_dom(s, ws, k - 1, a);
    }
}

impl MemberStore {
    /// Applies a batch of checkpoint writes at one height, all or
    /// nothing: if any write is inadmissible the store is left exactly
    /// as it was and the error of the first refused write comes back.
    pub fn apply_sweep(&mut self, writes: &Vec<(String, Option<u64>)>, height: u64) -> (r: Result<
        (),
        ContractError,
    >)
        requires
            old(self).wf(),
        ensures
            final(self).wf(),
            r is Ok <==> spec_sweep_ok(
                *old(self),
                old(self).spec_writes_view(writes@),
                height,
            ),
            r is Ok ==> spec_sweep_applied(
                *old(self),
                *final(self),
                old(self).spec_writes_view(writes@),
                height,
            ),
            r is Err ==> {
                &&& final(self).total == old(self).total
                &&& forall|a: Seq<char>|
                    #[trigger] spec_history(*final(self), a) == spec_history(*old(self), a)
                &&& (r == Err::<(), _>(ContractError::InvalidHeight) || r == Err::<(), _>(
                    ContractError::Overflow,
                ))
            },
            r is Err && (forall|k: int|
                0 <= k < old(self).spec_writes_view(writes@).len() ==> spec_history(
                    *old(self),
                    (#[trigger] old(self).spec_writes_view(writes@)[k]).0,
                ).len() == 0 || spec_history(
                    *old(self),
                    old(self).spec_writes_view(writes@)[k].0,
                ).last().height <= height) ==> r == Err::<(), _>(ContractError::Overflow),
    {
        let ghost pre = *self;
        let ghost ws = pre.spec_writes_view(writes@);
        let snap = self.snapshot();
        let n = writes.len();
        let mut k: usize = 0;
        while k < n
            invariant
                k <= n,
                n == ws.len(),
                pre == *old(self),
                pre.wf(),
                ws == pre.spec_writes_view(writes@),
                forall|t: int|
                    0 <= t < ws.len() ==> #[trigger] ws[t] == (writes@[t].0@, writes@[t].1),
                self.wf(),
                snap.wf(),
                snap.total == pre.total,
                forall|a: Seq<char>| #[trigger] spec_history(snap, a) == spec_history(pre, a),
                forall|j: int| 0 <= j < k ==> #[trigger] spec_write_ok(pre, ws, height, j),
                self.total as int == spec_sweep(pre, ws, k as int).1,
                forall|a: Seq<char>|
                    spec_sweep(pre, ws, k as int).0.dom().contains(a)
                        ==> #[trigger] spec_history(*self, a) == spec_history_after_set(
                        spec_history(pre, a),
                        height,
                        spec_sweep(pre, ws, k as int).0[a],
                    ),
                forall|a: Seq<char>|
                    !spec_sweep(pre, ws, k as int).0.dom().contains(a)
                        ==> #[trigger] spec_history(*self, a) == spec_history(pre, a),
                forall|a: Seq<char>|
                    #[trigger] spec_sweep(pre, ws, k as int).0.dom().contains(a)
                        ==> spec_history(pre, a).len() == 0 || spec_history(
                        pre,
                        a,
                    ).last().height <= height,
                forall|a: Seq<char>, hh: u64|
                    hh < height ==> spec_weight_at(*self, a, hh) == spec_weight_at(pre, a, hh),
            decreases n - k,
        {
            let ghost m_k = spec_sweep(pre, ws, k as int).0;
            let addr = &writes[k].0;
            let w = writes[k].1;
            let ghost before = *self;
            proof {
                assert(ws[k as int] == (addr@, w));
                lemma_sweep_dom(pre, ws, k as int, addr@);
                if m_k.dom().contains(addr@) {
                    // A touched address carries one checkpoint at this
                    // height, so the follow-up write lands on it.
                    assert(spec_history(*self, addr@) == spec_history_after_set(
                        spec_history(pre, addr@),
                        height,
                        m_k[addr@],
                    ));
                    assert(spec_history(*self, addr@).last() == Checkpoint {
                        height,
                        weight: m_k[addr@],
                    });
                }
            }
            let res = self.set(addr, w, height);
            match res {
                Ok(()) => {},
                Err(e) => {
                    proof {
                        // The refused write pins down the failed check:
                        // either a first touch found a checkpoint above
                        // this height, or the total left its range.
                        assert(!spec_set_allowed(before, addr@, w, height));
                        if m_k.dom().contains(addr@) {
                            assert(spec_history(before, addr@).last().height <= height);
                            assert(weight_of(spec_current(spec_history(before, addr@)))
                                == weight_of(m_k[addr@]));
                            assert(spec_sweep(pre, ws, k as int + 1).1 > u64::MAX);
                        } else {
                            assert(spec_history(before, addr@) == spec_history(pre, addr@));
                            if spec_history(pre, addr@).len() == 0 || spec_history(
                                pre,
                                addr@,
                            ).last().height <= height {
                                assert(spec_sweep(pre, ws, k as int + 1).1 > u64::MAX);
                            } else {
                                assert(spec_first_write(ws, k as int)) by {
                                    assert forall|j: int| 0 <= j < k as int implies (
                                    #[trigger] ws[j]).0 != ws[k as int].0 by {
                                        if ws[j].0 == addr@ {
                                            assert(m_k.dom().contains(addr@));
                                        }
                                    }
                                }
                            }
                        }
                        assert(!spec_write_ok(pre, ws, height, k as int));
                        assert(!spec_sweep_ok(pre, ws, height));
                        // With every first touch at an admissible height
                        // the only possible refusal is the total's range.
                        if spec_history(pre, ws[k as int].0).len() == 0 || spec_history(
                            pre,
                            ws[k as int].0,
                        ).last().height <= height {
                            if m_k.dom().contains(addr@) {
                                assert(spec_set_err(before, addr@, w, height)
                                    == ContractError::Overflow);
                            } else {
                                assert(spec_set_err(before, addr@, w, height)
                                    == ContractError::Overflow);
                            }
                        }
                    }
                    self.members_restore(snap);
                    return Err(e);
                },
            }
            proof {
                let m_k1 = spec_sweep(pre, ws, k as int + 1).0;
                assert(m_k1 == m_k.insert(addr@, w));
                // The history the write leaves collapses with any
                // earlier write at this height.
                if m_k.dom().contains(addr@) {
                    lemma_set_absorbs(spec_history(pre, addr@), height, m_k[addr@], w);
                }
                assert(spec_history(*self, addr@) == spec_history_after_set(
                    spec_history(pre, addr@),
                    height,
                    w,
                ));
                // The total moved by exactly the fold's step.
                assert(weight_of(spec_current(spec_history(before, addr@))) == weight_of(
                    if m_k.dom().contains(addr@) {
                        m_k[addr@]
                    } else {
                        spec_current_weight(pre, addr@)
                    },
                ));
                assert(self.total as int == spec_sweep(pre, ws, k as int + 1).1);
                // This write was admissible.
                assert(spec_write_ok(pre, ws, height, k as int)) by {
                    if spec_first_write(ws, k as int) {
                        assert(!m_k.dom().contains(addr@));
                        assert(spec_history(before, addr@) == spec_history(pre, addr@));
                    }
                }
                // Untouched addresses stay on their old histories.
                assert forall|a: Seq<char>| !m_k1.dom().contains(a) implies #[trigger] spec_history(
                    *self,
                    a,
                ) == spec_history(pre, a) by {
                    assert(a != addr@);
                    assert(spec_history(*self, a) == spec_history(before, a));
                }
                assert forall|a: Seq<char>| m_k1.dom().contains(a) implies #[trigger] spec_history(
                    *self,
                    a,
                ) == spec_history_after_set(spec_history(pre, a), height, m_k1[a]) by {
                    if a != addr@ {
                        assert(spec_history(*self, a) == spec_history(before, a));
                        assert(m_k.dom().contains(a));
                        assert(m_k1[a] == m_k[a]);
                    }
                }
                assert forall|a: Seq<char>| #[trigger] m_k1.dom().contains(a) implies
                    spec_history(pre, a).len() == 0 || spec_history(pre, a).last().height
                    <= height by {
                    if a == addr@ && !m_k.dom().contains(a) {
                        assert(spec_history(before, a) == spec_history(pre, a));
                        assert(spec_set_allowed(before, a, w, height));
                    }
                }
            }
            k = k + 1;
        }
        Ok(())
    }

    /// The batch a caller hands in, at the spec level.
    pub open spec fn spec_writes_view(
        self,
        writes: Seq<(String, Option<u64>)>,
    ) -> Seq<(Seq<char>, Option<u64>)> {
        writes.map(|i: int, p: (String, Option<u64>)| (p.0@, p.1))
    }

    /// Puts the saved copy back; only `apply_sweep` uses it to undo a
    /// half-applied batch.
    fn members_restore(&mut self, snap: MemberStore)
        ensures
            *final(self) == snap,
    {
        *self = snap;
    }
}


/// The effective weights and running total of a batch against an empty
/// store: what an instantiation roster folds to.
pub open spec fn spec_fresh_sweep(
    ws: Seq<(Seq<char>, Option<u64>)>,
    k: int,
) -> (Map<Seq<char>, Option<u64>>, int)
    decreases k,
{
    if k <= 0 {
        (Map::empty(), 0)
    } else {
        let (m, t) = spec_fresh_sweep(ws, k - 1);
        let addr = ws[k - 1].0;
        let w = ws[k - 1].1;
        let prev = if m.dom().contains(addr) {
            m[addr]
        } else {
            None
        };
        (m.insert(addr, w), t - weight_of(prev) + weight_of(w))
    }
}

/// Whether the `k`-th write of a fresh batch keeps the total in range;
/// against an empty store no height can be in the way.
pub open spec fn spec_fresh_write_ok(ws: Seq<(Seq<char>, Option<u64>)>, k: int) -> bool {
    spec_fresh_sweep(ws, k + 1).1 <= u64::MAX
}

/// Whether a whole fresh batch goes through.
pub open spec fn spec_fresh_sweep_ok(ws: Seq<(Seq<char>, Option<u64>)>) -> bool {
    forall|k: int| 0 <= k < ws.len() ==> #[trigger] spec_fresh_write_ok(ws, k)
}

/// Against an empty store the general fold is the fresh fold.
pub proof fn lemma_sweep_fresh(s: MemberStore, ws: Seq<(Seq<char>, Option<u64>)>, k: int)
    requires
        s.records@.len() == 0,
        s.total == 0,
        0 <= k <= ws.len(),
    ensures
        spec_sweep(s, ws, k) == spec_fresh_sweep(ws, k),
    decreases k,
{
    if k > 0 {
        lemma_sweep_fresh(s, ws, k - 1);
        assert(!spec_has_member(s, ws[k - 1].0));
    }
}

/// Against an empty store a batch goes through exactly when the fresh
/// batch does: every history is empty, so only the totals decide.
pub proof fn lemma_sweep_ok_fresh(s: MemberStore, ws: Seq<(Seq<char>, Option<u64>)>, height: u64)
    requires
        s.records@.len() == 0,
        s.total == 0,
    ensures
        spec_sweep_ok(s, ws, height) == spec_fresh_sweep_ok(ws),
{
    assert forall|k: int| 0 <= k < ws.len() implies #[trigger] spec_write_ok(s, ws, height, k)
        == spec_fresh_write_ok(ws, k) by {
        assert(!spec_has_member(s, ws[k].0));
        assert(spec_history(s, ws[k].0).len() == 0);
        lemma_sweep_fresh(s, ws, k + 1);
    }
    assert forall|k: int| 0 <= k < ws.len() implies #[trigger] spec_fresh_write_ok(ws, k)
        == spec_write_ok(s, ws, height, k) by {
        assert(!spec_has_member(s, ws[k].0));
        assert(spec_history(s, ws[k].0).len() == 0);
        lemma_sweep_fresh(s, ws, k + 1);
    }
}

/// The fold assigns an address the value of its last write.
pub proof fn lemma_sweep_last_value(
    s: MemberStore,
    ws: Seq<(Seq<char>, Option<u64>)>,
    j: int,
)
    requires
        0 <= j < ws.len(),
        forall|k: int| j < k < ws.len() ==> (#[trigger] ws[k]).0 != ws[j].0,
    ensures
        spec_sweep(s, ws, ws.len() as int).0.dom().contains(ws[j].0),
        spec_sweep(s, ws, ws.len() as int).0[ws[j].0] == ws[j].1,
    decreases ws.len(),
{
    let n = ws.len() as int;
    if j == n - 1 {
    } else {
        assert(spec_sweep(s, ws, n).0 == spec_sweep(s, ws, n - 1).0.insert(
            ws[n - 1].0,
            ws[n - 1].1,
        ));
        lemma_sweep_last_value_upto(s, ws, j, n - 1);
    }
}

/// The fold up to `upto` assigns an address the value of its last
/// write below `upto`.
proof fn lemma_sweep_last_value_upto(
    s: MemberStore,
    ws: Seq<(Seq<char>, Option<u64>)>,
    j: int,
    upto: int,
)
    requires
        0 <= j < upto <= ws.len(),
        forall|k: int| j < k < upto ==> (#[trigger] ws[k]).0 != ws[j].0,
    ensures
        spec_sweep(s, ws, upto).0.dom().contains(ws[j].0),
        spec_sweep(s, ws, upto).0[ws[j].0] == ws[j].1,
    decreases upto,
{
    if j < upto - 1 {
        lemma_sweep_last_value_upto(s, ws, j, upto - 1);
    }
}


/// When every write that touches an address carries one same value,
/// the fold assigns that value.
pub proof fn lemma_sweep_uniform_value(
    s: MemberStore,
    ws: Seq<(Seq<char>, Option<u64>)>,
    a: Seq<char>,
    v: Option<u64>,
)
    requires
        exists|j: int| 0 <= j < ws.len() && (#[trigger] ws[j]).0 == a,
        forall|k: int| 0 <= k < ws.len() && (#[trigger] ws[k]).0 == a ==> ws[k].1 == v,
    ensures
        spec_sweep(s, ws, ws.len() as int).0.dom().contains(a),
        spec_sweep(s, ws, ws.len() as int).0[a] == v,
{
    let j = choose|j: int| 0 <= j < ws.len() && (#[trigger] ws[j]).0 == a;
    lemma_sweep_uniform_value_upto(s, ws, a, v, j, ws.len() as int);
}

/// The same, for a fold cut off at `upto`.
proof fn lemma_sweep_uniform_value_upto(
    s: MemberStore,
    ws: Seq<(Seq<char>, Option<u64>)>,
    a: Seq<char>,
    v: Option<u64>,
    j: int,
    upto: int,
)
    requires
        0 <= j < upto <= ws.len(),
        ws[j].0 == a,
        forall|k: int| 0 <= k < ws.len() && (#[trigger] ws[k]).0 == a ==> ws[k].1 == v,
    ensures
        spec_sweep(s, ws, upto).0.dom().contains(a),
        spec_sweep(s, ws, upto).0[a] == v,
    decreases upto,
{
    if j < upto - 1 {
        lemma_sweep_uniform_value_upto(s, ws, a, v, j, upto - 1);
    }
}

} // verus!
