//! What acquiring, suspending, recovering and ending locks does to the lock
//! information of each byte of an allocation.
use vstd::prelude::*;
use vstd::std_specs::iter::IteratorSpec;
use crate::allocation::Allocation;
use crate::ordered_keys::lemma_u64_keys_ordered;
use crate::lock::{AccessKind, DynamicLifetime, Lock, LockInfo, LockInfoView, LockView, WriteLockId,
    lock_wf, spec_access_permitted, suspensions_wf};

verus! {

broadcast use vstd::std_specs::btree::group_btree_axioms;

/// The lock information of a byte that nobody has locked or suspended.
pub open spec fn default_info() -> LockInfoView {
    LockInfoView { suspended: Seq::empty(), active: LockView::NoLock }
}

/// The write locks that a suspension table names, in its order.
pub open spec fn suspension_keys(s: Seq<(WriteLockId, Seq<u64>)>) -> Seq<WriteLockId> {
    s.map_values(|e: (WriteLockId, Seq<u64>)| e.0)
}

/// Whether `l` is a write lock held by `frame`.
pub open spec fn is_own_write_lock(l: LockView, frame: usize) -> bool {
    match l {
        LockView::WriteLock(lft) => lft.frame == frame,
        _ => false,
    }
}

/// One change to the lock information of each byte of a range.
#[derive(Copy, Clone, Debug)]
pub enum LockOp {
    /// Take a lock of the given kind for `lifetime`.
    Acquire { kind: AccessKind, lifetime: DynamicLifetime },
    /// Release the write lock of `frame`, and register a suspension of write
    /// lock `id` for `region` when one is given.
    Suspend { frame: usize, id: WriteLockId, region: Option<u64> },
    /// Remove one suspension of write lock `id` for `suspended_region`; once
    /// none is left, take the write lock again for `frame` and `lock_region`.
    Recover { frame: usize, id: WriteLockId, lock_region: Option<u64>, suspended_region: u64 },
}

/// The lock in effect after taking a lock of kind `kind` for `lft`, where that is allowed.
pub open spec fn acquired(l: LockView, kind: AccessKind, lft: DynamicLifetime) -> LockView {
    match l {
        LockView::NoLock => match kind {
            AccessKind::Write => LockView::WriteLock(lft),
            AccessKind::Read => LockView::ReadLock(seq![lft]),
        },
        LockView::ReadLock(v) => match kind {
            AccessKind::Read => LockView::ReadLock(v.push(lft)),
            AccessKind::Write => l,
        },
        LockView::WriteLock(_) => l,
    }
}

/// The suspension table with one more suspension of `id` for `region`.
pub open spec fn add_suspension(s: Seq<(WriteLockId, Seq<u64>)>, id: WriteLockId, region: u64) -> Seq<
    (WriteLockId, Seq<u64>),
> {
    match suspension_keys(s).index_of_first(id) {
        Some(k) => s.update(k, (id, s[k].1.push(region))),
        None => s.push((id, seq![region])),
    }
}

/// The suspension table with the first suspension of `id` for `region`
/// removed, and whether none of `id` is left; an entry left empty goes.
pub open spec fn remove_suspension(s: Seq<(WriteLockId, Seq<u64>)>, id: WriteLockId, region: u64) -> (
    Seq<(WriteLockId, Seq<u64>)>,
    bool,
) {
    match suspension_keys(s).index_of_first(id) {
        None => (s, true),
        Some(k) => {
            let regions = s[k].1.remove(s[k].1.index_of_first(region).unwrap());
            if regions.len() == 0 {
                (s.remove(k), true)
            } else {
                (s.update(k, (id, regions)), false)
            }
        },
    }
}

/// What `op` makes of the lock information `i` of one byte.
pub open spec fn op_step(op: LockOp, i: LockInfoView) -> LockInfoView {
    match op {
        LockOp::Acquire { kind, lifetime } => LockInfoView {
            suspended: i.suspended,
            active: acquired(i.active, kind, lifetime),
        },
        LockOp::Suspend { frame, id, region } => LockInfoView {
            suspended: match region {
                Some(r) => add_suspension(i.suspended, id, r),
                None => i.suspended,
            },
            active: if is_own_write_lock(i.active, frame) {
                LockView::NoLock
            } else {
                i.active
            },
        },
        LockOp::Recover { frame, id, lock_region, suspended_region } => {
            let (s, got) = remove_suspension(i.suspended, id, suspended_region);
            LockInfoView {
                suspended: s,
                active: if got && i.active is NoLock {
                    LockView::WriteLock(DynamicLifetime { frame, region: lock_region })
                } else {
                    i.active
                },
            }
        },
    }
}

/// Whether `op` is refused on a byte with lock information `i`.
pub open spec fn op_fails(op: LockOp, i: LockInfoView) -> bool {
    match op {
        LockOp::Acquire { kind, lifetime } => !spec_access_permitted(i.active, None, kind),
        LockOp::Suspend { frame, id, region } => {
            &&& !is_own_write_lock(i.active, frame)
            &&& !(i.active is NoLock)
            &&& (region is None || suspension_keys(i.suspended).index_of_first(id) is None)
        },
        LockOp::Recover { frame, id, lock_region, suspended_region } => {
            &&& remove_suspension(i.suspended, id, suspended_region).1
            &&& !(i.active is NoLock)
        },
    }
}

/// Whether `op` cannot be carried out on a byte with lock information `i`
/// at all: recovering a suspension of a write lock that is suspended, but
/// not for the given region.
pub open spec fn op_stuck(op: LockOp, i: LockInfoView) -> bool {
    match op {
        LockOp::Recover { frame, id, lock_region, suspended_region } => match suspension_keys(
            i.suspended,
        ).index_of_first(id) {
            Some(k) => !i.suspended[k].1.contains(suspended_region),
            None => false,
        },
        _ => false,
    }
}

/// Lock information that can occur: a read lock has a holder, and no write
/// lock is suspended under two entries.
pub open spec fn info_wf(i: LockInfoView) -> bool {
    lock_wf(i.active) && suspensions_wf(i.suspended)
}

/// The view of a suspension table.
pub open spec fn suspensions_view(v: Seq<(WriteLockId, Vec<u64>)>) -> Seq<(WriteLockId, Seq<u64>)> {
    v.map_values(|e: (WriteLockId, Vec<u64>)| (e.0, e.1@))
}

/// Where write lock `id` stands in the suspension table, if it is there.
fn find_suspension(s: &Vec<(WriteLockId, Vec<u64>)>, id: WriteLockId) -> (r: Option<usize>)
    ensures
        match r {
            Some(k) => suspension_keys(suspensions_view(s@)).index_of_first(id) == Some(k as int),
            None => suspension_keys(suspensions_view(s@)).index_of_first(id) is None,
        },
{
    let ghost keys = suspension_keys(suspensions_view(s@));
    let mut j: usize = 0;
    while j < s.len()
        invariant
            keys == suspension_keys(suspensions_view(s@)),
            keys.len() == s@.len(),
            j <= s@.len(),
            forall|m: int| 0 <= m < j ==> keys[m] != id,
        decreases s@.len() - j,
    {
        if s[j].0 == id {
            proof {
                assert(keys[j as int] == id);
                keys.index_of_first_ensures(id);
                assert(keys.contains(id));
                let k = keys.index_of_first(id).unwrap();
                assert(k == j as int);
            }
            return Some(j);
        }
        j = j + 1;
    }
    proof {
        keys.index_of_first_ensures(id);
        if keys.contains(id) {
            let m = choose|m: int| 0 <= m < keys.len() && keys[m] == id;
            assert(keys[m] != id);
        }
    }
    None
}

/// Where `region` first stands in `regions`, if it is there.
fn find_region(regions: &Vec<u64>, region: u64) -> (r: Option<usize>)
    ensures
        match r {
            Some(k) => regions@.index_of_first(region) == Some(k as int),
            None => regions@.index_of_first(region) is None,
        },
{
    let mut j: usize = 0;
    while j < regions.len()
        invariant
            j <= regions@.len(),
            forall|m: int| 0 <= m < j ==> regions@[m] != region,
        decreases regions@.len() - j,
    {
        if regions[j] == region {
            proof {
                regions@.index_of_first_ensures(region);
                assert(regions@.contains(region));
            }
            return Some(j);
        }
        j = j + 1;
    }
    proof {
        regions@.index_of_first_ensures(region);
        if regions@.contains(region) {
            let m = choose|m: int| 0 <= m < regions@.len() && regions@[m] == region;
            assert(regions@[m] != region);
        }
    }
    None
}

/// Takes a lock of kind `kind` for `lifetime` on a byte, unless its lock refuses that.
fn acquire_info(info: LockInfo, kind: AccessKind, lifetime: DynamicLifetime) -> (r: (LockInfo, bool))
    requires
        info_wf(info@),
    ensures
        r.0@ == op_step(LockOp::Acquire { kind, lifetime }, info@),
        r.1 == op_fails(LockOp::Acquire { kind, lifetime }, info@),
        info_wf(r.0@),
{
    if !info.access_permitted(None, kind) {
        return (info, true);
    }
    let LockInfo { suspended, active } = info;
    let active = match active {
        Lock::NoLock => match kind {
            AccessKind::Write => Lock::WriteLock(lifetime),
            AccessKind::Read => {
                let mut v: Vec<DynamicLifetime> = Vec::new();
                v.push(lifetime);
                assert(v@ =~= seq![lifetime]);
                Lock::ReadLock(v)
            },
        },
        Lock::ReadLock(mut v) => {
            v.push(lifetime);
            Lock::ReadLock(v)
        },
        Lock::WriteLock(l) => Lock::WriteLock(l),
    };
    let r = LockInfo { suspended, active };
    proof {
        assert(r@.suspended == info@.suspended);
    }
    (r, false)
}

/// The view of a suspension table after removing entry `k`.
proof fn lemma_suspensions_view_remove(v: Seq<(WriteLockId, Vec<u64>)>, k: int)
    requires
        0 <= k < v.len(),
    ensures
        suspensions_view(v.remove(k)) == suspensions_view(v).remove(k),
{
    assert(suspensions_view(v.remove(k)) =~= suspensions_view(v).remove(k));
}

/// Removing an entry keeps the write locks of a suspension table distinct.
proof fn lemma_suspensions_wf_remove(s: Seq<(WriteLockId, Seq<u64>)>, k: int)
    requires
        0 <= k < s.len(),
        suspensions_wf(s),
    ensures
        suspensions_wf(s.remove(k)),
{
    let t = s.remove(k);
    assert forall|a: int, b: int| 0 <= a < t.len() && 0 <= b < t.len() && a != b implies #[trigger] t[a].0
        != #[trigger] t[b].0 by {
        let a1 = if a < k { a } else { a + 1 };
        let b1 = if b < k { b } else { b + 1 };
        assert(t[a] == s[a1]);
        assert(t[b] == s[b1]);
    }
}

/// Releases the write lock of `frame` on a byte, and registers a suspension
/// of `id` for `region` when one is given.
fn suspend_info(info: LockInfo, frame: usize, id: WriteLockId, region: Option<u64>) -> (r: (
    LockInfo,
    bool,
))
    requires
        info_wf(info@),
    ensures
        r.0@ == op_step(LockOp::Suspend { frame, id, region }, info@),
        r.1 == op_fails(LockOp::Suspend { frame, id, region }, info@),
        info_wf(r.0@),
{
    let ghost old_s = info@.suspended;
    let LockInfo { mut suspended, active } = info;
    proof {
        assert(old_s =~= suspensions_view(suspended@));
    }
    let is_our_lock = match &active {
        Lock::WriteLock(lft) => lft.frame == frame,
        _ => false,
    };
    let active = if is_our_lock {
        Lock::NoLock
    } else {
        active
    };
    let mut refused = false;
    if let Some(suspend_region) = region {
        let found = find_suspension(&suspended, id);
        let new_suspension = found.is_none();
        match found {
            Some(k) => {
                let ghost before = suspended@;
                proof {
                    suspension_keys(old_s).index_of_first_ensures(id);
                    assert(suspension_keys(old_s).index_of_first(id) == Some(k as int));
                    assert(old_s[k as int] == (before[k as int].0, before[k as int].1@));
                    assert(suspension_keys(old_s)[k as int] == old_s[k as int].0);
                }
                let (kid, mut regions) = suspended.remove(k);
                regions.push(suspend_region);
                suspended.insert(k, (kid, regions));
                proof {
                    let keys = suspension_keys(old_s);
                    keys.index_of_first_ensures(id);
                    assert(kid == id);
                    assert(suspended@ =~= before.update(k as int, (kid, regions)));
                    assert(suspensions_view(suspended@) =~= old_s.update(
                        k as int,
                        (id, old_s[k as int].1.push(suspend_region)),
                    ));
                    let t = suspensions_view(suspended@);
                    assert forall|a: int, b: int|
                        0 <= a < t.len() && 0 <= b < t.len() && a != b implies #[trigger] t[a].0
                        != #[trigger] t[b].0 by {
                        assert(t[a].0 == old_s[a].0);
                        assert(t[b].0 == old_s[b].0);
                    }
                }
            },
            None => {
                let ghost before = suspended@;
                let mut regions: Vec<u64> = Vec::new();
                regions.push(suspend_region);
                assert(regions@ =~= seq![suspend_region]);
                suspended.push((id, regions));
                proof {
                    let keys = suspension_keys(old_s);
                    keys.index_of_first_ensures(id);
                    assert(suspensions_view(suspended@) =~= old_s.push((id, seq![suspend_region])));
                    let t = suspensions_view(suspended@);
                    assert forall|a: int, b: int|
                        0 <= a < t.len() && 0 <= b < t.len() && a != b implies #[trigger] t[a].0
                        != #[trigger] t[b].0 by {
                        if a == old_s.len() {
                            assert(keys[b] == old_s[b].0);
                            assert(!keys.contains(id));
                        } else if b == old_s.len() {
                            assert(keys[a] == old_s[a].0);
                            assert(!keys.contains(id));
                        } else {
                            assert(t[a] == old_s[a]);
                            assert(t[b] == old_s[b]);
                        }
                    }
                }
            },
        }
        if new_suspension != is_our_lock {
            refused = match &active {
                Lock::NoLock => false,
                _ => true,
            };
        }
    } else if !is_our_lock {
        refused = match &active {
            Lock::NoLock => false,
            _ => true,
        };
    }
    (LockInfo { suspended, active }, refused)
}

/// Removes a suspension of `id` for `suspended_region` from a byte; once
/// none is left, takes the write lock for `frame` and `lock_region`, which
/// is refused where another lock is in effect.
fn recover_info(
    info: LockInfo,
    frame: usize,
    id: WriteLockId,
    lock_region: Option<u64>,
    suspended_region: u64,
) -> (r: (LockInfo, bool))
    requires
        info_wf(info@),
        !op_stuck(LockOp::Recover { frame, id, lock_region, suspended_region }, info@),
    ensures
        r.0@ == op_step(LockOp::Recover { frame, id, lock_region, suspended_region }, info@),
        r.1 == op_fails(LockOp::Recover { frame, id, lock_region, suspended_region }, info@),
        info_wf(r.0@),
{
    let ghost old_s = info@.suspended;
    let LockInfo { mut suspended, active } = info;
    proof {
        assert(old_s =~= suspensions_view(suspended@));
    }
    let got_the_lock = match find_suspension(&suspended, id) {
        None => true,
        Some(k) => {
            let ghost before = suspended@;
            proof {
                suspension_keys(old_s).index_of_first_ensures(id);
                assert(suspension_keys(old_s).index_of_first(id) == Some(k as int));
                assert(old_s[k as int] == (before[k as int].0, before[k as int].1@));
                assert(suspension_keys(old_s)[k as int] == old_s[k as int].0);
                assert(old_s[k as int].1.contains(suspended_region));
            }
            let (kid, mut regions) = suspended.remove(k);
            proof {
                lemma_suspensions_view_remove(before, k as int);
                lemma_suspensions_wf_remove(old_s, k as int);
                assert(regions@ == old_s[k as int].1);
            }
            let idx = match find_region(&regions, suspended_region) {
                Some(idx) => idx,
                None => {
                    proof {
                        regions@.index_of_first_ensures(suspended_region);
                        assert(false);
                    }
                    0
                },
            };
            proof {
                regions@.index_of_first_ensures(suspended_region);
            }
            regions.remove(idx);
            if regions.len() == 0 {
                true
            } else {
                let ghost mid = suspended@;
                suspended.insert(k, (kid, regions));
                proof {
                    assert(kid == id);
                    assert(suspended@ =~= before.update(k as int, (kid, regions)));
                    assert(suspensions_view(suspended@) =~= old_s.update(k as int, (id, regions@)));
                    let t = suspensions_view(suspended@);
                    assert forall|a: int, b: int|
                        0 <= a < t.len() && 0 <= b < t.len() && a != b implies #[trigger] t[a].0
                        != #[trigger] t[b].0 by {
                        assert(t[a].0 == old_s[a].0);
                        assert(t[b].0 == old_s[b].0);
                    }
                }
                false
            }
        },
    };
    if got_the_lock {
        match active {
            Lock::NoLock => {
                return (
                    LockInfo {
                        suspended,
                        active: Lock::WriteLock(DynamicLifetime { frame, region: lock_region }),
                    },
                    false,
                );
            },
            _ => {
                return (LockInfo { suspended, active }, true);
            },
        }
    }
    (LockInfo { suspended, active }, false)
}

/// What `op` makes of one byte's lock information, and whether it refuses.
fn step_info(info: LockInfo, op: LockOp) -> (r: (LockInfo, bool))
    requires
        info_wf(info@),
        !op_stuck(op, info@),
    ensures
        r.0@ == op_step(op, info@),
        r.1 == op_fails(op, info@),
        info_wf(r.0@),
        r.1 ==> r.0@.active == info@.active,
{
    match op {
        LockOp::Acquire { kind, lifetime } => acquire_info(info, kind, lifetime),
        LockOp::Suspend { frame, id, region } => suspend_info(info, frame, id, region),
        LockOp::Recover { frame, id, lock_region, suspended_region } => recover_info(
            info,
            frame,
            id,
            lock_region,
            suspended_region,
        ),
    }
}

impl Allocation {
    /// The lock information of byte `o`.
    pub open spec fn info_at(&self, o: u64) -> LockInfoView {
        if self.locks@.contains_key(o) {
            self.locks@[o]@
        } else {
            default_info()
        }
    }

    /// Every byte's lock information can occur.
    pub open spec fn locks_wf(&self) -> bool {
        forall|k: u64| #[trigger] self.locks@.contains_key(k) ==> self.locks@[k].wf()
    }

    /// Both allocations agree in everything but their locks.
    pub open spec fn same_but_locks(&self, other: &Allocation) -> bool {
        &&& self.bytes == other.bytes
        &&& self.relocations == other.relocations
        &&& self.undef_mask == other.undef_mask
        &&& self.align == other.align
        &&& self.mutable == other.mutable
        &&& self.kind == other.kind
    }

    /// `after` has what `op` makes of the bytes `offset..stop` of this
    /// allocation, and the lock information of every other byte unchanged.
    pub open spec fn stepped_through(&self, after: &Allocation, op: LockOp, offset: u64, stop: int) -> bool {
        forall|o: u64| #[trigger]
            after.info_at(o) == if offset <= o < stop {
                op_step(op, self.info_at(o))
            } else {
                self.info_at(o)
            }
    }

    /// Byte `c` is the first of `offset..offset + len` that refuses `op`.
    pub open spec fn refuses_first_at(&self, op: LockOp, offset: u64, len: u64, c: u64) -> bool {
        &&& offset <= c < offset + len
        &&& op_fails(op, self.info_at(c))
        &&& forall|p: u64| offset <= p < c ==> !op_fails(op, #[trigger] self.info_at(p))
    }

    /// Some byte of `offset..offset + len` refuses `op`.
    pub open spec fn refuses_somewhere(&self, op: LockOp, offset: u64, len: u64) -> bool {
        exists|c: u64| offset <= c < offset + len && op_fails(op, #[trigger] self.info_at(c))
    }

    /// `op` can be carried out on every byte of `offset..offset + len` that
    /// is reached before one refuses it.
    pub open spec fn op_reachable_bytes_fine(&self, op: LockOp, offset: u64, len: u64) -> bool {
        forall|o: u64|
            offset <= o < offset + len && op_stuck(op, #[trigger] self.info_at(o)) ==> exists|p: u64|
                offset <= p < o && op_fails(op, #[trigger] self.info_at(p))
    }

    /// `after` and `r` are what applying `op` byte by byte to
    /// `offset..offset + len` makes of this allocation: it stops at the first
    /// byte that refuses, after changing it, with the lock in effect there.
    pub open spec fn op_outcome(&self, after: &Allocation, op: LockOp, offset: u64, len: u64, r: Result<(), Lock>) -> bool {
        &&& after.same_but_locks(self)
        &&& match r {
            Ok(()) => !self.refuses_somewhere(op, offset, len) && self.stepped_through(
                after,
                op,
                offset,
                offset + len,
            ),
            Err(l) => exists|c: u64|
                self.refuses_first_at(op, offset, len, c) && l@ == self.info_at(c).active
                    && self.stepped_through(after, op, offset, c + 1),
        }
    }

    /// Applies `op` to the lock information of each byte of
    /// `offset..offset + len` in turn, stopping at the first that refuses it.
    pub fn apply_lock_op(&mut self, offset: u64, len: u64, op: LockOp) -> (r: Result<(), Lock>)
        requires
            old(self).locks_wf(),
            offset + len <= u64::MAX,
            old(self).op_reachable_bytes_fine(op, offset, len),
        ensures
            final(self).locks_wf(),
            old(self).op_outcome(final(self), op, offset, len, r),
    {
        let end = offset + len;
        let mut o = offset;
        let ghost before = *self;
        proof {
            lemma_u64_keys_ordered();
        }
        while o < end
            invariant
                end == offset + len,
                offset <= o <= end,
                before == *old(self),
                self.locks_wf(),
                self.same_but_locks(&before),
                before.stepped_through(self, op, offset, o as int),
                forall|p: u64| offset <= p < o ==> !op_fails(op, #[trigger] before.info_at(p)),
                before.op_reachable_bytes_fine(op, offset, len),
            decreases end - o,
        {
            let ghost pre = *self;
            proof {
                lemma_u64_keys_ordered();
            }
            let info = match self.locks.remove(&o) {
                Some(info) => info,
                None => LockInfo::default(),
            };
            proof {
                assert(pre.info_at(o) == before.info_at(o));
                if pre.locks@.contains_key(o) {
                    assert(info == pre.locks@[o]);
                } else {
                    assert(info@.suspended =~= default_info().suspended);
                }
                assert(info@ == before.info_at(o));
                if op_stuck(op, before.info_at(o)) {
                    let p = choose|p: u64| offset <= p < o && op_fails(op, #[trigger] before.info_at(p));
                    assert(!op_fails(op, before.info_at(p)));
                }
            }
            let (next, refused) = step_info(info, op);
            let lock = if refused {
                Some(next.active.clone_lock())
            } else {
                None
            };
            self.locks.insert(o, next);
            proof {
                assert forall|q: u64| #[trigger]
                    self.info_at(q) == if offset <= q < o + 1 {
                        op_step(op, before.info_at(q))
                    } else {
                        before.info_at(q)
                    } by {
                    if q != o {
                        assert(self.info_at(q) == pre.info_at(q));
                    }
                }
            }
            if let Some(l) = lock {
                proof {
                    assert(before.refuses_first_at(op, offset, len, o));
                    assert(l@ == before.info_at(o).active);
                    assert(before.stepped_through(self, op, offset, o + 1));
                }
                return Err(l);
            }
            o = o + 1;
        }
        Ok(())
    }
}

/// Whether a lock held for `lft` ends when `frame` ends region `ending`, or
/// returns when `ending` is `None`.
pub open spec fn has_ended(lft: DynamicLifetime, frame: usize, ending: Option<u64>) -> bool {
    &&& lft.frame == frame
    &&& match ending {
        None => true,
        Some(r) => lft.region == Some(r),
    }
}

/// The lifetimes that outlive the end of `ending` in `frame`.
pub open spec fn outlives(frame: usize, ending: Option<u64>) -> spec_fn(DynamicLifetime) -> bool {
    |l: DynamicLifetime| !has_ended(l, frame, ending)
}

/// The suspensions that do not belong to `frame`.
pub open spec fn of_other_frames(frame: usize) -> spec_fn((WriteLockId, Seq<u64>)) -> bool {
    |e: (WriteLockId, Seq<u64>)| e.0.frame != frame
}

/// The lock information of a byte once the locks of `frame` that end with
/// `ending` are released; when the frame returns (`ending` is `None`) its
/// suspensions go too.
pub open spec fn ended_info(i: LockInfoView, frame: usize, ending: Option<u64>) -> LockInfoView {
    LockInfoView {
        suspended: if ending is None {
            i.suspended.filter(of_other_frames(frame))
        } else {
            i.suspended
        },
        active: match i.active {
            LockView::WriteLock(l) => if has_ended(l, frame, ending) {
                LockView::NoLock
            } else {
                i.active
            },
            LockView::ReadLock(v) => {
                let w = v.filter(outlives(frame, ending));
                if w.len() == 0 {
                    LockView::NoLock
                } else {
                    LockView::ReadLock(w)
                }
            },
            LockView::NoLock => LockView::NoLock,
        },
    }
}

/// Whether lock information is worth keeping: some lock or suspension.
pub open spec fn info_kept(i: LockInfoView) -> bool {
    !(i.active is NoLock && i.suspended.len() == 0)
}

/// The lock table after the locks of `frame` that end with `ending` are
/// released, without the entries left with neither lock nor suspension.
pub open spec fn ended_lock_map(m: Map<u64, LockInfoView>, frame: usize, ending: Option<u64>) -> Map<
    u64,
    LockInfoView,
> {
    Map::new(
        |o: u64| m.contains_key(o) && info_kept(ended_info(m[o], frame, ending)),
        |o: u64| ended_info(m[o], frame, ending),
    )
}

/// Filtering keeps the write locks of a suspension table distinct.
proof fn lemma_filter_suspensions_wf(s: Seq<(WriteLockId, Seq<u64>)>, p: spec_fn((WriteLockId, Seq<u64>)) -> bool)
    requires
        suspensions_wf(s),
    ensures
        suspensions_wf(s.filter(p)),
    decreases s.len(),
{
    if s.len() > 0 {
        let d = s.drop_last();
        assert(suspensions_wf(d)) by {
            assert forall|a: int, b: int|
                0 <= a < d.len() && 0 <= b < d.len() && a != b implies #[trigger] d[a].0
                != #[trigger] d[b].0 by {
                assert(d[a] == s[a] && d[b] == s[b]);
            }
        }
        lemma_filter_suspensions_wf(d, p);
        assert(d.push(s.last()) =~= s);
        d.lemma_filter_push(s.last(), p);
        if p(s.last()) {
            let f = d.filter(p);
            let g = f.push(s.last());
            assert forall|a: int, b: int|
                0 <= a < g.len() && 0 <= b < g.len() && a != b implies #[trigger] g[a].0
                != #[trigger] g[b].0 by {
                if a == f.len() || b == f.len() {
                    let c = if a == f.len() { b } else { a };
                    assert(f.contains(f[c]));
                    d.lemma_filter_contains_rev(p, f[c]);
                    let m = choose|m: int| 0 <= m < d.len() && d[m] == f[c];
                    assert(s[m] == d[m]);
                    assert(s[s.len() - 1] == s.last());
                } else {
                    assert(g[a] == f[a] && g[b] == f[b]);
                }
            }
        }
    }
}

/// The lock information of a byte once the locks of `frame` that end with
/// `ending` are released.
fn end_info(info: LockInfo, frame: usize, ending: Option<u64>) -> (r: LockInfo)
    requires
        info_wf(info@),
    ensures
        r@ == ended_info(info@, frame, ending),
        info_wf(r@),
{
    let ghost old_s = info@.suspended;
    let LockInfo { suspended, active } = info;
    proof {
        assert(old_s =~= suspensions_view(suspended@));
    }
    let active = match active {
        Lock::WriteLock(l) => {
            let ended = l.frame == frame && match ending {
                None => true,
                Some(r) => match l.region {
                    Some(x) => x == r,
                    None => false,
                },
            };
            if ended {
                Lock::NoLock
            } else {
                Lock::WriteLock(l)
            }
        },
        Lock::ReadLock(v) => {
            let ghost p = outlives(frame, ending);
            let mut kept: Vec<DynamicLifetime> = Vec::new();
            let mut j: usize = 0;
            while j < v.len()
                invariant
                    j <= v@.len(),
                    p == outlives(frame, ending),
                    kept@ == v@.take(j as int).filter(p),
                decreases v@.len() - j,
            {
                let l = v[j];
                let ended = l.frame == frame && match ending {
                    None => true,
                    Some(r) => match l.region {
                        Some(x) => x == r,
                        None => false,
                    },
                };
                if !ended {
                    kept.push(l);
                }
                proof {
                    assert(v@.take(j + 1) =~= v@.take(j as int).push(l));
                    v@.take(j as int).lemma_filter_push(l, p);
                }
                j = j + 1;
            }
            proof {
                assert(v@.take(v@.len() as int) =~= v@);
            }
            if kept.len() == 0 {
                Lock::NoLock
            } else {
                Lock::ReadLock(kept)
            }
        },
        Lock::NoLock => Lock::NoLock,
    };
    let suspended = match ending {
        Some(_) => suspended,
        None => {
            let ghost p = of_other_frames(frame);
            let mut kept: Vec<(WriteLockId, Vec<u64>)> = Vec::new();
            let mut j: usize = 0;
            while j < suspended.len()
                invariant
                    j <= suspended@.len(),
                    p == of_other_frames(frame),
                    old_s == suspensions_view(suspended@),
                    suspensions_view(kept@) == old_s.take(j as int).filter(p),
                decreases suspended@.len() - j,
            {
                let e = &suspended[j];
                let ghost before = kept@;
                if e.0.frame != frame {
                    let regions = e.1.clone();
                    proof {
                        assert(regions@ =~= e.1@);
                    }
                    kept.push((e.0, regions));
                    proof {
                        assert(suspensions_view(kept@) =~= suspensions_view(before).push(old_s[j as int]));
                    }
                }
                proof {
                    assert(old_s[j as int] == (e.0, e.1@));
                    assert(old_s.take(j + 1) =~= old_s.take(j as int).push(old_s[j as int]));
                    old_s.take(j as int).lemma_filter_push(old_s[j as int], p);
                }
                j = j + 1;
            }
            proof {
                assert(old_s.take(old_s.len() as int) =~= old_s);
                lemma_filter_suspensions_wf(old_s, p);
            }
            kept
        },
    };
    let r = LockInfo { suspended, active };
    proof {
        assert(r@.suspended =~= ended_info(info@, frame, ending).suspended);
    }
    r
}

impl Allocation {
    /// The bytes that have lock information, each once.
    fn lock_keys(&self) -> (r: Vec<u64>)
        ensures
            r@.to_set() == self.locks@.dom(),
            r@.no_duplicates(),
    {
        proof {
            lemma_u64_keys_ordered();
        }
        let keys = self.locks.keys();
        let ghost s = keys.remaining();
        proof {
            assert(keys == vstd::std_specs::btree::spec_keys_iter(&self.locks));
        }
        let mut out: Vec<u64> = Vec::new();
        for k in it: keys
            invariant
                it.seq() == s,
                s.unref().to_set() == self.locks@.dom(),
                s.no_duplicates(),
                out@ == s.unref().take(it.index() as int),
        {
            let ghost idx = it.index();
            proof {
                assert(k == s[idx as int]);
            }
            out.push(*k);
            proof {
                assert(out@ =~= s.unref().take(idx + 1));
            }
        }
        proof {
            assert(out@ =~= s.unref());
            assert(s.unref().no_duplicates()) by {
                assert forall|a: int, b: int|
                    0 <= a < s.len() && 0 <= b < s.len() && a != b implies s.unref()[a]
                    != s.unref()[b] by {
                    assert(s[a] != s[b]);
                }
            }
        }
        out
    }

    /// Releases the locks of `frame` that end with region `ending` (all of
    /// them when `ending` is `None`, which also drops the frame's
    /// suspensions), and forgets bytes left with neither lock nor suspension.
    pub fn end_lifetimes(&mut self, frame: usize, ending: Option<u64>)
        requires
            old(self).locks_wf(),
        ensures
            final(self).locks_wf(),
            final(self).same_but_locks(old(self)),
            final(self).lock_view() == ended_lock_map(old(self).lock_view(), frame, ending),
    {
        let keys = self.lock_keys();
        let ghost before = *self;
        let ghost bm = before.locks@;
        let mut j: usize = 0;
        while j < keys.len()
            invariant
                j <= keys@.len(),
                keys@.to_set() == bm.dom(),
                keys@.no_duplicates(),
                bm == before.locks@,
                before.locks_wf(),
                self.locks_wf(),
                self.same_but_locks(&before),
                forall|o: u64| #[trigger]
                    self.locks@.contains_key(o) <==> (bm.contains_key(o) && (!keys@.take(
                        j as int,
                    ).contains(o) || info_kept(ended_info(bm[o]@, frame, ending)))),
                forall|o: u64| #[trigger]
                    self.locks@.contains_key(o) ==> self.locks@[o]@ == if keys@.take(
                        j as int,
                    ).contains(o) {
                        ended_info(bm[o]@, frame, ending)
                    } else {
                        bm[o]@
                    },
            decreases keys@.len() - j,
        {
            let k = keys[j];
            proof {
                lemma_u64_keys_ordered();
                assert(keys@.to_set().contains(k)) by {
                    assert(keys@.contains(k));
                }
                assert(!keys@.take(j as int).contains(k)) by {
                    if keys@.take(j as int).contains(k) {
                        let m = choose|m: int| 0 <= m < j && keys@.take(j as int)[m] == k;
                        assert(keys@[m] == keys@[j as int]);
                    }
                }
                assert(self.locks@.contains_key(k));
            }
            let ghost pre = self.locks@;
            let info = self.locks.remove(&k).unwrap();
            let next = end_info(info, frame, ending);
            let keep = match &next.active {
                Lock::NoLock => next.suspended.len() > 0,
                _ => true,
            };
            if keep {
                self.locks.insert(k, next);
            }
            proof {
                let t1 = keys@.take(j + 1);
                let t0 = keys@.take(j as int);
                assert(t1 =~= t0.push(k));
                assert forall|o: u64| #[trigger] t1.contains(o) <==> (t0.contains(o) || o == k) by {
                    if t1.contains(o) {
                        let m = choose|m: int| 0 <= m < t1.len() && t1[m] == o;
                        if m < j {
                            assert(t0[m] == o);
                        }
                    }
                    if t0.contains(o) {
                        let m = choose|m: int| 0 <= m < t0.len() && t0[m] == o;
                        assert(t1[m] == o);
                    }
                    if o == k {
                        assert(t1[j as int] == o);
                    }
                }
                assert(keep == info_kept(next@));
            }
            j = j + 1;
        }
        proof {
            assert(keys@.take(keys@.len() as int) =~= keys@);
            assert forall|o: u64| keys@.contains(o) <==> bm.contains_key(o) by {
                assert(keys@.to_set().contains(o) == keys@.contains(o));
            }
            assert(self.lock_view() =~= ended_lock_map(before.lock_view(), frame, ending));
        }
    }
}

/// Whether `frame` holds lock `l`, alone or among readers.
pub open spec fn held_by(l: LockView, frame: usize) -> bool {
    match l {
        LockView::NoLock => false,
        LockView::WriteLock(lft) => lft.frame == frame,
        LockView::ReadLock(v) => exists|k: int| 0 <= k < v.len() && #[trigger] v[k].frame == frame,
    }
}

/// Whether the lock `l` has a holder whose lifetime ends with `ending` in `frame`.
pub open spec fn held_until(l: LockView, frame: usize, ending: Option<u64>) -> bool {
    match l {
        LockView::NoLock => false,
        LockView::WriteLock(lft) => has_ended(lft, frame, ending),
        LockView::ReadLock(v) => exists|k: int| 0 <= k < v.len() && has_ended(#[trigger] v[k], frame, ending),
    }
}

/// Once a region of a frame ends, no lock on any byte is held any more for
/// a lifetime that ends with it.
pub proof fn law_ended_region_holds_no_lock(m: Map<u64, LockInfoView>, frame: usize, region: u64)
    ensures
        forall|o: u64| #[trigger]
            ended_lock_map(m, frame, Some(region)).contains_key(o) ==> !held_until(
                ended_lock_map(m, frame, Some(region))[o].active,
                frame,
                Some(region),
            ),
{
    assert forall|o: u64| #[trigger]
        ended_lock_map(m, frame, Some(region)).contains_key(o) implies !held_until(
        ended_lock_map(m, frame, Some(region))[o].active,
        frame,
        Some(region),
    ) by {
        let i = m[o];
        match i.active {
            LockView::ReadLock(v) => {
                let w = v.filter(outlives(frame, Some(region)));
                if w.len() != 0 {
                    assert forall|k: int| 0 <= k < w.len() implies !has_ended(#[trigger] w[k], frame, Some(region)) by {
                        v.lemma_filter_pred(outlives(frame, Some(region)), k);
                    }
                }
            },
            _ => {},
        }
    }
}

/// Once a frame returns, no byte keeps a suspension of one of its write
/// locks, and no byte keeps lock information with nothing in it.
pub proof fn law_returned_frame_drops_suspensions(m: Map<u64, LockInfoView>, frame: usize)
    ensures
        forall|o: u64, k: int| #[trigger]
            ended_lock_map(m, frame, None).contains_key(o) && 0 <= k < ended_lock_map(m, frame, None)[o].suspended.len()
                ==> (#[trigger] ended_lock_map(m, frame, None)[o].suspended[k]).0.frame != frame,
        forall|o: u64| #[trigger]
            ended_lock_map(m, frame, None).contains_key(o) ==> info_kept(ended_lock_map(m, frame, None)[o]),
{
    assert forall|o: u64, k: int| #[trigger]
        ended_lock_map(m, frame, None).contains_key(o) && 0 <= k < ended_lock_map(m, frame, None)[o].suspended.len()
        implies (#[trigger] ended_lock_map(m, frame, None)[o].suspended[k]).0.frame != frame by {
        m[o].suspended.lemma_filter_pred(of_other_frames(frame), k);
    }
}

/// A frame may make the access it took a lock for on every byte where it
/// just acquired one.
pub proof fn law_acquired_lock_admits_holder(
    a: Allocation,
    b: Allocation,
    offset: u64,
    len: u64,
    kind: AccessKind,
    lifetime: DynamicLifetime,
)
    requires
        a.op_outcome(&b, LockOp::Acquire { kind, lifetime }, offset, len, Ok(())),
    ensures
        forall|o: u64|
            offset <= o < offset + len ==> spec_access_permitted(
                #[trigger] b.active_at(o),
                Some(lifetime.frame),
                kind,
            ),
{
    assert forall|o: u64| offset <= o < offset + len implies spec_access_permitted(
        #[trigger] b.active_at(o),
        Some(lifetime.frame),
        kind,
    ) by {
        assert(b.info_at(o) == op_step(LockOp::Acquire { kind, lifetime }, a.info_at(o)));
        if op_fails(LockOp::Acquire { kind, lifetime }, a.info_at(o)) {
            assert(a.refuses_somewhere(LockOp::Acquire { kind, lifetime }, offset, len));
        }
    }
}

/// On one byte: suspending the write lock its frame holds, then recovering
/// that suspension with the lock's own region, gives the byte back what it had.
pub proof fn lemma_suspend_then_recover_info(i: LockInfoView, id: WriteLockId, region: Option<u64>, r: u64)
    requires
        i.active == LockView::WriteLock(DynamicLifetime { frame: id.frame, region }),
        suspension_keys(i.suspended).index_of_first(id) is None,
    ensures
        ({
            let suspend = LockOp::Suspend { frame: id.frame, id, region: Some(r) };
            let recover = LockOp::Recover {
                frame: id.frame,
                id,
                lock_region: region,
                suspended_region: r,
            };
            let mid = op_step(suspend, i);
            &&& !op_fails(suspend, i)
            &&& !op_stuck(recover, mid)
            &&& !op_fails(recover, mid)
            &&& op_step(recover, mid) == i
        }),
{
    let s = i.suspended;
    let pushed = s.push((id, seq![r]));
    assert(add_suspension(s, id, r) == pushed);
    let keys = suspension_keys(pushed);
    suspension_keys(s).index_of_first_ensures(id);
    keys.index_of_first_ensures(id);
    assert(keys[s.len() as int] == id);
    assert(keys.contains(id));
    let k = keys.index_of_first(id).unwrap();
    if k < s.len() {
        assert(suspension_keys(s)[k] == keys[k]);
        assert(suspension_keys(s).contains(id));
    }
    assert(k == s.len());
    seq![r].index_of_first_ensures(r);
    assert(seq![r].contains(r)) by {
        assert(seq![r][0] == r);
    }
    assert(seq![r].index_of_first(r) == Some(0int));
    assert(seq![r].remove(0) =~= Seq::<u64>::empty());
    assert(pushed.remove(s.len() as int) =~= s);
}

/// Suspending the write locks a frame holds on a range succeeds; recovering
/// those suspensions with the locks' own region then can be carried out and
/// succeeds too, and gives the range back the locks it had.
pub proof fn law_suspend_then_recover(
    a: Allocation,
    b: Allocation,
    c: Allocation,
    offset: u64,
    len: u64,
    id: WriteLockId,
    region: Option<u64>,
    r: u64,
    r1: Result<(), Lock>,
    r2: Result<(), Lock>,
)
    requires
        forall|o: u64|
            offset <= o < offset + len ==> (#[trigger] a.info_at(o)).active == LockView::WriteLock(
                DynamicLifetime { frame: id.frame, region },
            ) && suspension_keys(a.info_at(o).suspended).index_of_first(id) is None,
        a.op_outcome(&b, LockOp::Suspend { frame: id.frame, id, region: Some(r) }, offset, len, r1),
        b.op_outcome(
            &c,
            LockOp::Recover { frame: id.frame, id, lock_region: region, suspended_region: r },
            offset,
            len,
            r2,
        ),
    ensures
        r1 is Ok,
        b.op_reachable_bytes_fine(
            LockOp::Recover { frame: id.frame, id, lock_region: region, suspended_region: r },
            offset,
            len,
        ),
        r2 is Ok,
        forall|o: u64| #[trigger] c.info_at(o) == a.info_at(o),
        c.same_but_locks(&a),
{
    let suspend = LockOp::Suspend { frame: id.frame, id, region: Some(r) };
    let recover = LockOp::Recover { frame: id.frame, id, lock_region: region, suspended_region: r };
    if let Err(l) = r1 {
        let q = choose|q: u64| a.refuses_first_at(suspend, offset, len, q) && l@ == a.info_at(q).active
            && a.stepped_through(&b, suspend, offset, q + 1);
        lemma_suspend_then_recover_info(a.info_at(q), id, region, r);
        assert(false);
    }
    assert forall|o: u64| offset <= o < offset + len implies !op_stuck(recover, #[trigger] b.info_at(o))
        && !op_fails(recover, b.info_at(o)) by {
        lemma_suspend_then_recover_info(a.info_at(o), id, region, r);
        assert(b.info_at(o) == op_step(suspend, a.info_at(o)));
    }
    if let Err(l) = r2 {
        let q = choose|q: u64| b.refuses_first_at(recover, offset, len, q) && l@ == b.info_at(q).active
            && b.stepped_through(&c, recover, offset, q + 1);
        assert(!op_fails(recover, b.info_at(q)));
    }
    assert forall|o: u64| #[trigger] c.info_at(o) == a.info_at(o) by {
        if offset <= o < offset + len {
            lemma_suspend_then_recover_info(a.info_at(o), id, region, r);
            assert(b.info_at(o) == op_step(suspend, a.info_at(o)));
            assert(c.info_at(o) == op_step(recover, b.info_at(o)));
        } else {
            assert(b.info_at(o) == a.info_at(o));
            assert(c.info_at(o) == b.info_at(o));
        }
    }
}

/// When a frame returns, it holds no lock on any byte any more.
pub proof fn law_returned_frame_holds_no_lock(m: Map<u64, LockInfoView>, frame: usize)
    ensures
        forall|o: u64| #[trigger]
            ended_lock_map(m, frame, None).contains_key(o) ==> !held_by(
                ended_lock_map(m, frame, None)[o].active,
                frame,
            ),
{
    assert forall|o: u64| #[trigger]
        ended_lock_map(m, frame, None).contains_key(o) implies !held_by(
        ended_lock_map(m, frame, None)[o].active,
        frame,
    ) by {
        let i = m[o];
        match i.active {
            LockView::ReadLock(v) => {
                let w = v.filter(outlives(frame, None));
                if w.len() != 0 {
                    assert forall|k: int| 0 <= k < w.len() implies #[trigger] w[k].frame != frame by {
                        v.lemma_filter_pred(outlives(frame, None), k);
                    }
                }
            },
            _ => {},
        }
    }
}

} // verus!
