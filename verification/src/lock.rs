//! Locks that stack frames hold on ranges of memory.
use vstd::prelude::*;

verus! {

/// Reading or writing.
#[derive(Copy, Clone, Debug, PartialEq, Eq, Structural)]
pub enum AccessKind {
    Read,
    Write,
}

/// How long a lock lives: the frame that took it, and optionally the region it ends with.
#[derive(Copy, Clone, Debug, PartialEq, Eq, Structural)]
pub struct DynamicLifetime {
    pub frame: usize,
    pub region: Option<u64>,
}

/// The lock in effect on a byte.
#[derive(Clone, Debug)]
pub enum Lock {
    NoLock,
    WriteLock(DynamicLifetime),
    /// Never empty: a read lock with no holder is no lock.
    ReadLock(Vec<DynamicLifetime>),
}

/// The mathematical value of a lock, its read holders as a sequence.
pub enum LockView {
    NoLock,
    WriteLock(DynamicLifetime),
    ReadLock(Seq<DynamicLifetime>),
}

impl View for Lock {
    type V = LockView;

    open spec fn view(&self) -> LockView {
        match self {
            Lock::NoLock => LockView::NoLock,
            Lock::WriteLock(l) => LockView::WriteLock(*l),
            Lock::ReadLock(v) => LockView::ReadLock(v@),
        }
    }
}

/// Identifies a write lock: the frame that held it and the path of the place it covers.
#[derive(Copy, Clone, Debug, PartialEq, Eq, Structural)]
pub struct WriteLockId {
    pub frame: usize,
    pub path: u64,
}

/// A lock in effect, and for each suspended write lock the regions it was suspended for.
#[derive(Clone, Debug)]
pub struct LockInfo {
    pub suspended: Vec<(WriteLockId, Vec<u64>)>,
    pub active: Lock,
}

/// The value of lock information: suspensions with their regions as sequences.
pub struct LockInfoView {
    pub suspended: Seq<(WriteLockId, Seq<u64>)>,
    pub active: LockView,
}

impl View for LockInfo {
    type V = LockInfoView;

    open spec fn view(&self) -> LockInfoView {
        LockInfoView {
            suspended: self.suspended@.map_values(|e: (WriteLockId, Vec<u64>)| (e.0, e.1@)),
            active: self.active@,
        }
    }
}

/// A read lock has at least one holder.
pub open spec fn lock_wf(l: LockView) -> bool {
    match l {
        LockView::ReadLock(v) => v.len() > 0,
        _ => true,
    }
}

/// Whether `access` by `frame` is compatible with lock `l`: everything is
/// allowed without a lock, reads are allowed under a read lock, and a write
/// lock allows its own frame only.
pub open spec fn spec_access_permitted(l: LockView, frame: Option<usize>, access: AccessKind) -> bool {
    match l {
        LockView::NoLock => true,
        LockView::ReadLock(_) => access == AccessKind::Read,
        LockView::WriteLock(lft) => frame == Some(lft.frame),
    }
}

/// Whether the suspension table names each write lock at most once.
pub open spec fn suspensions_wf(s: Seq<(WriteLockId, Seq<u64>)>) -> bool {
    forall|a: int, b: int|
        0 <= a < s.len() && 0 <= b < s.len() && a != b ==> #[trigger] s[a].0 != #[trigger] s[b].0
}

impl LockInfo {
    pub open spec fn wf(&self) -> bool {
        &&& lock_wf(self@.active)
        &&& suspensions_wf(self@.suspended)
    }

    /// Lock information with `lock` in effect and nothing suspended.
    pub fn new(lock: Lock) -> (r: LockInfo)
        ensures
            r@.active == lock@,
            r@.suspended.len() == 0,
    {
        LockInfo { suspended: Vec::new(), active: lock }
    }

    /// No lock and nothing suspended.
    pub fn default() -> (r: LockInfo)
        ensures
            r@.active == LockView::NoLock,
            r@.suspended.len() == 0,
    {
        LockInfo::new(Lock::NoLock)
    }

    /// Whether the lock in effect lets `frame` make an access of the given kind.
    pub fn access_permitted(&self, frame: Option<usize>, access: AccessKind) -> (r: bool)
        requires
            lock_wf(self@.active),
        ensures
            r == spec_access_permitted(self@.active, frame, access),
    {
        match (&self.active, access) {
            (Lock::NoLock, _) => true,
            (Lock::ReadLock(_), AccessKind::Read) => true,
            (Lock::WriteLock(lft), _) => match frame {
                Some(f) => lft.frame == f,
                None => false,
            },
            _ => false,
        }
    }
}

} // verus!
