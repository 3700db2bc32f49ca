//! The mutex lints: a `Mutex` of a boolean, an integer or a raw pointer can
//! often be an atomic value.
use vstd::prelude::*;
use crate::consts::{IntTy, UintTy};

verus! {

/// The type a `Mutex` holds, as far as the lints care.
#[derive(Copy, Clone, Debug, PartialEq, Eq, Structural)]
pub enum MutexParam {
    Bool,
    Uint(UintTy),
    Int(IntTy),
    RawPtr,
    Other,
}

/// The atomic types a mutex's contents could be.
#[derive(Copy, Clone, Debug, PartialEq, Eq, Structural)]
pub enum AtomicName {
    AtomicBool,
    AtomicUsize,
    AtomicIsize,
    AtomicPtr,
}

/// Which of the two lints applies.
#[derive(Copy, Clone, Debug, PartialEq, Eq, Structural)]
pub enum MutexLint {
    /// A mutex of an integer.
    MutexInteger(AtomicName),
    /// A mutex of a boolean or a raw pointer.
    MutexAtomic(AtomicName),
}

/// The mutex lints.
#[derive(Copy, Clone, Debug)]
pub struct MutexAtomic;

/// The atomic type that can stand for a mutex of `ty`.
pub open spec fn spec_atomic_name(ty: MutexParam) -> Option<AtomicName> {
    match ty {
        MutexParam::Bool => Some(AtomicName::AtomicBool),
        MutexParam::Uint(_) => Some(AtomicName::AtomicUsize),
        MutexParam::Int(_) => Some(AtomicName::AtomicIsize),
        MutexParam::RawPtr => Some(AtomicName::AtomicPtr),
        MutexParam::Other => None,
    }
}

/// The atomic type that can stand for a mutex of `ty`, if any.
pub fn get_atomic_name(ty: MutexParam) -> (r: Option<AtomicName>)
    ensures
        r == spec_atomic_name(ty),
{
    match ty {
        MutexParam::Bool => Some(AtomicName::AtomicBool),
        MutexParam::Uint(_) => Some(AtomicName::AtomicUsize),
        MutexParam::Int(_) => Some(AtomicName::AtomicIsize),
        MutexParam::RawPtr => Some(AtomicName::AtomicPtr),
        MutexParam::Other => None,
    }
}

impl MutexAtomic {
    /// The lint for a `Mutex` holding `param`: integers of every width,
    /// `usize` and `isize` among them, get the integer lint; booleans and
    /// raw pointers the atomic lint.
    pub fn check_mutex(&self, param: MutexParam) -> (r: Option<MutexLint>)
        ensures
            r == match spec_atomic_name(param) {
                None => None,
                Some(name) => Some(
                    match param {
                        MutexParam::Uint(_) => MutexLint::MutexInteger(name),
                        MutexParam::Int(_) => MutexLint::MutexInteger(name),
                        _ => MutexLint::MutexAtomic(name),
                    },
                ),
            },
    {
        match get_atomic_name(param) {
            None => None,
            Some(name) => Some(
                match param {
                    MutexParam::Uint(_) => MutexLint::MutexInteger(name),
                    MutexParam::Int(_) => MutexLint::MutexInteger(name),
                    _ => MutexLint::MutexAtomic(name),
                },
            ),
        }
    }
}

} // verus!
