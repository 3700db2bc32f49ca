//! Small items whose interest lies in what the type checker makes of them.
use vstd::prelude::*;

verus! {

/// A type that names an image of itself.
pub trait Mirror {
    type Image;
}

impl<T> Mirror for T {
    type Image = T;
}

/// Accepts a value whose references mirror to references of `U`.
pub fn foo<U, T>(_t: T) where for <'a> &'a T: Mirror<Image = &'a U> {
}

/// Accepts only types that can be sent between threads.
pub fn is_send<T: Send>() {
}

/// A reference with a named lifetime.
pub struct Foo<'x> {
    pub x: &'x u32,
}

impl<'y> Foo<'y> {
    pub fn method() {
    }
}

/// Expects the value 2.
pub fn surprise(x: i32)
    requires
        x == 2,
{
}

} // verus!
