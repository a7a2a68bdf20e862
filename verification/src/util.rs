//! Small helpers on values of any type.

use vstd::prelude::*;

verus! {

/// Turns a value into an `Option` by a test on it.
pub trait IntoOptionExt: Sized {
    /// Keeps `self` if `f` holds of it.
    fn some_if<F: FnOnce(&Self) -> bool>(self, f: F) -> (r: Option<Self>)
        requires
            f.requires((&self,)),
        ensures
            match r {
                Some(kept) => kept == self && f.ensures((&self,), true),
                None => f.ensures((&self,), false),
            },
    {
        if f(&self) {
            Some(self)
        } else {
            None
        }
    }
}

impl<T> IntoOptionExt for T {
}

} // verus!
