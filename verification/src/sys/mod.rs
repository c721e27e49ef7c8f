pub mod unix;

pub use unix::linux::{Pty, PtyIn, PtyOut};

use vstd::prelude::*;

verus! {

/// Consumes a wrapper and hands out the value it wraps.
pub trait IntoInner<Inner>: Sized {
    fn into_inner(self) -> Inner;
}

/// Builds a wrapper around a value.
pub trait FromInner<Inner>: Sized {
    fn from_inner(inner: Inner) -> Self;
}

/// Borrows the value a wrapper holds.
pub trait AsInner<Inner> {
    fn as_inner(&self) -> &Inner;
}

/// Borrows the value a wrapper holds, mutably.
pub trait AsInnerMut<Inner> {
    fn as_inner_mut(&mut self) -> &mut Inner;
}

} // verus!
