//! Marker traits for values that cross thread boundaries only in builds
//! where the embedding application runs the schedule on several threads.

use vstd::prelude::*;

verus! {

/// A value a threaded build may move to another thread.
pub trait MaybeSend {

}

impl<T> MaybeSend for T {

}

/// A value a threaded build may share between threads.
pub trait MaybeSync {

}

impl<T> MaybeSync for T {

}

} // verus!
