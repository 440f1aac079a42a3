//! A hot-reloadable cache for compiled shader artifacts.
//!
//! The crate assembles shader source text from disk-backed and embedded
//! fragments, expands inclusion directives, and caches compiled module and
//! linked pipeline handles per path and label. The compiler and linker
//! themselves are collaborators of the embedding application: the manager
//! decides what must be probed, compiled or linked, and the application
//! performs those steps and hands the results back.
//!
//! The manager is one owned value: reads take `&self`, installs and reloads
//! take `&mut self`, so the contracts describe each operation as one atomic
//! step. An application that shares the cache between threads wraps it in a
//! lock of its choosing.

use vstd::prelude::*;

pub mod directive;
pub mod expand;
pub mod math;
pub mod maybe_thread;
pub mod path_map;
pub mod shader_manager;
pub mod system;
pub mod text;
pub mod timer;

verus! {

/// The sum of two counters; the inputs must not overflow.
pub fn add(left: u64, right: u64) -> (r: u64)
    requires
        left + right <= u64::MAX,
    ensures
        r == left + right,
{
    left + right
}

} // verus!
