//! The uniform per-frame contract every simulation system provides.

use crate::db::Database;
use crate::error::EcsError;
use vstd::prelude::*;

verus! {

/// A system is anything driven once per frame with the elapsed time `delta`.
///
/// The frame loop owns an ordered collection of systems and ticks them
/// sequentially; systems communicate only through the store. The trait itself
/// promises only that every system keeps the store well-formed; each
/// implementation's `tick` strengthens this with the exact effect of the
/// inherent method it delegates to.
pub trait System {
    /// The system's own invariant, established by its constructor and kept
    /// across ticks.
    spec fn inv(&self) -> bool;

    /// Builds the system against the store.
    fn new(db: &Database) -> (r: Result<Box<Self>, EcsError>) where Self: Sized;

    /// Advances the system by `delta` time units, mutating the store in
    /// place.
    fn tick(&mut self, db: &mut Database, delta: i64) -> (r: Result<(), EcsError>)
        requires
            old(db).wf(),
            old(self).inv(),
            0 <= delta,
        ensures
            final(db).wf(),
            final(self).inv(),
    ;
}

} // verus!
