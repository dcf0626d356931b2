//! The error taxonomy of the runtime. Every system reports errors to the
//! frame loop, which aborts; nothing retries internally.

use crate::components::ComponentKind;
use vstd::prelude::*;

verus! {

/// An error of the ECS runtime.
#[derive(Clone, Copy, Debug, PartialEq, Eq, Structural)]
pub enum EcsError {
    /// A failure of the underlying store; with the integer-valued store this
    /// means a value left the representable range. Fatal to the current
    /// operation.
    Store,
    /// The builder refused a second component of the same kind for one entity.
    DuplicateComponent(ComponentKind),
    /// `finish` was invoked with no pending components, or with a pinned
    /// entity id that does not exist.
    InvalidEntity,
    /// The window refused a frame buffer. Never produced by the library
    /// itself; the presenting caller maps its window failures to this.
    Present,
}

impl EcsError {
    /// A short human-readable name of the error kind, for error lines.
    pub fn describe(&self) -> (r: String)
        ensures
            r@ == match self {
                EcsError::Store => "store error"@,
                EcsError::DuplicateComponent(..) => "duplicate component"@,
                EcsError::InvalidEntity => "invalid entity"@,
                EcsError::Present => "present error"@,
            },
    {
        match self {
            EcsError::Store => "store error".to_owned(),
            EcsError::DuplicateComponent(..) => "duplicate component".to_owned(),
            EcsError::InvalidEntity => "invalid entity".to_owned(),
            EcsError::Present => "present error".to_owned(),
        }
    }
}

} // verus!
