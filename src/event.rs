//! Change notifications and failures of hierarchy operations.
use crate::child_list::Entity;
use vstd::prelude::*;

verus! {

/// A structural change to the hierarchy, as reported to the event sink.
#[derive(Clone, Copy, Debug, PartialEq, Eq, Structural)]
pub enum HierarchyEvent {
    /// `child` gained `parent`, having had no parent before.
    ChildAdded { child: Entity, parent: Entity },
    /// `child` lost its link to `parent`.
    ChildRemoved { child: Entity, parent: Entity },
    /// `child` went from `previous_parent` to `new_parent`.
    ChildMoved { child: Entity, previous_parent: Entity, new_parent: Entity },
}

/// Why applying queued commands stopped. The failing command changed nothing.
#[derive(Clone, Copy, Debug, PartialEq, Eq, Structural)]
pub enum HierarchyError {
    /// An insertion index lies past the end of the children list.
    IndexOutOfRange,
}

} // verus!
