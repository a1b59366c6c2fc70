//! A hierarchy engine: parent links and ordered children lists over entity
//! handles, kept in agreement by every operation, with change notifications.
//!
//! `Hierarchy` applies operations at once; `CommandQueue` records them and
//! applies them later, in order; both offer them through `BuildChildren`.
//! `WorldChildBuilder` and `ChildBuilder` issue new children of one parent
//! under either mode, through `ChildBuild`.

pub mod builder;
pub mod child_list;
pub mod commands;
pub mod event;
pub mod hierarchy;
pub mod laws;
mod lemmas;
pub mod model;
pub mod operations;

pub use builder::{ChildBuild, ChildBuilder, WorldChildBuilder};
pub use child_list::{Entity, MAX_CHILDREN};
pub use commands::{CommandQueue, HierarchyCommand};
pub use event::{HierarchyError, HierarchyEvent};
pub use hierarchy::Hierarchy;
pub use operations::{BuildChildren, HierarchyOp};
