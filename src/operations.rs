//! The operation set shared by immediate and deferred mutation.
use crate::child_list::{list_items, Entity, MAX_CHILDREN};
use crate::commands::{CommandQueue, HierarchyCommand};
use crate::hierarchy::Hierarchy;
use vstd::prelude::*;

verus! {

/// An operation on the children or the parent of one entity, with its
/// arguments.
pub enum HierarchyOp {
    AddChild { parent: Entity, child: Entity },
    AddChildren { parent: Entity, children: Seq<Entity> },
    InsertChildren { parent: Entity, index: usize, children: Seq<Entity> },
    RemoveChildren { parent: Entity, children: Seq<Entity> },
    ClearChildren { parent: Entity },
    ReplaceChildren { parent: Entity, children: Seq<Entity> },
    SetParent { child: Entity, parent: Entity },
    RemoveParent { child: Entity },
}

/// Removing, adding and replacing the children and parents of entities,
/// either at once (`Hierarchy`) or by recording commands (`CommandQueue`).
pub trait BuildChildren: Sized {
    /// Whether `self` is in a state the operations accept.
    spec fn ready(&self) -> bool;

    /// Whether `self` accepts `op` with these arguments.
    spec fn accepts(&self, op: HierarchyOp) -> bool;

    /// Whether going from `before` to `after` is what `op` does.
    spec fn outcome(before: Self, after: Self, op: HierarchyOp) -> bool;

    /// Appends `cs` to the children of `p`.
    fn add_children(&mut self, p: Entity, cs: &[Entity])
        requires
            old(self).ready(),
            old(self).accepts(HierarchyOp::AddChildren { parent: p, children: cs@ }),
        ensures
            final(self).ready(),
            Self::outcome(*old(self), *final(self), HierarchyOp::AddChildren { parent: p, children: cs@ }),
    ;

    /// Splices `cs` into the children of `p` at `index`.
    fn insert_children(&mut self, p: Entity, index: usize, cs: &[Entity])
        requires
            old(self).ready(),
            old(self).accepts(HierarchyOp::InsertChildren { parent: p, index, children: cs@ }),
        ensures
            final(self).ready(),
            Self::outcome(*old(self), *final(self), HierarchyOp::InsertChildren { parent: p, index, children: cs@ }),
    ;

    /// Takes those of `cs` that are children of `p` from it.
    fn remove_children(&mut self, p: Entity, cs: &[Entity])
        requires
            old(self).ready(),
            old(self).accepts(HierarchyOp::RemoveChildren { parent: p, children: cs@ }),
        ensures
            final(self).ready(),
            Self::outcome(*old(self), *final(self), HierarchyOp::RemoveChildren { parent: p, children: cs@ }),
    ;

    /// Makes `c` the last child of `p`.
    fn add_child(&mut self, p: Entity, c: Entity)
        requires
            old(self).ready(),
            old(self).accepts(HierarchyOp::AddChild { parent: p, child: c }),
        ensures
            final(self).ready(),
            Self::outcome(*old(self), *final(self), HierarchyOp::AddChild { parent: p, child: c }),
    ;

    /// Takes every child from `p`.
    fn clear_children(&mut self, p: Entity)
        requires
            old(self).ready(),
            old(self).accepts(HierarchyOp::ClearChildren { parent: p }),
        ensures
            final(self).ready(),
            Self::outcome(*old(self), *final(self), HierarchyOp::ClearChildren { parent: p }),
    ;

    /// Replaces the children of `p` with `cs`.
    fn replace_children(&mut self, p: Entity, cs: &[Entity])
        requires
            old(self).ready(),
            old(self).accepts(HierarchyOp::ReplaceChildren { parent: p, children: cs@ }),
        ensures
            final(self).ready(),
            Self::outcome(*old(self), *final(self), HierarchyOp::ReplaceChildren { parent: p, children: cs@ }),
    ;

    /// Makes `p` the parent of `c`.
    fn set_parent(&mut self, c: Entity, p: Entity)
        requires
            old(self).ready(),
            old(self).accepts(HierarchyOp::SetParent { child: c, parent: p }),
        ensures
            final(self).ready(),
            Self::outcome(*old(self), *final(self), HierarchyOp::SetParent { child: c, parent: p }),
    ;

    /// Takes `c` from its parent.
    fn remove_parent(&mut self, c: Entity)
        requires
            old(self).ready(),
            old(self).accepts(HierarchyOp::RemoveParent { child: c }),
        ensures
            final(self).ready(),
            Self::outcome(*old(self), *final(self), HierarchyOp::RemoveParent { child: c }),
    ;
}

/// No entity is named as its own child.
pub open spec fn op_free_of_self_reference(op: HierarchyOp) -> bool {
    match op {
        HierarchyOp::AddChild { parent, child } => child != parent,
        HierarchyOp::SetParent { child, parent } => child != parent,
        HierarchyOp::AddChildren { parent, children } => !children.contains(parent),
        HierarchyOp::InsertChildren { parent, children, .. } => !children.contains(parent),
        HierarchyOp::ReplaceChildren { parent, children } => !children.contains(parent),
        _ => true,
    }
}

impl BuildChildren for Hierarchy {
    open spec fn ready(&self) -> bool {
        self@.wf()
    }

    open spec fn accepts(&self, op: HierarchyOp) -> bool {
        &&& op_free_of_self_reference(op)
        &&& match op {
            HierarchyOp::AddChild { parent, .. } => self@.children_of(parent).len() < MAX_CHILDREN,
            HierarchyOp::SetParent { parent, .. } => self@.children_of(parent).len() < MAX_CHILDREN,
            HierarchyOp::AddChildren { parent, children } => self@.children_of(parent).len()
                + children.len() <= MAX_CHILDREN,
            HierarchyOp::InsertChildren { parent, index, children } => self@.insert_index_fits(
                parent,
                index as int,
                children,
            ) && self@.children_of(parent).len() + children.len() <= MAX_CHILDREN,
            HierarchyOp::ReplaceChildren { children, .. } => children.len() <= MAX_CHILDREN,
            _ => true,
        }
    }

    /// The operation is done at once, handles never issued being skipped.
    open spec fn outcome(before: Self, after: Self, op: HierarchyOp) -> bool {
        let m = before@;
        after@ == match op {
            HierarchyOp::AddChild { parent, child } => m.add_children_checked(parent, seq![child]),
            HierarchyOp::SetParent { child, parent } => m.add_children_checked(parent, seq![child]),
            HierarchyOp::AddChildren { parent, children } => m.add_children_checked(
                parent,
                children,
            ),
            HierarchyOp::InsertChildren { parent, index, children } => m.insert_children_checked(
                parent,
                index as int,
                children,
            ),
            HierarchyOp::RemoveChildren { parent, children } => m.remove_children(parent, children),
            HierarchyOp::ClearChildren { parent } => m.clear_children(parent),
            HierarchyOp::ReplaceChildren { parent, children } => m.replace_children_checked(
                parent,
                children,
            ),
            HierarchyOp::RemoveParent { child } => m.remove_parent(child),
        }
    }

    fn add_children(&mut self, p: Entity, cs: &[Entity]) {
        Hierarchy::add_children(self, p, cs);
    }

    fn insert_children(&mut self, p: Entity, index: usize, cs: &[Entity]) {
        Hierarchy::insert_children(self, p, index, cs);
    }

    fn remove_children(&mut self, p: Entity, cs: &[Entity]) {
        Hierarchy::remove_children(self, p, cs);
    }

    fn add_child(&mut self, p: Entity, c: Entity) {
        Hierarchy::add_child(self, p, c);
    }

    fn clear_children(&mut self, p: Entity) {
        Hierarchy::clear_children(self, p);
    }

    fn replace_children(&mut self, p: Entity, cs: &[Entity]) {
        Hierarchy::replace_children(self, p, cs);
    }

    fn set_parent(&mut self, c: Entity, p: Entity) {
        Hierarchy::set_parent(self, c, p);
    }

    fn remove_parent(&mut self, c: Entity) {
        Hierarchy::remove_parent(self, c);
    }
}

/// Whether `cmd` records `op` with the same arguments; making `p` the parent
/// of `c` is recorded as adding `c` to `p`.
pub open spec fn records(cmd: HierarchyCommand, op: HierarchyOp) -> bool {
    match (op, cmd) {
        (HierarchyOp::AddChild { parent: p, child: c }, HierarchyCommand::AddChild {
            parent,
            child,
        }) => parent == p && child == c,
        (HierarchyOp::SetParent { child: c, parent: p }, HierarchyCommand::AddChild {
            parent,
            child,
        }) => parent == p && child == c,
        (HierarchyOp::AddChildren { parent: p, children: cs }, HierarchyCommand::AddChildren {
            parent,
            children,
        }) => parent == p && list_items(children) == cs,
        (
            HierarchyOp::InsertChildren { parent: p, index: i, children: cs },
            HierarchyCommand::InsertChildren { parent, index, children },
        ) => parent == p && index == i && list_items(children) == cs,
        (
            HierarchyOp::RemoveChildren { parent: p, children: cs },
            HierarchyCommand::RemoveChildren { parent, children },
        ) => parent == p && list_items(children) == cs,
        (HierarchyOp::ClearChildren { parent: p }, HierarchyCommand::ClearChildren { parent }) =>
            parent == p,
        (
            HierarchyOp::ReplaceChildren { parent: p, children: cs },
            HierarchyCommand::ReplaceChildren { parent, children },
        ) => parent == p && list_items(children) == cs,
        (HierarchyOp::RemoveParent { child: c }, HierarchyCommand::RemoveParent { child }) =>
            child == c,
        _ => false,
    }
}

impl BuildChildren for CommandQueue {
    open spec fn ready(&self) -> bool {
        self.valid()
    }

    open spec fn accepts(&self, op: HierarchyOp) -> bool {
        op_free_of_self_reference(op)
    }

    /// The operation is recorded as one command after the others.
    open spec fn outcome(before: Self, after: Self, op: HierarchyOp) -> bool {
        &&& after@.len() == before@.len() + 1
        &&& after@.drop_last() == before@
        &&& records(after@.last(), op)
    }

    fn add_children(&mut self, p: Entity, cs: &[Entity]) {
        CommandQueue::add_children(self, p, cs);
    }

    fn insert_children(&mut self, p: Entity, index: usize, cs: &[Entity]) {
        CommandQueue::insert_children(self, p, index, cs);
    }

    fn remove_children(&mut self, p: Entity, cs: &[Entity]) {
        CommandQueue::remove_children(self, p, cs);
    }

    fn add_child(&mut self, p: Entity, c: Entity) {
        CommandQueue::add_child(self, p, c);
        assert(self@.drop_last() =~= old(self)@);
    }

    fn clear_children(&mut self, p: Entity) {
        CommandQueue::clear_children(self, p);
        assert(self@.drop_last() =~= old(self)@);
    }

    fn replace_children(&mut self, p: Entity, cs: &[Entity]) {
        CommandQueue::replace_children(self, p, cs);
    }

    fn set_parent(&mut self, c: Entity, p: Entity) {
        CommandQueue::set_parent(self, c, p);
        assert(self@.drop_last() =~= old(self)@);
    }

    fn remove_parent(&mut self, c: Entity) {
        CommandQueue::remove_parent(self, c);
        assert(self@.drop_last() =~= old(self)@);
    }
}

} // verus!
