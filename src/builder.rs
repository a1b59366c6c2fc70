//! Builders that issue new entities as children of one parent: one that
//! links them at once, one that queues the linking for later.
use crate::child_list::{list_from_slice, list_items, list_push, ChildList, Entity, MAX_CHILDREN};
use crate::commands::{after_commands, command_valid, first_failure, CommandQueue, HierarchyCommand};
use crate::event::{HierarchyError, HierarchyEvent};
use crate::hierarchy::Hierarchy;
use crate::model::{delivered, HierarchyModel};
use vstd::prelude::*;

verus! {

/// Issues children of `parent` whose linking is deferred: they are recorded,
/// and `CommandQueue::with_children` queues one command that adds them all.
pub struct ChildBuilder {
    parent: Entity,
    children: ChildList,
    commands: CommandQueue,
}

impl ChildBuilder {
    /// The parent the children are for.
    pub closed spec fn parent_view(&self) -> Entity {
        self.parent
    }

    /// The children issued so far, in order.
    pub closed spec fn spawned(&self) -> Seq<Entity> {
        list_items(self.children)
    }

    /// The commands queued through this builder, in order.
    pub closed spec fn queued(&self) -> Seq<HierarchyCommand> {
        self.commands@
    }

    /// The children are distinct and the queued commands valid.
    pub closed spec fn valid(&self) -> bool {
        list_items(self.children).no_duplicates() && self.commands.valid()
    }

    /// A builder for children of `parent`, with none issued yet.
    pub fn new(parent: Entity) -> (r: ChildBuilder)
        ensures
            r.parent_view() == parent,
            r.spawned() == Seq::<Entity>::empty(),
            r.queued() == Seq::<HierarchyCommand>::empty(),
            r.valid(),
    {
        let none: Vec<Entity> = Vec::new();
        assert(none@ =~= Seq::<Entity>::empty());
        ChildBuilder { parent, children: list_from_slice(none.as_slice()), commands: CommandQueue::new() }
    }
}

impl CommandQueue {
    /// Takes what `b` recorded: its queued commands, then one command adding
    /// the children it issued to its parent. Those children must not hold
    /// the parent.
    pub fn with_children(&mut self, b: ChildBuilder)
        requires
            old(self).valid(),
            b.valid(),
            !b.spawned().contains(b.parent_view()),
        ensures
            final(self).valid(),
            final(self)@.len() == old(self)@.len() + b.queued().len() + 1,
            final(self)@.drop_last() == old(self)@ + b.queued(),
            match final(self)@.last() {
                HierarchyCommand::AddChildren { parent, children } => parent == b.parent_view()
                    && list_items(children) == b.spawned(),
                _ => false,
            },
    {
        let ChildBuilder { parent, children, mut commands } = b;
        self.append(&mut commands);
        let ghost mid = self@;
        self.queue_command(HierarchyCommand::AddChildren { parent, children });
        assert(self@.drop_last() =~= mid);
    }

    /// Issues a new entity in `world` and queues making it the last child of
    /// `p`. `p` must not be the handle about to be issued.
    pub fn with_child(&mut self, world: &mut Hierarchy, p: Entity) -> (e: Entity)
        requires
            old(self).valid(),
            old(world)@.wf(),
            old(world)@.next < u64::MAX,
            p != old(world)@.next,
        ensures
            e == old(world)@.next,
            final(world)@ == (HierarchyModel { next: (e + 1) as u64, ..old(world)@ }),
            final(world)@.wf(),
            final(self).valid(),
            final(self)@ == old(self)@.push(HierarchyCommand::AddChild { parent: p, child: e }),
    {
        let e = world.spawn_empty();
        self.add_child(p, e);
        e
    }
}

/// Issues children of `parent` and links them at once, each with one
/// `ChildAdded`; commands queued through it run when it is flushed.
pub struct WorldChildBuilder {
    parent: Entity,
    commands: CommandQueue,
}

impl WorldChildBuilder {
    /// The parent the children are for.
    pub closed spec fn parent_view(&self) -> Entity {
        self.parent
    }

    /// The commands waiting for the next flush, in order.
    pub closed spec fn queued(&self) -> Seq<HierarchyCommand> {
        self.commands@
    }

    /// The queued commands are valid.
    pub closed spec fn valid(&self) -> bool {
        self.commands.valid()
    }

    /// A builder for children of `parent`.
    pub fn new(parent: Entity) -> (r: WorldChildBuilder)
        ensures
            r.parent_view() == parent,
            r.queued() == Seq::<HierarchyCommand>::empty(),
            r.valid(),
    {
        WorldChildBuilder { parent, commands: CommandQueue::new() }
    }

    /// Runs the queued commands on `world`, first to last, as
    /// `CommandQueue::apply` does, stopping at the first that fails.
    pub fn flush_world(&mut self, world: &mut Hierarchy) -> (r: Result<(), HierarchyError>)
        requires
            old(self).valid(),
            old(world)@.wf(),
        ensures
            final(world)@.wf(),
            final(self).queued() == Seq::<HierarchyCommand>::empty(),
            final(self).parent_view() == old(self).parent_view(),
            final(self).valid(),
            match first_failure(old(world)@, old(self).queued()) {
                None => r is Ok && final(world)@ == after_commands(old(world)@, old(self).queued()),
                Some(k) => r == Err::<(), HierarchyError>(HierarchyError::IndexOutOfRange)
                    && 0 <= k < old(self).queued().len() && final(world)@ == after_commands(
                    old(world)@,
                    old(self).queued().take(k),
                ),
            },
    {
        self.commands.apply(world)
    }
}

/// Issuing new entities as children of one parent, and queuing commands
/// beside them. What issuing links at once, or records for later, is up to
/// the implementor.
pub trait ChildBuild: Sized {
    /// The parent the children are for.
    spec fn built_for(&self) -> Entity;

    /// Whether queuing is possible in this state.
    spec fn ready(&self) -> bool;

    /// Whether a child can be issued in `world` now.
    spec fn can_spawn(&self, world: HierarchyModel) -> bool;

    /// Whether issuing `e` took builder `b0` and hierarchy `w0` to `b1` and
    /// `w1`.
    spec fn spawned_into(
        b0: Self,
        w0: HierarchyModel,
        b1: Self,
        w1: HierarchyModel,
        e: Entity,
    ) -> bool;

    /// Whether queuing `cmd` took the builder from `b0` to `b1`.
    spec fn queued_into(b0: Self, b1: Self, cmd: HierarchyCommand) -> bool;

    /// Issues a new entity in `world` as a child of the parent.
    fn spawn_empty(&mut self, world: &mut Hierarchy) -> (e: Entity)
        requires
            old(world)@.wf(),
            old(world)@.next < u64::MAX,
            old(self).can_spawn(old(world)@),
        ensures
            e == old(world)@.next,
            final(world)@.wf(),
            Self::spawned_into(*old(self), old(world)@, *final(self), final(world)@, e),
    ;

    /// The parent the children are for.
    fn parent_entity(&self) -> (r: Entity)
        ensures
            r == self.built_for(),
    ;

    /// Queues `cmd` to run with the others.
    fn queue_command(&mut self, cmd: HierarchyCommand)
        requires
            old(self).ready(),
            command_valid(cmd),
        ensures
            final(self).ready(),
            Self::queued_into(*old(self), *final(self), cmd),
    ;
}

impl ChildBuild for ChildBuilder {
    open spec fn built_for(&self) -> Entity {
        self.parent_view()
    }

    open spec fn ready(&self) -> bool {
        self.valid()
    }

    open spec fn can_spawn(&self, world: HierarchyModel) -> bool {
        self.valid() && world.all_issued(self.spawned()) && self.spawned().len() < MAX_CHILDREN
    }

    /// The child is issued in `world` and recorded; no link is made yet.
    open spec fn spawned_into(
        b0: Self,
        w0: HierarchyModel,
        b1: Self,
        w1: HierarchyModel,
        e: Entity,
    ) -> bool {
        &&& w1 == (HierarchyModel { next: (e + 1) as u64, ..w0 })
        &&& b1.spawned() == b0.spawned().push(e)
        &&& b1.parent_view() == b0.parent_view()
        &&& b1.queued() == b0.queued()
        &&& b1.valid()
        &&& w1.all_issued(b1.spawned())
    }

    /// The command runs before the children are added.
    open spec fn queued_into(b0: Self, b1: Self, cmd: HierarchyCommand) -> bool {
        &&& b1.queued() == b0.queued().push(cmd)
        &&& b1.spawned() == b0.spawned()
        &&& b1.parent_view() == b0.parent_view()
    }

    fn spawn_empty(&mut self, world: &mut Hierarchy) -> (e: Entity) {
        let e = world.spawn_empty();
        let ghost before = list_items(self.children);
        list_push(&mut self.children, e);
        assert forall|i: int, j: int|
            0 <= i < j < list_items(self.children).len() implies list_items(self.children)[i] != list_items(self.children)[j] by {
            if j == before.len() {
                assert(old(world)@.issued(before[i]));
            } else {
                assert(before[i] != before[j]);
            }
        }
        assert forall|i: int| 0 <= i < list_items(self.children).len() implies world@.issued(
            #[trigger] list_items(self.children)[i],
        ) by {
            if i < before.len() {
                assert(old(world)@.issued(before[i]));
            }
        }
        e
    }

    fn parent_entity(&self) -> (r: Entity) {
        self.parent
    }

    fn queue_command(&mut self, cmd: HierarchyCommand) {
        self.commands.queue_command(cmd);
    }
}

impl ChildBuild for WorldChildBuilder {
    open spec fn built_for(&self) -> Entity {
        self.parent_view()
    }

    open spec fn ready(&self) -> bool {
        self.valid()
    }

    open spec fn can_spawn(&self, world: HierarchyModel) -> bool {
        world.children_of(self.parent_view()).len() < MAX_CHILDREN
    }

    /// The child is issued and made the last child of the parent at once,
    /// with one `ChildAdded`; where the parent was never issued, the child
    /// stays unlinked.
    open spec fn spawned_into(
        b0: Self,
        w0: HierarchyModel,
        b1: Self,
        w1: HierarchyModel,
        e: Entity,
    ) -> bool {
        let p = b0.parent_view();
        &&& b1 == b0
        &&& !w0.issued(p) ==> w1 == (HierarchyModel { next: (e + 1) as u64, ..w0 })
        &&& w0.issued(p) ==> w1 == (HierarchyModel {
            next: (e + 1) as u64,
            parent: w0.parent.insert(e, p),
            children: w0.children.insert(p, w0.children_of(p).push(e)),
            events: delivered(w0.events, seq![HierarchyEvent::ChildAdded { child: e, parent: p }]),
            ..w0
        })
    }

    /// The command runs at the next flush.
    open spec fn queued_into(b0: Self, b1: Self, cmd: HierarchyCommand) -> bool {
        &&& b1.queued() == b0.queued().push(cmd)
        &&& b1.parent_view() == b0.parent_view()
    }

    fn spawn_empty(&mut self, world: &mut Hierarchy) -> (e: Entity) {
        world.spawn_child(self.parent)
    }

    fn parent_entity(&self) -> (r: Entity) {
        self.parent
    }

    fn queue_command(&mut self, cmd: HierarchyCommand) {
        self.commands.queue_command(cmd);
    }
}

} // verus!
