//! Deferred mutation: operations recorded as commands and applied later, in
//! the order they were queued.
use crate::child_list::{
    list_as_slice, list_from_slice, list_items, list_len, ChildList, Entity, MAX_CHILDREN,
};
use crate::event::HierarchyError;
use crate::hierarchy::Hierarchy;
use crate::model::HierarchyModel;
use vstd::prelude::*;

verus! {

/// One recorded hierarchy operation, named after the operation it runs.
pub enum HierarchyCommand {
    AddChild { parent: Entity, child: Entity },
    AddChildren { parent: Entity, children: ChildList },
    InsertChildren { parent: Entity, index: usize, children: ChildList },
    RemoveChildren { parent: Entity, children: ChildList },
    ClearChildren { parent: Entity },
    ReplaceChildren { parent: Entity, children: ChildList },
    RemoveParent { child: Entity },
}

/// A command as it may stand in a queue: no entity is named as its own
/// child.
pub open spec fn command_valid(cmd: HierarchyCommand) -> bool {
    match cmd {
        HierarchyCommand::AddChild { parent, child } => child != parent,
        HierarchyCommand::AddChildren { parent, children } => !list_items(children).contains(parent),
        HierarchyCommand::InsertChildren { parent, children, .. } => !list_items(children).contains(parent),
        HierarchyCommand::ReplaceChildren { parent, children } => !list_items(children).contains(parent),
        _ => true,
    }
}

/// Whether the list `cmd` grows stays within its bound on `m`. Lists that
/// long cannot be held in memory, so this only rules out the impossible.
pub open spec fn runnable(m: HierarchyModel, cmd: HierarchyCommand) -> bool {
    match cmd {
        HierarchyCommand::AddChild { parent, .. } => m.children_of(parent).len() < MAX_CHILDREN,
        HierarchyCommand::AddChildren { parent, children } => m.children_of(parent).len()
            + list_items(children).len() <= MAX_CHILDREN,
        HierarchyCommand::InsertChildren { parent, children, .. } => m.children_of(parent).len()
            + list_items(children).len() <= MAX_CHILDREN,
        HierarchyCommand::ReplaceChildren { children, .. } => list_items(children).len() <= MAX_CHILDREN,
        _ => true,
    }
}

/// Whether `cmd` fails when run on `m`: an insertion whose index lies past
/// the list it splices into.
pub open spec fn command_fails(m: HierarchyModel, cmd: HierarchyCommand) -> bool {
    match cmd {
        HierarchyCommand::InsertChildren { parent, index, children } => runnable(m, cmd)
            && !m.insert_index_fits(parent, index as int, list_items(children)),
        _ => false,
    }
}

/// `m` after `cmd` runs: as the operation it names does it, handles never
/// issued being skipped one by one. A command that fails changes nothing.
pub open spec fn after_command(m: HierarchyModel, cmd: HierarchyCommand) -> HierarchyModel {
    if !runnable(m, cmd) || command_fails(m, cmd) {
        m
    } else {
        match cmd {
            HierarchyCommand::AddChild { parent, child } => m.add_children_checked(
                parent,
                seq![child],
            ),
            HierarchyCommand::AddChildren { parent, children } => m.add_children_checked(
                parent,
                list_items(children),
            ),
            HierarchyCommand::InsertChildren { parent, index, children } =>
                m.insert_children_checked(parent, index as int, list_items(children)),
            HierarchyCommand::RemoveChildren { parent, children } => m.remove_children(
                parent,
                list_items(children),
            ),
            HierarchyCommand::ClearChildren { parent } => m.clear_children(parent),
            HierarchyCommand::ReplaceChildren { parent, children } => m.replace_children_checked(
                parent,
                list_items(children),
            ),
            HierarchyCommand::RemoveParent { child } => m.remove_parent(child),
        }
    }
}

/// The position of the first of `cmds` that fails when they run from `m`,
/// first to last, if one does.
pub open spec fn first_failure(m: HierarchyModel, cmds: Seq<HierarchyCommand>) -> Option<int>
    decreases cmds.len(),
{
    if cmds.len() == 0 {
        None
    } else {
        match first_failure(m, cmds.drop_last()) {
            Some(k) => Some(k),
            None => if command_fails(after_commands(m, cmds.drop_last()), cmds.last()) {
                Some(cmds.len() - 1)
            } else {
                None
            },
        }
    }
}

/// `m` after each of `cmds` runs, first to last.
pub open spec fn after_commands(m: HierarchyModel, cmds: Seq<HierarchyCommand>) -> HierarchyModel
    decreases cmds.len(),
{
    if cmds.len() == 0 {
        m
    } else {
        after_command(after_commands(m, cmds.drop_last()), cmds.last())
    }
}

/// Commands waiting to be applied to a hierarchy, in the order queued.
pub struct CommandQueue {
    commands: Vec<HierarchyCommand>,
}

impl View for CommandQueue {
    type V = Seq<HierarchyCommand>;

    closed spec fn view(&self) -> Seq<HierarchyCommand> {
        self.commands@
    }
}

impl CommandQueue {
    /// Every queued command is valid.
    pub open spec fn valid(&self) -> bool {
        forall|i: int| 0 <= i < self@.len() ==> command_valid(#[trigger] self@[i])
    }

    /// An empty queue.
    pub fn new() -> (r: CommandQueue)
        ensures
            r@ == Seq::<HierarchyCommand>::empty(),
            r.valid(),
    {
        CommandQueue { commands: Vec::new() }
    }

    /// How many commands wait.
    pub fn len(&self) -> (r: usize)
        ensures
            r == self@.len(),
    {
        self.commands.len()
    }

    /// Queues `cmd` after the others.
    pub fn queue_command(&mut self, cmd: HierarchyCommand)
        requires
            old(self).valid(),
            command_valid(cmd),
        ensures
            final(self)@ == old(self)@.push(cmd),
            final(self).valid(),
    {
        self.commands.push(cmd);
        assert forall|i: int| 0 <= i < self@.len() implies command_valid(#[trigger] self@[i]) by {
            if i < old(self)@.len() {
                assert(self@[i] == old(self)@[i]);
            }
        }
    }

    /// Moves the commands of `other` after those of `self`, in order.
    pub fn append(&mut self, other: &mut CommandQueue)
        requires
            old(self).valid(),
            old(other).valid(),
        ensures
            final(self)@ == old(self)@ + old(other)@,
            final(other)@ == Seq::<HierarchyCommand>::empty(),
            final(self).valid(),
    {
        self.commands.append(&mut other.commands);
    }

    /// Queues `add_child(p, c)`. `c` must not be `p`.
    pub fn add_child(&mut self, p: Entity, c: Entity)
        requires
            old(self).valid(),
            c != p,
        ensures
            final(self).valid(),
            final(self)@ == old(self)@.push(HierarchyCommand::AddChild { parent: p, child: c }),
    {
        self.queue_command(HierarchyCommand::AddChild { parent: p, child: c });
    }

    /// Queues `add_children(p, cs)`. `cs` must not hold `p`.
    pub fn add_children(&mut self, p: Entity, cs: &[Entity])
        requires
            old(self).valid(),
            !cs@.contains(p),
        ensures
            final(self).valid(),
            final(self)@.len() == old(self)@.len() + 1,
            final(self)@.drop_last() == old(self)@,
            match final(self)@.last() {
                HierarchyCommand::AddChildren { parent, children } => parent == p && list_items(children)
                    == cs@,
                _ => false,
            },
    {
        let cmd = HierarchyCommand::AddChildren { parent: p, children: list_from_slice(cs) };
        self.queue_command(cmd);
        assert(self@.drop_last() =~= old(self)@);
    }

    /// Queues `insert_children(p, index, cs)`. `cs` must not hold `p`; an
    /// index found out of range when the command runs makes `apply` fail.
    pub fn insert_children(&mut self, p: Entity, index: usize, cs: &[Entity])
        requires
            old(self).valid(),
            !cs@.contains(p),
        ensures
            final(self).valid(),
            final(self)@.len() == old(self)@.len() + 1,
            final(self)@.drop_last() == old(self)@,
            match final(self)@.last() {
                HierarchyCommand::InsertChildren { parent, index: i, children } => parent == p
                    && i == index && list_items(children) == cs@,
                _ => false,
            },
    {
        let cmd = HierarchyCommand::InsertChildren { parent: p, index, children: list_from_slice(cs) };
        self.queue_command(cmd);
        assert(self@.drop_last() =~= old(self)@);
    }

    /// Queues `remove_children(p, cs)`.
    pub fn remove_children(&mut self, p: Entity, cs: &[Entity])
        requires
            old(self).valid(),
        ensures
            final(self).valid(),
            final(self)@.len() == old(self)@.len() + 1,
            final(self)@.drop_last() == old(self)@,
            match final(self)@.last() {
                HierarchyCommand::RemoveChildren { parent, children } => parent == p && list_items(children)
                    == cs@,
                _ => false,
            },
    {
        let cmd = HierarchyCommand::RemoveChildren { parent: p, children: list_from_slice(cs) };
        self.queue_command(cmd);
        assert(self@.drop_last() =~= old(self)@);
    }

    /// Queues `clear_children(p)`.
    pub fn clear_children(&mut self, p: Entity)
        requires
            old(self).valid(),
        ensures
            final(self).valid(),
            final(self)@ == old(self)@.push(HierarchyCommand::ClearChildren { parent: p }),
    {
        self.queue_command(HierarchyCommand::ClearChildren { parent: p });
    }

    /// Queues `replace_children(p, cs)`. `cs` must not hold `p`.
    pub fn replace_children(&mut self, p: Entity, cs: &[Entity])
        requires
            old(self).valid(),
            !cs@.contains(p),
        ensures
            final(self).valid(),
            final(self)@.len() == old(self)@.len() + 1,
            final(self)@.drop_last() == old(self)@,
            match final(self)@.last() {
                HierarchyCommand::ReplaceChildren { parent, children } => parent == p && list_items(children)
                    == cs@,
                _ => false,
            },
    {
        let cmd = HierarchyCommand::ReplaceChildren { parent: p, children: list_from_slice(cs) };
        self.queue_command(cmd);
        assert(self@.drop_last() =~= old(self)@);
    }

    /// Queues making `p` the parent of `c`, which runs as `add_child(p, c)`.
    /// `c` must not be `p`.
    pub fn set_parent(&mut self, c: Entity, p: Entity)
        requires
            old(self).valid(),
            c != p,
        ensures
            final(self).valid(),
            final(self)@ == old(self)@.push(HierarchyCommand::AddChild { parent: p, child: c }),
    {
        self.add_child(p, c)
    }

    /// Queues `remove_parent(c)`.
    pub fn remove_parent(&mut self, c: Entity)
        requires
            old(self).valid(),
        ensures
            final(self).valid(),
            final(self)@ == old(self)@.push(HierarchyCommand::RemoveParent { child: c }),
    {
        self.queue_command(HierarchyCommand::RemoveParent { child: c });
    }

    /// Runs the queued commands on `world`, first to last, and empties the
    /// queue. Where one fails, it stops there: the commands before it have
    /// run, it and those after it are dropped, and its error is returned.
    pub fn apply(&mut self, world: &mut Hierarchy) -> (r: Result<(), HierarchyError>)
        requires
            old(self).valid(),
            old(world)@.wf(),
        ensures
            final(world)@.wf(),
            final(self)@ == Seq::<HierarchyCommand>::empty(),
            final(self).valid(),
            match first_failure(old(world)@, old(self)@) {
                None => r is Ok && final(world)@ == after_commands(old(world)@, old(self)@),
                Some(k) => r == Err::<(), HierarchyError>(HierarchyError::IndexOutOfRange)
                    && 0 <= k < old(self)@.len() && final(world)@ == after_commands(
                    old(world)@,
                    old(self)@.take(k),
                ),
            },
    {
        let ghost m = world@;
        let ghost cmds = self@;
        let mut i: usize = 0;
        assert(cmds.take(0) =~= Seq::<HierarchyCommand>::empty());
        while i < self.commands.len()
            invariant
                0 <= i <= cmds.len(),
                self@ == cmds,
                forall|j: int| 0 <= j < cmds.len() ==> command_valid(#[trigger] cmds[j]),
                world@.wf(),
                world@ == after_commands(m, cmds.take(i as int)),
                first_failure(m, cmds.take(i as int)) == None::<int>,
                m == old(world)@,
                cmds == old(self)@,
            decreases cmds.len() - i,
        {
            assert(cmds.take(i + 1).drop_last() =~= cmds.take(i as int));
            assert(cmds.take(i + 1).last() == cmds[i as int]);
            assert(command_valid(cmds[i as int]));
            let ghost before = world@;
            let res = run_command(world, &self.commands[i]);
            assert(after_commands(m, cmds.take(i + 1)) == after_command(before, cmds[i as int]));
            if res.is_err() {
                proof {
                    assert(first_failure(m, cmds.take(i + 1)) == Some(i as int));
                    lemma_first_failure_prefix(m, cmds, i + 1);
                    assert(world@ == before);
                }
                self.commands = Vec::new();
                assert(self@ =~= Seq::<HierarchyCommand>::empty());
                return res;
            }
            assert(first_failure(m, cmds.take(i + 1)) == None::<int>);
            i = i + 1;
        }
        assert(cmds.take(cmds.len() as int) =~= cmds);
        assert(first_failure(m, cmds) == None::<int>);
        self.commands = Vec::new();
        Ok(())
    }
}

/// A failure found in a prefix is the first failure of the whole.
proof fn lemma_first_failure_prefix(m: HierarchyModel, cmds: Seq<HierarchyCommand>, n: int)
    requires
        0 <= n <= cmds.len(),
        first_failure(m, cmds.take(n)) is Some,
    ensures
        first_failure(m, cmds) == first_failure(m, cmds.take(n)),
    decreases cmds.len(),
{
    if n < cmds.len() {
        let d = cmds.drop_last();
        assert(d.take(n) =~= cmds.take(n));
        lemma_first_failure_prefix(m, d, n);
    } else {
        assert(cmds.take(n) =~= cmds);
    }
}

/// Runs one command on `world`.
fn run_command(world: &mut Hierarchy, cmd: &HierarchyCommand) -> (r: Result<(), HierarchyError>)
    requires
        old(world)@.wf(),
        command_valid(*cmd),
    ensures
        final(world)@ == after_command(old(world)@, *cmd),
        final(world)@.wf(),
        r is Err <==> command_fails(old(world)@, *cmd),
        r is Err ==> r == Err::<(), HierarchyError>(HierarchyError::IndexOutOfRange),
{
    match cmd {
        HierarchyCommand::AddChild { parent, child } => {
            if world.child_count(*parent) < MAX_CHILDREN {
                world.add_child(*parent, *child);
            }
        },
        HierarchyCommand::AddChildren { parent, children } => {
            if list_len(children) <= MAX_CHILDREN && world.child_count(*parent) <= MAX_CHILDREN
                - list_len(children) {
                world.add_children(*parent, list_as_slice(children));
            }
        },
        HierarchyCommand::InsertChildren { parent, index, children } => {
            if list_len(children) <= MAX_CHILDREN && world.child_count(*parent) <= MAX_CHILDREN
                - list_len(children) {
                if !world.can_insert_at(*parent, *index, list_as_slice(children)) {
                    return Err(HierarchyError::IndexOutOfRange);
                }
                world.insert_children(*parent, *index, list_as_slice(children));
            }
        },
        HierarchyCommand::RemoveChildren { parent, children } => {
            world.remove_children(*parent, list_as_slice(children));
        },
        HierarchyCommand::ClearChildren { parent } => {
            world.clear_children(*parent);
        },
        HierarchyCommand::ReplaceChildren { parent, children } => {
            if list_len(children) <= MAX_CHILDREN {
                world.replace_children(*parent, list_as_slice(children));
            }
        },
        HierarchyCommand::RemoveParent { child } => {
            world.remove_parent(*child);
        },
    }
    Ok(())
}

} // verus!
