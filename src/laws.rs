//! Laws of the hierarchy operations, proved over the model.
use crate::child_list::{list_items, Entity};
use crate::commands::{after_command, after_commands, command_valid, HierarchyCommand};
use crate::event::HierarchyEvent;
use crate::lemmas::{
    lemma_add_children_wf, lemma_clear_children_wf, lemma_delivered_empty,
    lemma_insert_children_wf, lemma_push_contains, lemma_remove_children_wf,
    lemma_remove_parent_wf, lemma_single_contains, lemma_usable, lemma_without_absent, lemma_without_contains,
};
use crate::model::{delivered, removal_events, reparent_events, without, HierarchyModel};
use vstd::prelude::*;

verus! {

broadcast use vstd::seq_lib::group_filter_ensures;

proof fn lemma_usable_without(m: HierarchyModel, p: Entity, cs: Seq<Entity>)
    requires
        !cs.contains(p),
    ensures
        !m.usable(cs).contains(p),
        m.usable(cs).no_duplicates(),
        m.all_issued(m.usable(cs)),
{
    lemma_usable(m, cs);
}

proof fn lemma_command_wf(m: HierarchyModel, cmd: HierarchyCommand)
    requires
        m.wf(),
        command_valid(cmd),
    ensures
        after_command(m, cmd).wf(),
{
    if crate::commands::runnable(m, cmd) && !crate::commands::command_fails(m, cmd) {
        match cmd {
            HierarchyCommand::AddChild { parent, child } => {
                lemma_single_contains(child, parent);
                if m.issued(parent) {
                    lemma_usable_without(m, parent, seq![child]);
                    lemma_add_children_wf(m, parent, m.usable(seq![child]));
                }
            },
            HierarchyCommand::AddChildren { parent, children } => {
                if m.issued(parent) {
                    lemma_usable_without(m, parent, list_items(children));
                    lemma_add_children_wf(m, parent, m.usable(list_items(children)));
                }
            },
            HierarchyCommand::InsertChildren { parent, index, children } => {
                if m.issued(parent) {
                    lemma_usable_without(m, parent, list_items(children));
                    lemma_insert_children_wf(m, parent, index as int, m.usable(list_items(children)));
                }
            },
            HierarchyCommand::RemoveChildren { parent, children } => {
                lemma_remove_children_wf(m, parent, list_items(children));
            },
            HierarchyCommand::ClearChildren { parent } => {
                lemma_clear_children_wf(m, parent);
            },
            HierarchyCommand::ReplaceChildren { parent, children } => {
                if m.issued(parent) {
                    lemma_usable_without(m, parent, list_items(children));
                    lemma_clear_children_wf(m, parent);
                    lemma_add_children_wf(m.clear_children(parent), parent, m.usable(list_items(children)));
                }
            },
            HierarchyCommand::RemoveParent { child } => {
                lemma_remove_parent_wf(m, child);
            },
        }
    }
}

/// In every state that valid commands reach from a well-formed hierarchy,
/// `c` is listed under `p` exactly when `p` is the parent of `c`; lists stay
/// non-empty and free of duplicates.
pub proof fn law_links_agree_after_commands(m: HierarchyModel, cmds: Seq<HierarchyCommand>)
    requires
        m.wf(),
        forall|i: int| 0 <= i < cmds.len() ==> command_valid(#[trigger] cmds[i]),
    ensures
        after_commands(m, cmds).wf(),
        forall|p: Entity, c: Entity|
            #[trigger] after_commands(m, cmds).children_of(p).contains(c) <==> after_commands(
                m,
                cmds,
            ).parent_of(c) == Some(p),
    decreases cmds.len(),
{
    if cmds.len() > 0 {
        let d = cmds.drop_last();
        assert forall|i: int| 0 <= i < d.len() implies command_valid(#[trigger] d[i]) by {
            assert(d[i] == cmds[i]);
        }
        law_links_agree_after_commands(m, d);
        assert(command_valid(cmds[cmds.len() - 1]));
        lemma_command_wf(after_commands(m, d), cmds.last());
    }
    let n = after_commands(m, cmds);
    assert forall|p: Entity, c: Entity| #[trigger]
        n.children_of(p).contains(c) <==> n.parent_of(c) == Some(p) by {}
}

proof fn lemma_without_all(s: Seq<Entity>, xs: Seq<Entity>)
    requires
        forall|i: int| 0 <= i < s.len() ==> xs.contains(#[trigger] s[i]),
    ensures
        without(s, xs) == Seq::<Entity>::empty(),
    decreases s.len(),
{
    reveal(Seq::filter);
    if s.len() > 0 {
        let d = s.drop_last();
        assert forall|i: int| 0 <= i < d.len() implies xs.contains(#[trigger] d[i]) by {
            assert(d[i] == s[i]);
        }
        lemma_without_all(d, xs);
    }
}

proof fn lemma_no_reparent_events(parent: Map<Entity, Entity>, p: Entity, cs: Seq<Entity>)
    requires
        forall|i: int| 0 <= i < cs.len() ==> parent.contains_key(#[trigger] cs[i]) && parent[cs[i]] == p,
    ensures
        reparent_events(parent, p, cs) == Seq::<HierarchyEvent>::empty(),
    decreases cs.len(),
{
    if cs.len() > 0 {
        let d = cs.drop_last();
        assert forall|i: int| 0 <= i < d.len() implies parent.contains_key(#[trigger] d[i])
            && parent[d[i]] == p by {
            assert(d[i] == cs[i]);
        }
        lemma_no_reparent_events(parent, p, d);
        assert(parent.contains_key(cs[cs.len() - 1]));
    }
}

proof fn lemma_add_children_twice(m: HierarchyModel, p: Entity, cs: Seq<Entity>)
    requires
        m.wf(),
        m.issued(p),
        m.all_issued(cs),
        cs.no_duplicates(),
        !cs.contains(p),
    ensures
        m.add_children(p, cs).add_children(p, cs) == m.add_children(p, cs),
        m.children_of(p).len() == 0 && cs.len() > 0 ==> m.add_children(p, cs).children_of(p)
            == cs,
{
    let m1 = m.add_children(p, cs);
    if cs.len() > 0 {
        lemma_add_children_wf(m, p, cs);
        let m2 = m1.add_children(p, cs);
        // parent links are already in place
        assert(m2.parent =~= m1.parent);
        assert forall|i: int| 0 <= i < cs.len() implies m1.parent.contains_key(#[trigger] cs[i])
            && m1.parent[cs[i]] == p by {
            assert(cs.contains(cs[i]));
        }
        lemma_no_reparent_events(m1.parent, p, cs);
        lemma_delivered_empty(m1.events);
        // the list of `p`
        let rest = without(m.children_of(p), cs);
        assert forall|i: int| 0 <= i < rest.len() implies !cs.contains(#[trigger] rest[i]) by {
            assert(rest.contains(rest[i]));
            lemma_without_contains(m.children_of(p), cs, rest[i]);
        }
        lemma_without_absent(rest, cs);
        assert forall|i: int| 0 <= i < cs.len() implies cs.contains(#[trigger] cs[i]) by {}
        lemma_without_all(cs, cs);
        assert(without(rest + cs, cs) == without(rest, cs) + without(cs, cs));
        assert(without(rest + cs, cs) =~= rest);
        // other lists hold none of `cs`
        assert forall|q: Entity| q != p && #[trigger] m1.children.contains_key(q) implies without(
            m1.children[q],
            cs,
        ) == m1.children[q] by {
            let l = m1.children[q];
            assert forall|i: int| 0 <= i < l.len() implies !cs.contains(#[trigger] l[i]) by {
                assert(l.contains(l[i]));
                lemma_without_contains(m.children[q], cs, l[i]);
            }
            lemma_without_absent(l, cs);
        }
        assert(m2.children =~= m1.children);
        if m.children_of(p).len() == 0 {
            assert(rest =~= Seq::<Entity>::empty()) by {
                reveal(Seq::filter);
            }
            assert(rest + cs =~= cs);
        }
    }
}

/// Where the last child leaves a list, the list goes: in a well-formed
/// hierarchy an empty list and no list are the same state, and removing the
/// only child of `p`, either way, leaves `p` with no list.
pub proof fn law_last_child_removed(m: HierarchyModel, p: Entity, c: Entity)
    requires
        m.wf(),
        m.children_of(p) == seq![c],
    ensures
        forall|q: Entity| #[trigger] m.children_of(q).len() == 0 ==> !m.children.contains_key(q),
        !m.remove_children(p, seq![c]).children.contains_key(p),
        !m.remove_parent(c).children.contains_key(p),
{
    assert(m.children_of(p).contains(c)) by {
        assert(seq![c][0] == c);
    }
    assert(m.parent_of(c) == Some(p));
    assert forall|i: int| 0 <= i < seq![c].len() implies seq![c].contains(#[trigger] seq![c][i]) by {}
    lemma_without_all(seq![c], seq![c]);
}

proof fn lemma_move(m: HierarchyModel, a: Entity, b: Entity, c: Entity)
    requires
        m.wf(),
        m.issued(b),
        m.issued(c),
        m.parent_of(c) == Some(a),
        a != b,
        c != b,
    ensures
        m.add_children(b, seq![c]).parent_of(c) == Some(b),
        !m.add_children(b, seq![c]).children_of(a).contains(c),
        m.add_children(b, seq![c]).children_of(b).last() == c,
        m.add_children(b, seq![c]).events == delivered(
            m.events,
            seq![HierarchyEvent::ChildMoved { child: c, previous_parent: a, new_parent: b }],
        ),
{
    let n = m.add_children(b, seq![c]);
    lemma_single_contains(c, c);
    lemma_without_contains(m.children_of(a), seq![c], c);
    assert(seq![c].drop_last() =~= Seq::<Entity>::empty());
    assert(seq![c].last() == c);
    assert(reparent_events(m.parent, b, Seq::<Entity>::empty()) == Seq::<HierarchyEvent>::empty());
    assert(Seq::<HierarchyEvent>::empty().push(
        HierarchyEvent::ChildMoved { child: c, previous_parent: a, new_parent: b },
    ) =~= seq![HierarchyEvent::ChildMoved { child: c, previous_parent: a, new_parent: b }]);
}

/// Removing children touches only those listed under `p`: the others keep
/// their parent link, and each notification names a removed child.
pub proof fn law_remove_selective(m: HierarchyModel, p: Entity, cs: Seq<Entity>)
    requires
        m.wf(),
    ensures
        m.remove_children(p, cs).children_of(p) == without(m.children_of(p), cs),
        forall|c: Entity|
            !m.children_of(p).contains(c) ==> #[trigger] m.remove_children(p, cs).parent_of(c)
                == m.parent_of(c),
        m.remove_children(p, cs).events == delivered(
            m.events,
            removal_events(m.children_of(p), p, cs),
        ),
        forall|i: int|
            0 <= i < removal_events(m.children_of(p), p, cs).len() ==> (match #[trigger] removal_events(
                m.children_of(p),
                p,
                cs,
            )[i] {
                HierarchyEvent::ChildRemoved { child, parent } => parent == p && cs.contains(child)
                    && m.children_of(p).contains(child),
                _ => false,
            }),
{
    let n = m.remove_children(p, cs);
    if !m.children.contains_key(p) {
        reveal(Seq::filter);
        lemma_no_removal_events(m.children_of(p), p, cs);
    } else {
        if without(m.children[p], cs).len() == 0 {
            assert(n.children_of(p) =~= without(m.children_of(p), cs));
        }
    }
    lemma_removal_events_named(m.children_of(p), p, cs);
}

proof fn lemma_no_removal_events(list: Seq<Entity>, p: Entity, cs: Seq<Entity>)
    requires
        list.len() == 0,
    ensures
        removal_events(list, p, cs) == Seq::<HierarchyEvent>::empty(),
    decreases cs.len(),
{
    if cs.len() > 0 {
        lemma_no_removal_events(list, p, cs.drop_last());
    }
}

proof fn lemma_removal_events_named(list: Seq<Entity>, p: Entity, cs: Seq<Entity>)
    ensures
        forall|i: int|
            0 <= i < removal_events(list, p, cs).len() ==> (match #[trigger] removal_events(
                list,
                p,
                cs,
            )[i] {
                HierarchyEvent::ChildRemoved { child, parent } => parent == p && cs.contains(child)
                    && list.contains(child),
                _ => false,
            }),
    decreases cs.len(),
{
    if cs.len() > 0 {
        let d = cs.drop_last();
        lemma_removal_events_named(list, p, d);
        let r = removal_events(list, p, d);
        assert forall|i: int| 0 <= i < removal_events(list, p, cs).len() implies (
        match #[trigger] removal_events(list, p, cs)[i] {
            HierarchyEvent::ChildRemoved { child, parent } => parent == p && cs.contains(child)
                && list.contains(child),
            _ => false,
        }) by {
            if i < r.len() {
                assert(removal_events(list, p, cs)[i] == r[i]);
                match r[i] {
                    HierarchyEvent::ChildRemoved { child, parent } => {
                        lemma_push_contains(d, cs.last(), child);
                        assert(cs =~= d.push(cs.last()));
                    },
                    _ => {},
                }
            } else {
                assert(cs.contains(cs[cs.len() - 1]));
            }
        }
    }
}

proof fn lemma_replace(m: HierarchyModel, p: Entity, cs: Seq<Entity>)
    requires
        m.wf(),
        m.issued(p),
        m.all_issued(cs),
        cs.no_duplicates(),
        !cs.contains(p),
        cs.len() > 0,
    ensures
        m.replace_children(p, cs).children_of(p) == cs,
        forall|c: Entity| cs.contains(c) ==> #[trigger] m.replace_children(p, cs).parent_of(c)
            == Some(p),
        forall|c: Entity|
            m.children_of(p).contains(c) && !cs.contains(c) ==> #[trigger] m.replace_children(
                p,
                cs,
            ).parent_of(c) == None::<Entity>,
{
    let k = m.clear_children(p);
    lemma_clear_children_wf(m, p);
    lemma_add_children_twice(k, p, cs);
    assert(k.children_of(p) =~= Seq::<Entity>::empty());
}

proof fn lemma_usable_same_next(a: HierarchyModel, b: HierarchyModel, cs: Seq<Entity>)
    requires
        a.next == b.next,
    ensures
        a.usable(cs) == b.usable(cs),
    decreases cs.len(),
{
    if cs.len() > 0 {
        lemma_usable_same_next(a, b, cs.drop_last());
    }
}

proof fn lemma_usable_single(m: HierarchyModel, c: Entity)
    requires
        m.issued(c),
    ensures
        m.usable(seq![c]) == seq![c],
{
    assert(seq![c].drop_last() =~= Seq::<Entity>::empty());
    assert(seq![c].last() == c);
    assert(m.usable(Seq::<Entity>::empty()) == Seq::<Entity>::empty());
    assert(Seq::<Entity>::empty().push(c) =~= seq![c]);
    assert(m.usable(seq![c]) =~= seq![c]);
}

/// Adding the same children twice is adding them once: the second call
/// changes nothing and sends no notification. Where `p` had no children,
/// its list is then exactly the usable items of `cs`.
pub proof fn law_add_children_idempotent(m: HierarchyModel, p: Entity, cs: Seq<Entity>)
    requires
        m.wf(),
        !cs.contains(p),
    ensures
        m.add_children_checked(p, cs).add_children_checked(p, cs) == m.add_children_checked(p, cs),
        m.issued(p) && m.children_of(p).len() == 0 && m.usable(cs).len() > 0
            ==> m.add_children_checked(p, cs).children_of(p) == m.usable(cs),
{
    if m.issued(p) {
        let u = m.usable(cs);
        lemma_usable(m, cs);
        assert(!u.contains(p));
        let m1 = m.add_children(p, u);
        assert(m1.next == m.next);
        lemma_usable_same_next(m1, m, cs);
        lemma_add_children_twice(m, p, u);
    }
}

/// Adding a child that has another parent moves it: the new parent is its
/// parent, the old list no longer holds it, it ends the new list, and one
/// `ChildMoved` is sent.
pub proof fn law_move(m: HierarchyModel, a: Entity, b: Entity, c: Entity)
    requires
        m.wf(),
        m.issued(b),
        m.parent_of(c) == Some(a),
        a != b,
        c != b,
    ensures
        m.add_children_checked(b, seq![c]).parent_of(c) == Some(b),
        !m.add_children_checked(b, seq![c]).children_of(a).contains(c),
        m.add_children_checked(b, seq![c]).children_of(b).last() == c,
        m.add_children_checked(b, seq![c]).events == delivered(
            m.events,
            seq![HierarchyEvent::ChildMoved { child: c, previous_parent: a, new_parent: b }],
        ),
{
    assert(m.parent.contains_key(c));
    lemma_usable_single(m, c);
    lemma_move(m, a, b, c);
}

/// Replacing the children of `p` with `cs` leaves exactly the usable items
/// of `cs` listed under `p`, each with `p` as parent; former children left
/// out of `cs` have no parent.
pub proof fn law_replace(m: HierarchyModel, p: Entity, cs: Seq<Entity>)
    requires
        m.wf(),
        m.issued(p),
        !cs.contains(p),
    ensures
        m.replace_children_checked(p, cs).children_of(p) == m.usable(cs),
        forall|c: Entity| #[trigger]
            m.usable(cs).contains(c) ==> m.replace_children_checked(p, cs).parent_of(c) == Some(p),
        forall|c: Entity|
            m.children_of(p).contains(c) && !cs.contains(c) ==> #[trigger] m.replace_children_checked(
                p,
                cs,
            ).parent_of(c) == None::<Entity>,
{
    let u = m.usable(cs);
    lemma_usable(m, cs);
    assert(!u.contains(p));
    if u.len() > 0 {
        lemma_replace(m, p, u);
        assert forall|c: Entity|
            m.children_of(p).contains(c) && !cs.contains(c) implies #[trigger] m.replace_children_checked(
            p,
            cs,
        ).parent_of(c) == None::<Entity> by {
            assert(!u.contains(c));
        }
    } else {
        let k = m.clear_children(p);
        assert(k.children_of(p) =~= Seq::<Entity>::empty());
        assert(u =~= Seq::<Entity>::empty());
    }
}

} // verus!
