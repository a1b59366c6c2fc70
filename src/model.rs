//! The mathematical model of a hierarchy and of each operation on it.
use crate::child_list::Entity;
use crate::event::HierarchyEvent;
use vstd::prelude::*;

verus! {

/// What a hierarchy holds: handles below `next` have been issued; a parent
/// link per entity that has one; a non-empty children list per entity that has
/// children; and the notifications delivered so far, if a sink is present.
pub struct HierarchyModel {
    pub next: u64,
    pub parent: Map<Entity, Entity>,
    pub children: Map<Entity, Seq<Entity>>,
    pub events: Option<Seq<HierarchyEvent>>,
}

/// `s` with every item that occurs in `xs` taken out, order kept.
pub open spec fn without(s: Seq<Entity>, xs: Seq<Entity>) -> Seq<Entity> {
    s.filter(|e: Entity| !xs.contains(e))
}

/// `m` with `l` as the list of `p`; an empty list means no entry at all.
pub open spec fn with_list(m: Map<Entity, Seq<Entity>>, p: Entity, l: Seq<Entity>) -> Map<
    Entity,
    Seq<Entity>,
> {
    if l.len() > 0 {
        m.insert(p, l)
    } else {
        m.remove(p)
    }
}

/// Every list of `m` but that of `keep` with the items of `xs` taken out;
/// lists left empty go.
pub open spec fn detached(m: Map<Entity, Seq<Entity>>, xs: Seq<Entity>, keep: Entity) -> Map<
    Entity,
    Seq<Entity>,
> {
    Map::new(
        |q: Entity| m.contains_key(q) && (q == keep || without(m[q], xs).len() > 0),
        |q: Entity|
            if q == keep {
                m[q]
            } else {
                without(m[q], xs)
            },
    )
}

/// The notification for giving `c` the parent `p`, under the links `parent`.
pub open spec fn reparent_event(parent: Map<Entity, Entity>, p: Entity, c: Entity) -> Option<
    HierarchyEvent,
> {
    if !parent.contains_key(c) {
        Some(HierarchyEvent::ChildAdded { child: c, parent: p })
    } else if parent[c] != p {
        Some(HierarchyEvent::ChildMoved { child: c, previous_parent: parent[c], new_parent: p })
    } else {
        None
    }
}

/// The notifications for giving each of `cs` the parent `p`, in order.
pub open spec fn reparent_events(parent: Map<Entity, Entity>, p: Entity, cs: Seq<Entity>) -> Seq<
    HierarchyEvent,
>
    decreases cs.len(),
{
    if cs.len() == 0 {
        Seq::empty()
    } else {
        let rest = reparent_events(parent, p, cs.drop_last());
        match reparent_event(parent, p, cs.last()) {
            Some(ev) => rest.push(ev),
            None => rest,
        }
    }
}

/// One `ChildRemoved` for each of `cs`, in order, that occurs in `list`.
pub open spec fn removal_events(list: Seq<Entity>, p: Entity, cs: Seq<Entity>) -> Seq<
    HierarchyEvent,
>
    decreases cs.len(),
{
    if cs.len() == 0 {
        Seq::empty()
    } else {
        let rest = removal_events(list, p, cs.drop_last());
        if list.contains(cs.last()) {
            rest.push(HierarchyEvent::ChildRemoved { child: cs.last(), parent: p })
        } else {
            rest
        }
    }
}

/// A sink after `new` is delivered to it; no sink stays no sink.
pub open spec fn delivered(events: Option<Seq<HierarchyEvent>>, new: Seq<HierarchyEvent>) -> Option<
    Seq<HierarchyEvent>,
> {
    match events {
        Some(s) => Some(s + new),
        None => None,
    }
}

impl HierarchyModel {
    /// The children of `p`, empty where `p` has no children list.
    pub open spec fn children_of(self, p: Entity) -> Seq<Entity> {
        if self.children.contains_key(p) {
            self.children[p]
        } else {
            Seq::empty()
        }
    }

    /// The parent of `c`, if it has one.
    pub open spec fn parent_of(self, c: Entity) -> Option<Entity> {
        if self.parent.contains_key(c) {
            Some(self.parent[c])
        } else {
            None
        }
    }

    /// Whether `e` was issued by this hierarchy.
    pub open spec fn issued(self, e: Entity) -> bool {
        e < self.next
    }

    /// Whether every item of `cs` was issued by this hierarchy.
    pub open spec fn all_issued(self, cs: Seq<Entity>) -> bool {
        forall|i: int| 0 <= i < cs.len() ==> self.issued(#[trigger] cs[i])
    }

    /// Child lists and parent links agree: `c` is listed under `p` exactly
    /// when `p` is the parent of `c`.
    pub open spec fn links_agree(self) -> bool {
        forall|p: Entity, c: Entity|
            #[trigger] self.children_of(p).contains(c) <==> #[trigger] self.parent_of(c) == Some(p)
    }

    /// A well-formed hierarchy: links agree, lists are non-empty and free of
    /// duplicates, and only issued handles carry fields.
    pub open spec fn wf(self) -> bool {
        &&& self.links_agree()
        &&& forall|p: Entity| #[trigger]
            self.children.contains_key(p) ==> self.children[p].len() > 0
                && self.children[p].no_duplicates()
        &&& forall|c: Entity| #[trigger]
            self.parent.contains_key(c) ==> self.issued(c) && self.issued(self.parent[c])
    }

    /// After the parent link of each of `cs` is set to `p` and each is taken
    /// out of the list of any other parent.
    pub open spec fn relinked(self, p: Entity, cs: Seq<Entity>) -> HierarchyModel {
        HierarchyModel {
            next: self.next,
            parent: Map::new(
                |c: Entity| self.parent.contains_key(c) || cs.contains(c),
                |c: Entity|
                    if cs.contains(c) {
                        p
                    } else {
                        self.parent[c]
                    },
            ),
            children: detached(self.children, cs, p),
            events: self.events,
        }
    }

    /// `relinked`, with the notifications for it delivered.
    pub open spec fn reparented(self, p: Entity, cs: Seq<Entity>) -> HierarchyModel {
        HierarchyModel {
            events: delivered(self.events, reparent_events(self.parent, p, cs)),
            ..self.relinked(p, cs)
        }
    }

    /// `cs` appended to the children of `p`, each one first taken from where
    /// it was listed before.
    pub open spec fn add_children(self, p: Entity, cs: Seq<Entity>) -> HierarchyModel {
        if cs.len() == 0 {
            self
        } else {
            let r = self.reparented(p, cs);
            HierarchyModel {
                children: r.children.insert(p, without(self.children_of(p), cs) + cs),
                ..r
            }
        }
    }

    /// Whether `cs` can be spliced in at `index` of the children of `p`.
    pub open spec fn insert_index_ok(self, p: Entity, index: int, cs: Seq<Entity>) -> bool {
        !self.children.contains_key(p) || index <= without(self.children[p], cs).len()
    }

    /// `cs` spliced in at `index` of the children of `p`, each one first
    /// taken from where it was listed before.
    pub open spec fn insert_children(self, p: Entity, index: int, cs: Seq<Entity>) -> HierarchyModel {
        let r = self.reparented(p, cs);
        let rest = without(self.children_of(p), cs);
        let list = if self.children.contains_key(p) {
            rest.take(index) + cs + rest.skip(index)
        } else {
            cs
        };
        HierarchyModel { children: with_list(r.children, p, list), ..r }
    }

    /// The items of `cs` that are children of `p` lose their parent link and
    /// leave the list of `p`, one `ChildRemoved` each.
    pub open spec fn remove_children(self, p: Entity, cs: Seq<Entity>) -> HierarchyModel {
        if !self.children.contains_key(p) {
            self
        } else {
            let list = self.children[p];
            HierarchyModel {
                next: self.next,
                parent: self.parent.remove_keys(Set::new(|c: Entity| cs.contains(c) && list.contains(c))),
                children: with_list(self.children, p, without(list, cs)),
                events: delivered(self.events, removal_events(list, p, cs)),
            }
        }
    }

    /// Every child of `p` loses its parent link and `p` its children list,
    /// with no notification.
    pub open spec fn clear_children(self, p: Entity) -> HierarchyModel {
        HierarchyModel {
            parent: self.parent.remove_keys(self.children_of(p).to_set()),
            children: self.children.remove(p),
            ..self
        }
    }

    /// The children of `p` cleared, then `cs` added.
    pub open spec fn replace_children(self, p: Entity, cs: Seq<Entity>) -> HierarchyModel {
        self.clear_children(p).add_children(p, cs)
    }

    /// `c` loses its parent link and leaves that parent's list, with one
    /// `ChildRemoved`; nothing happens where `c` has no parent.
    pub open spec fn remove_parent(self, c: Entity) -> HierarchyModel {
        if !self.parent.contains_key(c) {
            self
        } else {
            let q = self.parent[c];
            HierarchyModel {
                next: self.next,
                parent: self.parent.remove(c),
                children: with_list(self.children, q, without(self.children_of(q), seq![c])),
                events: delivered(
                    self.events,
                    seq![HierarchyEvent::ChildRemoved { child: c, parent: q }],
                ),
            }
        }
    }

    /// The items of `cs` that name issued handles, each at its first
    /// occurrence, in order: what an operation acts on, the others being
    /// skipped.
    pub open spec fn usable(self, cs: Seq<Entity>) -> Seq<Entity>
        decreases cs.len(),
    {
        if cs.len() == 0 {
            Seq::empty()
        } else {
            let r = self.usable(cs.drop_last());
            if self.issued(cs.last()) && !r.contains(cs.last()) {
                r.push(cs.last())
            } else {
                r
            }
        }
    }

    /// `add_children` on the usable items of `cs`; nothing happens where `p`
    /// was never issued.
    pub open spec fn add_children_checked(self, p: Entity, cs: Seq<Entity>) -> HierarchyModel {
        if self.issued(p) {
            self.add_children(p, self.usable(cs))
        } else {
            self
        }
    }

    /// Whether the usable items of `cs` can be spliced in at `index`.
    pub open spec fn insert_index_fits(self, p: Entity, index: int, cs: Seq<Entity>) -> bool {
        self.insert_index_ok(p, index, self.usable(cs))
    }

    /// `insert_children` on the usable items of `cs`; nothing happens where
    /// `p` was never issued.
    pub open spec fn insert_children_checked(self, p: Entity, index: int, cs: Seq<Entity>) -> HierarchyModel {
        if self.issued(p) {
            self.insert_children(p, index, self.usable(cs))
        } else {
            self
        }
    }

    /// `replace_children` on the usable items of `cs`; nothing happens where
    /// `p` was never issued.
    pub open spec fn replace_children_checked(self, p: Entity, cs: Seq<Entity>) -> HierarchyModel {
        if self.issued(p) {
            self.replace_children(p, self.usable(cs))
        } else {
            self
        }
    }
}

} // verus!
