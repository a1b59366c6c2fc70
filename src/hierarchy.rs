//! The hierarchy store and its link primitives.
use crate::child_list::{
    list_as_slice, list_from_slice, list_insert_from_slice, list_items, list_len, list_push,
    list_retain_absent, slice_contains, ChildList, Entity, MAX_CHILDREN,
};
use crate::event::HierarchyEvent;
use crate::lemmas::{
    lemma_push_contains, lemma_relink_empty, lemma_relink_step, lemma_relink_wf, lemma_splice, lemma_wf_same_links,
    lemma_add_children_wf, lemma_added_fresh_wf, lemma_usable, lemma_clear_children_wf, lemma_delivered_empty, lemma_remove_children_wf,
    lemma_remove_parent_wf, lemma_insert_children_wf, lemma_without_contains, lemma_without_empty, lemma_without_len, lemma_without_no_duplicates,
};
use crate::model::{
    delivered, removal_events, reparent_events, with_list, without, HierarchyModel,
};
use std::collections::HashMap;
use vstd::prelude::*;
use vstd::std_specs::hash::group_hash_axioms;

verus! {

broadcast use group_hash_axioms;

/// Entities with their parent links and children lists, and an optional sink
/// that receives a notification for each structural change.
pub struct Hierarchy {
    next: u64,
    parents: HashMap<u64, u64>,
    children: HashMap<u64, ChildList>,
    events: Option<Vec<HierarchyEvent>>,
}

impl View for Hierarchy {
    type V = HierarchyModel;

    closed spec fn view(&self) -> HierarchyModel {
        HierarchyModel {
            next: self.next,
            parent: self.parents@,
            children: Map::new(
                |p: Entity| self.children@.contains_key(p),
                |p: Entity| list_items(self.children@[p]),
            ),
            events: match self.events {
                Some(v) => Some(v@),
                None => None,
            },
        }
    }
}

impl Hierarchy {
    /// An empty hierarchy without an event sink: notifications are dropped.
    pub fn new() -> (r: Hierarchy)
        ensures
            r@.wf(),
            r@.next == 0,
            r@.parent == Map::<Entity, Entity>::empty(),
            r@.children == Map::<Entity, Seq<Entity>>::empty(),
            r@.events.is_none(),
    {
        let r = Hierarchy { next: 0, parents: HashMap::new(), children: HashMap::new(), events: None };
        assert(r@.parent =~= Map::<Entity, Entity>::empty());
        assert(r@.children =~= Map::<Entity, Seq<Entity>>::empty());
        r
    }

    /// An empty hierarchy whose event sink starts empty.
    pub fn with_events() -> (r: Hierarchy)
        ensures
            r@.wf(),
            r@.next == 0,
            r@.parent == Map::<Entity, Entity>::empty(),
            r@.children == Map::<Entity, Seq<Entity>>::empty(),
            r@.events == Some(Seq::<HierarchyEvent>::empty()),
    {
        let r = Hierarchy {
            next: 0,
            parents: HashMap::new(),
            children: HashMap::new(),
            events: Some(Vec::new()),
        };
        assert(r@.parent =~= Map::<Entity, Entity>::empty());
        assert(r@.children =~= Map::<Entity, Seq<Entity>>::empty());
        r
    }

    /// Issues a new handle, with no parent and no children.
    pub fn spawn_empty(&mut self) -> (e: Entity)
        requires
            old(self)@.wf(),
            old(self)@.next < u64::MAX,
        ensures
            e == old(self)@.next,
            final(self)@ == (HierarchyModel { next: (e + 1) as u64, ..old(self)@ }),
            final(self)@.wf(),
    {
        let e = self.next;
        self.next = self.next + 1;
        assert(self@.parent == old(self)@.parent);
        assert(self@.children =~= old(self)@.children);
        proof {
            lemma_wf_same_links(old(self)@, self@);
        }
        e
    }

    /// The parent of `c`, if it has one.
    pub fn parent(&self, c: Entity) -> (r: Option<Entity>)
        ensures
            r == self@.parent_of(c),
    {
        match self.parents.get(&c) {
            Some(p) => Some(*p),
            None => None,
        }
    }

    /// A copy of the children list of `p`; `None` where `p` has no children.
    pub fn children(&self, p: Entity) -> (r: Option<Vec<Entity>>)
        ensures
            match r {
                Some(v) => self@.children.contains_key(p) && v@ == self@.children[p],
                None => !self@.children.contains_key(p),
            },
    {
        match self.children.get(&p) {
            None => None,
            Some(l) => {
                let s = list_as_slice(l);
                let mut v: Vec<Entity> = Vec::new();
                let mut i: usize = 0;
                while i < s.len()
                    invariant
                        0 <= i <= s@.len(),
                        v@ == s@.take(i as int),
                    decreases s@.len() - i,
                {
                    v.push(s[i]);
                    i = i + 1;
                    assert(v@ =~= s@.take(i as int));
                }
                assert(v@ =~= s@);
                Some(v)
            },
        }
    }

    /// Whether an event sink is present.
    pub fn has_event_sink(&self) -> (r: bool)
        ensures
            r == self@.events.is_some(),
    {
        self.events.is_some()
    }

    /// Hands out the notifications delivered so far and leaves the sink empty;
    /// without a sink there are none.
    pub fn drain_events(&mut self) -> (r: Vec<HierarchyEvent>)
        requires
            old(self)@.wf(),
        ensures
            r@ == match old(self)@.events {
                Some(s) => s,
                None => Seq::<HierarchyEvent>::empty(),
            },
            final(self)@ == (HierarchyModel {
                events: match old(self)@.events {
                    Some(_) => Some(Seq::<HierarchyEvent>::empty()),
                    None => None,
                },
                ..old(self)@
            }),
            final(self)@.wf(),
    {
        let r = match self.events.take() {
            Some(v) => {
                self.events = Some(Vec::new());
                v
            },
            None => Vec::new(),
        };
        assert(self@.children =~= old(self)@.children);
        proof {
            lemma_wf_same_links(old(self)@, self@);
        }
        r
    }

    /// Delivers `evs` to the sink, if there is one.
    pub(crate) fn push_events(&mut self, evs: Vec<HierarchyEvent>)
        ensures
            final(self)@ == (HierarchyModel { events: delivered(old(self)@.events, evs@), ..old(self)@ }),
    {
        match self.events.take() {
            Some(mut sink) => {
                let ghost start = sink@;
                let mut i: usize = 0;
                while i < evs.len()
                    invariant
                        0 <= i <= evs@.len(),
                        sink@ == start + evs@.take(i as int),
                    decreases evs@.len() - i,
                {
                    sink.push(evs[i]);
                    i = i + 1;
                    assert(sink@ =~= start + evs@.take(i as int));
                }
                assert(evs@.take(evs@.len() as int) =~= evs@);
                self.events = Some(sink);
            },
            None => {},
        }
        assert(self@.children =~= old(self)@.children);
    }

    /// Appends `c` to the children of `p`, creating the list where there is
    /// none. No check that `c` is not listed already.
    pub(crate) fn add_child_unchecked(&mut self, p: Entity, c: Entity)
        requires
            old(self)@.children_of(p).len() < MAX_CHILDREN,
        ensures
            final(self)@ == (HierarchyModel {
                children: old(self)@.children.insert(p, old(self)@.children_of(p).push(c)),
                ..old(self)@
            }),
    {
        let one = vec![c];
        match self.children.remove(&p) {
            Some(mut l) => {
                list_push(&mut l, c);
                self.children.insert(p, l);
            },
            None => {
                let l = list_from_slice(one.as_slice());
                self.children.insert(p, l);
                assert(one@ =~= Seq::<Entity>::empty().push(c));
            },
        }
        assert(self@.children =~= old(self)@.children.insert(p, old(self)@.children_of(p).push(c)));
    }

    /// Sets the parent link of `c` to `p`; the link it had before, if any.
    pub(crate) fn update_parent(&mut self, c: Entity, p: Entity) -> (r: Option<Entity>)
        ensures
            r == old(self)@.parent_of(c),
            final(self)@ == (HierarchyModel { parent: old(self)@.parent.insert(c, p), ..old(self)@ }),
    {
        let r = self.parents.insert(c, p);
        assert(self@.children =~= old(self)@.children);
        r
    }

    /// Takes `c` out of the children list of `p`, dropping the list if it
    /// ends up empty. Nothing happens where `p` has no list.
    pub(crate) fn remove_from_children(&mut self, p: Entity, c: Entity)
        ensures
            final(self)@ == (HierarchyModel {
                children: with_list(
                    old(self)@.children,
                    p,
                    without(old(self)@.children_of(p), seq![c]),
                ),
                ..old(self)@
            }),
    {
        let one = vec![c];
        assert(one@ =~= seq![c]);
        match self.children.remove(&p) {
            Some(mut l) => {
                list_retain_absent(&mut l, one.as_slice());
                if list_len(&l) > 0 {
                    self.children.insert(p, l);
                }
            },
            None => {
                proof {
                    crate::lemmas::lemma_without_empty(seq![c]);
                }
            },
        }
        assert(self@.children =~= with_list(
            old(self)@.children,
            p,
            without(old(self)@.children_of(p), seq![c]),
        ));
    }

    /// Gives `c` the parent `p` and takes it out of the list of its previous
    /// parent, with one notification; nothing where `p` already is its
    /// parent. The list of `p` is left as it is.
    pub(crate) fn update_old_parent(&mut self, c: Entity, p: Entity)
        requires
            old(self)@.wf(),
            c != p,
        ensures
            final(self)@ == old(self)@.reparented(p, seq![c]),
    {
        let ghost m = self@;
        proof {
            lemma_relink_empty(m, p);
            lemma_relink_step(m, p, Seq::empty(), c);
            assert(Seq::<Entity>::empty().push(c) =~= seq![c]);
            assert(seq![c].drop_last() =~= Seq::<Entity>::empty());
            assert(seq![c].last() == c);
            assert(reparent_events(m.parent, p, Seq::empty()) == Seq::<HierarchyEvent>::empty());
            lemma_delivered_empty(m.events);
        }
        let previous = self.update_parent(c, p);
        match previous {
            Some(q) => {
                if q == p {
                    assert(self@ =~= m.reparented(p, seq![c]));
                    return ;
                }
                self.remove_from_children(q, c);
                let ev = HierarchyEvent::ChildMoved { child: c, previous_parent: q, new_parent: p };
                let evs = vec![ev];
                assert(evs@ =~= Seq::<HierarchyEvent>::empty().push(ev));
                self.push_events(evs);
            },
            None => {
                let ev = HierarchyEvent::ChildAdded { child: c, parent: p };
                let evs = vec![ev];
                assert(evs@ =~= Seq::<HierarchyEvent>::empty().push(ev));
                self.push_events(evs);
            },
        }
    }

    /// Gives each of `cs`, in order, the parent `p` and takes it out of the
    /// list of its previous parent; the notifications go out as one batch.
    /// The list of `p` is left as it is.
    pub(crate) fn update_old_parents(&mut self, p: Entity, cs: &[Entity])
        requires
            old(self)@.wf(),
            cs@.no_duplicates(),
            !cs@.contains(p),
        ensures
            final(self)@ == old(self)@.reparented(p, cs@),
    {
        let ghost m = self@;
        let mut evs: Vec<HierarchyEvent> = Vec::new();
        let mut i: usize = 0;
        proof {
            lemma_relink_empty(m, p);
            assert(cs@.take(0) =~= Seq::<Entity>::empty());
        }
        while i < cs.len()
            invariant
                0 <= i <= cs@.len(),
                m.wf(),
                cs@.no_duplicates(),
                !cs@.contains(p),
                self@ == m.relinked(p, cs@.take(i as int)),
                evs@ == reparent_events(m.parent, p, cs@.take(i as int)),
            decreases cs@.len() - i,
        {
            let c = cs[i];
            let ghost a = cs@.take(i as int);
            proof {
                assert(cs@.take(i + 1) =~= a.push(c));
                assert(a.push(c).drop_last() =~= a);
                assert(!a.contains(c)) by {
                    if a.contains(c) {
                        let j = choose|j: int| 0 <= j < a.len() && a[j] == c;
                        assert(cs@[j] == cs@[i as int]);
                    }
                }
                assert(!a.contains(p)) by {
                    if a.contains(p) {
                        let j = choose|j: int| 0 <= j < a.len() && a[j] == p;
                        assert(cs@[j] == p);
                    }
                }
                assert(c != p) by {
                    assert(cs@[i as int] == c);
                }
                lemma_relink_step(m, p, a, c);
            }
            match self.update_parent(c, p) {
                Some(q) => {
                    if q != p {
                        self.remove_from_children(q, c);
                        evs.push(
                            HierarchyEvent::ChildMoved { child: c, previous_parent: q, new_parent: p },
                        );
                    }
                },
                None => {
                    evs.push(HierarchyEvent::ChildAdded { child: c, parent: p });
                },
            }
            i = i + 1;
        }
        assert(cs@.take(cs@.len() as int) =~= cs@);
        self.push_events(evs);
    }

    /// Makes `c` the last child of `p`: `c` leaves the list of any other
    /// parent, and moves to the end where it is a child of `p` already.
    /// `c` must not be `p`.
    fn add_issued_child(&mut self, p: Entity, c: Entity)
        requires
            old(self)@.wf(),
            old(self)@.issued(p),
            old(self)@.issued(c),
            c != p,
            old(self)@.children_of(p).len() < MAX_CHILDREN,
        ensures
            final(self)@.wf(),
            final(self)@ == old(self)@.add_children(p, seq![c]),
    {
        let ghost m = self@;
        self.update_old_parent(c, p);
        let one = vec![c];
        assert(one@ =~= seq![c]);
        assert(self@.children.contains_key(p) == m.children.contains_key(p));
        assert(self@.children_of(p) == m.children_of(p));
        match self.children.remove(&p) {
            Some(mut l) => {
                assert(list_items(l) == m.children_of(p));
                list_retain_absent(&mut l, one.as_slice());
                proof {
                    lemma_without_len(m.children_of(p), seq![c]);
                }
                list_push(&mut l, c);
                self.children.insert(p, l);
            },
            None => {
                self.children.insert(p, list_from_slice(one.as_slice()));
                proof {
                    lemma_without_empty(seq![c]);
                }
            },
        }
        proof {
            let list = without(m.children_of(p), seq![c]) + seq![c];
            assert(without(m.children_of(p), seq![c]).push(c) =~= list);
            assert(self@.children =~= m.reparented(p, seq![c]).children.insert(p, list));
            lemma_add_children_wf(m, p, seq![c]);
        }
    }

    /// Appends `cs`, in order, to the children of `p`: each leaves the list of
    /// any other parent, and moves to the end where it is a child of `p`
    /// already. Nothing happens for an empty `cs`.
    fn add_usable_children(&mut self, p: Entity, cs: &[Entity])
        requires
            old(self)@.wf(),
            old(self)@.issued(p),
            old(self)@.all_issued(cs@),
            cs@.no_duplicates(),
            !cs@.contains(p),
            old(self)@.children_of(p).len() + cs@.len() <= MAX_CHILDREN,
        ensures
            final(self)@.wf(),
            final(self)@ == old(self)@.add_children(p, cs@),
    {
        if cs.len() == 0 {
            return ;
        }
        let ghost m = self@;
        self.update_old_parents(p, cs);
        assert(self@.children.contains_key(p) == m.children.contains_key(p));
        assert(self@.children_of(p) == m.children_of(p));
        match self.children.remove(&p) {
            Some(mut l) => {
                assert(list_items(l) == m.children_of(p));
                list_retain_absent(&mut l, cs);
                proof {
                    lemma_without_len(m.children_of(p), cs@);
                }
                let n = list_len(&l);
                list_insert_from_slice(&mut l, n, cs);
                let ghost w = without(m.children_of(p), cs@);
                assert(w.take(n as int) + cs@ + w.skip(n as int) =~= w + cs@);
                self.children.insert(p, l);
            },
            None => {
                self.children.insert(p, list_from_slice(cs));
                proof {
                    lemma_without_empty(cs@);
                }
                assert(Seq::<Entity>::empty() + cs@ =~= cs@);
            },
        }
        proof {
            let list = without(m.children_of(p), cs@) + cs@;
            assert(self@.children =~= m.reparented(p, cs@).children.insert(p, list));
            lemma_add_children_wf(m, p, cs@);
        }
    }

    /// Splices `cs`, in order, into the children of `p` at `index` of the list
    /// that remains once `cs` is taken out of it; each of `cs` leaves the list
    /// of any other parent. Where `p` has no children list, `cs` becomes it.
    /// `index` must lie within that remaining list.
    fn insert_usable_children(&mut self, p: Entity, index: usize, cs: &[Entity])
        requires
            old(self)@.wf(),
            old(self)@.issued(p),
            old(self)@.all_issued(cs@),
            cs@.no_duplicates(),
            !cs@.contains(p),
            old(self)@.insert_index_ok(p, index as int, cs@),
            old(self)@.children_of(p).len() + cs@.len() <= MAX_CHILDREN,
        ensures
            final(self)@.wf(),
            final(self)@ == old(self)@.insert_children(p, index as int, cs@),
    {
        let ghost m = self@;
        self.update_old_parents(p, cs);
        assert(self@.children.contains_key(p) == m.children.contains_key(p));
        assert(self@.children_of(p) == m.children_of(p));
        let ghost rest = without(m.children_of(p), cs@);
        match self.children.remove(&p) {
            Some(mut l) => {
                assert(list_items(l) == m.children_of(p));
                list_retain_absent(&mut l, cs);
                proof {
                    lemma_without_len(m.children_of(p), cs@);
                }
                list_insert_from_slice(&mut l, index, cs);
                if list_len(&l) > 0 {
                    self.children.insert(p, l);
                }
            },
            None => {
                if cs.len() > 0 {
                    self.children.insert(p, list_from_slice(cs));
                }
            },
        }
        proof {
            let list = if m.children.contains_key(p) {
                rest.take(index as int) + cs@ + rest.skip(index as int)
            } else {
                cs@
            };
            assert(self@.children =~= with_list(m.reparented(p, cs@).children, p, list));
            lemma_insert_children_wf(m, p, index as int, cs@);
        }
    }

    /// Takes those of `cs` that are children of `p` out of its list, which
    /// goes where it ends up empty; each of them loses its parent link, with
    /// one `ChildRemoved` in the order of `cs`. The others are passed over.
    pub fn remove_children(&mut self, p: Entity, cs: &[Entity])
        requires
            old(self)@.wf(),
        ensures
            final(self)@.wf(),
            final(self)@ == old(self)@.remove_children(p, cs@),
    {
        let ghost m = self@;
        let mut evs: Vec<HierarchyEvent> = Vec::new();
        match self.children.get(&p) {
            None => {
                assert(self@.children =~= m.children);
                return ;
            },
            Some(l) => {
                let s = list_as_slice(l);
                let ghost list = s@;
                let mut i: usize = 0;
                proof {
                    assert(cs@.take(0) =~= Seq::<Entity>::empty());
                    assert(m.parent.remove_keys(
                        Set::new(|c: Entity| Seq::<Entity>::empty().contains(c) && list.contains(c)),
                    ) =~= m.parent);
                }
                while i < cs.len()
                    invariant
                        0 <= i <= cs@.len(),
                        list == m.children[p],
                        s@ == list,
                        self.children@ == old(self).children@,
                        self.events == old(self).events,
                        self.next == old(self).next,
                        evs@ == removal_events(list, p, cs@.take(i as int)),
                        self.parents@ == m.parent.remove_keys(
                            Set::new(|c: Entity| cs@.take(i as int).contains(c) && list.contains(c)),
                        ),
                    decreases cs@.len() - i,
                {
                    let c = cs[i];
                    let ghost a = cs@.take(i as int);
                    proof {
                        assert(cs@.take(i + 1) =~= a.push(c));
                        assert(a.push(c).drop_last() =~= a);
                    }
                    if slice_contains(s, c) {
                        evs.push(HierarchyEvent::ChildRemoved { child: c, parent: p });
                        self.parents.remove(&c);
                    }
                    i = i + 1;
                    proof {
                        assert forall|k: Entity| a.push(c).contains(k) <==> (a.contains(k) || k == c) by {
                            lemma_push_contains(a, c, k);
                        }
                        assert(self.parents@ =~= m.parent.remove_keys(
                            Set::new(|k: Entity| cs@.take(i as int).contains(k) && list.contains(k)),
                        ));
                    }
                }
                assert(cs@.take(cs@.len() as int) =~= cs@);
                assert(self.parents@ =~= m.parent.remove_keys(
                    Set::new(|c: Entity| cs@.contains(c) && list.contains(c)),
                ));
            },
        }
        assert(self@.children =~= m.children);
        self.push_events(evs);
        match self.children.remove(&p) {
            Some(mut l) => {
                list_retain_absent(&mut l, cs);
                if list_len(&l) > 0 {
                    self.children.insert(p, l);
                }
            },
            None => {},
        }
        proof {
            assert(self@.children =~= m.remove_children(p, cs@).children);
            lemma_remove_children_wf(m, p, cs@);
        }
    }

    /// Every child of `p` loses its parent link and `p` its children list.
    /// No notification is sent.
    pub fn clear_children(&mut self, p: Entity)
        requires
            old(self)@.wf(),
        ensures
            final(self)@.wf(),
            final(self)@ == old(self)@.clear_children(p),
    {
        let ghost m = self@;
        match self.children.remove(&p) {
            Some(l) => {
                let s = list_as_slice(&l);
                let mut i: usize = 0;
                assert(m.parent.remove_keys(s@.take(0).to_set()) =~= m.parent);
                while i < s.len()
                    invariant
                        0 <= i <= s@.len(),
                        s@ == m.children_of(p),
                        self.children@ == old(self).children@.remove(p),
                        self.events == old(self).events,
                        self.next == old(self).next,
                        self.parents@ == m.parent.remove_keys(s@.take(i as int).to_set()),
                    decreases s@.len() - i,
                {
                    let c = s[i];
                    self.parents.remove(&c);
                    proof {
                        let a = s@.take(i as int);
                        assert(s@.take(i + 1) =~= a.push(c));
                        assert forall|k: Entity| a.push(c).contains(k) <==> (a.contains(k) || k == c) by {
                            lemma_push_contains(a, c, k);
                        }
                    }
                    i = i + 1;
                    assert(self.parents@ =~= m.parent.remove_keys(s@.take(i as int).to_set()));
                }
                assert(s@.take(s@.len() as int) =~= s@);
            },
            None => {
                assert(m.children_of(p).to_set() =~= Set::<Entity>::empty());
                assert(m.parent.remove_keys(Set::<Entity>::empty()) =~= m.parent);
            },
        }
        proof {
            assert(self@.children =~= m.children.remove(p));
            lemma_clear_children_wf(m, p);
        }
    }

    /// Clears the children of `p`, then adds `cs` as with `add_children`.
    fn replace_usable_children(&mut self, p: Entity, cs: &[Entity])
        requires
            old(self)@.wf(),
            old(self)@.issued(p),
            old(self)@.all_issued(cs@),
            cs@.no_duplicates(),
            !cs@.contains(p),
            cs@.len() <= MAX_CHILDREN,
        ensures
            final(self)@.wf(),
            final(self)@ == old(self)@.replace_children(p, cs@),
    {
        self.clear_children(p);
        assert(self@.children_of(p) =~= Seq::<Entity>::empty());
        self.add_usable_children(p, cs)
    }

    /// Takes `c` from its parent: `c` loses its parent link and leaves that
    /// parent's list, with one `ChildRemoved`. Nothing happens where `c` has
    /// no parent.
    pub fn remove_parent(&mut self, c: Entity)
        requires
            old(self)@.wf(),
        ensures
            final(self)@.wf(),
            final(self)@ == old(self)@.remove_parent(c),
    {
        let ghost m = self@;
        match self.parents.remove(&c) {
            Some(q) => {
                assert(self@.children =~= m.children);
                self.remove_from_children(q, c);
                let ev = HierarchyEvent::ChildRemoved { child: c, parent: q };
                let evs = vec![ev];
                assert(evs@ =~= seq![ev]);
                self.push_events(evs);
            },
            None => {
                assert(self.parents@ =~= m.parent);
                assert(self@.children =~= m.children);
            },
        }
        proof {
            lemma_remove_parent_wf(m, c);
        }
    }

    /// Whether `e` was issued by this hierarchy.
    pub fn contains_entity(&self, e: Entity) -> (r: bool)
        ensures
            r == self@.issued(e),
    {
        e < self.next
    }

    /// Whether every item of `cs` was issued by this hierarchy.
    pub fn contains_all(&self, cs: &[Entity]) -> (r: bool)
        ensures
            r == self@.all_issued(cs@),
    {
        let mut i: usize = 0;
        while i < cs.len()
            invariant
                0 <= i <= cs@.len(),
                forall|j: int| 0 <= j < i ==> self@.issued(#[trigger] cs@[j]),
            decreases cs@.len() - i,
        {
            if cs[i] >= self.next {
                return false;
            }
            i = i + 1;
        }
        true
    }

    /// How many children `p` has.
    pub fn child_count(&self, p: Entity) -> (r: usize)
        ensures
            r == self@.children_of(p).len(),
    {
        match self.children.get(&p) {
            Some(l) => list_len(l),
            None => 0,
        }
    }

    /// Issues a new entity as the last child of `p`, with `p` as its parent.
    /// No notification is sent.
    fn with_issued_child(&mut self, p: Entity) -> (e: Entity)
        requires
            old(self)@.wf(),
            old(self)@.issued(p),
            old(self)@.next < u64::MAX,
            old(self)@.children_of(p).len() < MAX_CHILDREN,
        ensures
            e == old(self)@.next,
            final(self)@ == (HierarchyModel {
                next: (e + 1) as u64,
                parent: old(self)@.parent.insert(e, p),
                children: old(self)@.children.insert(p, old(self)@.children_of(p).push(e)),
                ..old(self)@
            }),
            final(self)@.wf(),
    {
        let ghost m = self@;
        let e = self.spawn_empty();
        self.parents.insert(e, p);
        self.add_child_unchecked(p, e);
        proof {
            assert(self@.parent == m.parent.insert(e, p));
            assert(self@.children == m.children.insert(p, m.children_of(p).push(e)));
            lemma_added_fresh_wf(m, p, e);
        }
        e
    }

    /// Issues a new entity as the last child of `p`, with `p` as its parent,
    /// and sends one `ChildAdded`.
    fn spawn_issued_child(&mut self, p: Entity) -> (e: Entity)
        requires
            old(self)@.wf(),
            old(self)@.issued(p),
            old(self)@.next < u64::MAX,
            old(self)@.children_of(p).len() < MAX_CHILDREN,
        ensures
            e == old(self)@.next,
            final(self)@ == (HierarchyModel {
                next: (e + 1) as u64,
                parent: old(self)@.parent.insert(e, p),
                children: old(self)@.children.insert(p, old(self)@.children_of(p).push(e)),
                events: delivered(
                    old(self)@.events,
                    seq![HierarchyEvent::ChildAdded { child: e, parent: p }],
                ),
                ..old(self)@
            }),
            final(self)@.wf(),
    {
        let ghost m = self@;
        let e = self.with_issued_child(p);
        let ghost w = self@;
        let ev = HierarchyEvent::ChildAdded { child: e, parent: p };
        let evs = vec![ev];
        assert(evs@ =~= seq![ev]);
        self.push_events(evs);
        proof {
            lemma_wf_same_links(w, self@);
        }
        e
    }

    /// The usable items of `cs`: those this hierarchy issued, each once, in
    /// order of first occurrence.
    fn usable_children(&self, cs: &[Entity]) -> (r: Vec<Entity>)
        ensures
            r@ == self@.usable(cs@),
    {
        let mut v: Vec<Entity> = Vec::new();
        let mut i: usize = 0;
        assert(cs@.take(0) =~= Seq::<Entity>::empty());
        while i < cs.len()
            invariant
                0 <= i <= cs@.len(),
                v@ == self@.usable(cs@.take(i as int)),
            decreases cs@.len() - i,
        {
            let c = cs[i];
            assert(cs@.take(i + 1).drop_last() =~= cs@.take(i as int));
            assert(cs@.take(i + 1).last() == c);
            if c < self.next && !slice_contains(v.as_slice(), c) {
                v.push(c);
            }
            i = i + 1;
        }
        assert(cs@.take(cs@.len() as int) =~= cs@);
        v
    }

    /// Makes `c` the last child of `p`: `c` leaves the list of any other
    /// parent, and moves to the end where it is a child of `p` already.
    /// Nothing happens where either handle was never issued. `c` must not be
    /// `p`.
    pub fn add_child(&mut self, p: Entity, c: Entity)
        requires
            old(self)@.wf(),
            c != p,
            old(self)@.children_of(p).len() < MAX_CHILDREN,
        ensures
            final(self)@.wf(),
            final(self)@ == old(self)@.add_children_checked(p, seq![c]),
    {
        let ghost m = self@;
        proof {
            assert(seq![c].drop_last() =~= Seq::<Entity>::empty());
            assert(seq![c].last() == c);
            assert(m.usable(Seq::<Entity>::empty()) == Seq::<Entity>::empty());
            if m.issued(c) {
                assert(m.usable(seq![c]) =~= seq![c]);
            } else {
                assert(m.usable(seq![c]) =~= Seq::<Entity>::empty());
            }
        }
        if !self.contains_entity(p) || !self.contains_entity(c) {
            return ;
        }
        self.add_issued_child(p, c);
    }

    /// Makes `p` the parent of `c`, exactly as `add_child(p, c)`.
    pub fn set_parent(&mut self, c: Entity, p: Entity)
        requires
            old(self)@.wf(),
            c != p,
            old(self)@.children_of(p).len() < MAX_CHILDREN,
        ensures
            final(self)@.wf(),
            final(self)@ == old(self)@.add_children_checked(p, seq![c]),
    {
        self.add_child(p, c)
    }

    /// Appends the usable items of `cs`, in order, to the children of `p`:
    /// each leaves the list of any other parent, and moves to the end where it
    /// is a child of `p` already. Handles never issued, and repeats, are
    /// skipped; nothing happens where `p` was never issued. `cs` must not
    /// hold `p`.
    pub fn add_children(&mut self, p: Entity, cs: &[Entity])
        requires
            old(self)@.wf(),
            !cs@.contains(p),
            old(self)@.children_of(p).len() + cs@.len() <= MAX_CHILDREN,
        ensures
            final(self)@.wf(),
            final(self)@ == old(self)@.add_children_checked(p, cs@),
    {
        if !self.contains_entity(p) {
            return ;
        }
        let v = self.usable_children(cs);
        proof {
            lemma_usable(self@, cs@);
        }
        self.add_usable_children(p, v.as_slice());
    }

    /// Whether `insert_children(p, index, cs)` may be called: `index` lies
    /// within the list that remains once the usable items of `cs` are taken
    /// out of the children of `p`.
    pub fn can_insert_at(&self, p: Entity, index: usize, cs: &[Entity]) -> (r: bool)
        ensures
            r == self@.insert_index_fits(p, index as int, cs@),
    {
        let v = self.usable_children(cs);
        match self.children.get(&p) {
            Some(l) => index <= count_absent(list_as_slice(l), v.as_slice()),
            None => true,
        }
    }

    /// Splices the usable items of `cs`, in order, into the children of `p`
    /// at `index` of the list that remains once they are taken out of it; each
    /// leaves the list of any other parent. Where `p` has no children list,
    /// they become it. Handles never issued, and repeats, are skipped; nothing
    /// happens where `p` was never issued. `cs` must not hold `p`, and
    /// `index` must lie within that remaining list (see `can_insert_at`).
    pub fn insert_children(&mut self, p: Entity, index: usize, cs: &[Entity])
        requires
            old(self)@.wf(),
            !cs@.contains(p),
            old(self)@.insert_index_fits(p, index as int, cs@),
            old(self)@.children_of(p).len() + cs@.len() <= MAX_CHILDREN,
        ensures
            final(self)@.wf(),
            final(self)@ == old(self)@.insert_children_checked(p, index as int, cs@),
    {
        if !self.contains_entity(p) {
            return ;
        }
        let v = self.usable_children(cs);
        proof {
            lemma_usable(self@, cs@);
        }
        self.insert_usable_children(p, index, v.as_slice());
    }

    /// Clears the children of `p`, then adds the usable items of `cs` as
    /// `add_children` does. Nothing happens where `p` was never issued. `cs`
    /// must not hold `p`.
    pub fn replace_children(&mut self, p: Entity, cs: &[Entity])
        requires
            old(self)@.wf(),
            !cs@.contains(p),
            cs@.len() <= MAX_CHILDREN,
        ensures
            final(self)@.wf(),
            final(self)@ == old(self)@.replace_children_checked(p, cs@),
    {
        if !self.contains_entity(p) {
            return ;
        }
        let v = self.usable_children(cs);
        proof {
            lemma_usable(self@, cs@);
        }
        self.replace_usable_children(p, v.as_slice());
    }
}

impl Hierarchy {
    /// Issues a new entity and makes it the last child of `p`, with `p` as
    /// its parent; no notification is sent. Where `p` was never issued, the
    /// new entity stays unlinked.
    pub fn with_child(&mut self, p: Entity) -> (e: Entity)
        requires
            old(self)@.wf(),
            old(self)@.next < u64::MAX,
            old(self)@.children_of(p).len() < MAX_CHILDREN,
        ensures
            e == old(self)@.next,
            final(self)@.wf(),
            old(self)@.issued(p) ==> final(self)@ == (HierarchyModel {
                next: (e + 1) as u64,
                parent: old(self)@.parent.insert(e, p),
                children: old(self)@.children.insert(p, old(self)@.children_of(p).push(e)),
                ..old(self)@
            }),
            !old(self)@.issued(p) ==> final(self)@ == (HierarchyModel {
                next: (e + 1) as u64,
                ..old(self)@
            }),
    {
        if self.contains_entity(p) {
            self.with_issued_child(p)
        } else {
            self.spawn_empty()
        }
    }

    /// Issues a new entity as the last child of `p`, with `p` as its parent,
    /// and sends one `ChildAdded`. Where `p` was never issued, the new entity
    /// stays unlinked and nothing is sent.
    pub fn spawn_child(&mut self, p: Entity) -> (e: Entity)
        requires
            old(self)@.wf(),
            old(self)@.next < u64::MAX,
            old(self)@.children_of(p).len() < MAX_CHILDREN,
        ensures
            e == old(self)@.next,
            final(self)@.wf(),
            old(self)@.issued(p) ==> final(self)@ == (HierarchyModel {
                next: (e + 1) as u64,
                parent: old(self)@.parent.insert(e, p),
                children: old(self)@.children.insert(p, old(self)@.children_of(p).push(e)),
                events: delivered(
                    old(self)@.events,
                    seq![HierarchyEvent::ChildAdded { child: e, parent: p }],
                ),
                ..old(self)@
            }),
            !old(self)@.issued(p) ==> final(self)@ == (HierarchyModel {
                next: (e + 1) as u64,
                ..old(self)@
            }),
    {
        if self.contains_entity(p) {
            self.spawn_issued_child(p)
        } else {
            self.spawn_empty()
        }
    }
}

/// How many items of `s` do not occur in `xs`.
fn count_absent(s: &[Entity], xs: &[Entity]) -> (r: usize)
    ensures
        r == without(s@, xs@).len(),
{
    let mut n: usize = 0;
    let mut i: usize = 0;
    proof {
        reveal(Seq::filter);
        assert(s@.take(0) =~= Seq::<Entity>::empty());
    }
    while i < s.len()
        invariant
            0 <= i <= s@.len(),
            n == without(s@.take(i as int), xs@).len(),
            n <= i,
        decreases s@.len() - i,
    {
        proof {
            reveal(Seq::filter);
            assert(s@.take(i + 1).drop_last() =~= s@.take(i as int));
            assert(s@.take(i + 1).last() == s@[i as int]);
        }
        if !slice_contains(xs, s[i]) {
            n = n + 1;
        }
        i = i + 1;
    }
    assert(s@.take(s@.len() as int) =~= s@);
    n
}

} // verus!
