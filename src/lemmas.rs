//! Facts about lists with items taken out.
use crate::child_list::Entity;
use crate::event::HierarchyEvent;
use crate::model::{delivered, with_list, without, HierarchyModel};
use vstd::prelude::*;

verus! {

pub proof fn lemma_without_contains(l: Seq<Entity>, xs: Seq<Entity>, e: Entity)
    ensures
        without(l, xs).contains(e) <==> (l.contains(e) && !xs.contains(e)),
    decreases l.len(),
{
    reveal(Seq::filter);
    if l.len() > 0 {
        let d = l.drop_last();
        lemma_without_contains(d, xs, e);
        assert(l =~= d.push(l.last()));
        lemma_push_contains(d, l.last(), e);
        lemma_push_contains(without(d, xs), l.last(), e);
    }
}

pub proof fn lemma_push_contains(s: Seq<Entity>, x: Entity, e: Entity)
    ensures
        s.push(x).contains(e) <==> (s.contains(e) || x == e),
{
    if s.contains(e) {
        let i = choose|i: int| 0 <= i < s.len() && s[i] == e;
        assert(s.push(x)[i] == e);
    }
    if x == e {
        assert(s.push(x)[s.len() as int] == e);
    }
    if s.push(x).contains(e) {
        let i = choose|i: int| 0 <= i < s.len() + 1 && s.push(x)[i] == e;
        if i < s.len() {
            assert(s[i] == e);
        }
    }
}

pub proof fn lemma_without_no_duplicates(l: Seq<Entity>, xs: Seq<Entity>)
    requires
        l.no_duplicates(),
    ensures
        without(l, xs).no_duplicates(),
    decreases l.len(),
{
    reveal(Seq::filter);
    if l.len() > 0 {
        let d = l.drop_last();
        assert(d.no_duplicates());
        lemma_without_no_duplicates(d, xs);
        if !xs.contains(l.last()) {
            assert(!d.contains(l.last()));
            lemma_without_contains(d, xs, l.last());
            let w = without(d, xs);
            assert(without(l, xs) =~= w.push(l.last()));
            assert forall|i: int, j: int|
                0 <= i < j < w.len() + 1 implies w.push(l.last())[i] != w.push(l.last())[j] by {
                if j == w.len() {
                    assert(w.contains(w[i]));
                }
            }
        }
    }
}

pub proof fn lemma_without_absent(l: Seq<Entity>, xs: Seq<Entity>)
    requires
        forall|i: int| 0 <= i < l.len() ==> !xs.contains(#[trigger] l[i]),
    ensures
        without(l, xs) == l,
    decreases l.len(),
{
    reveal(Seq::filter);
    if l.len() > 0 {
        let d = l.drop_last();
        assert forall|i: int| 0 <= i < d.len() implies !xs.contains(#[trigger] d[i]) by {
            assert(d[i] == l[i]);
        }
        lemma_without_absent(d, xs);
        assert(l =~= d.push(l.last()));
    }
}

pub proof fn lemma_without_twice(l: Seq<Entity>, xs: Seq<Entity>, c: Entity)
    ensures
        without(without(l, xs), seq![c]) == without(l, xs.push(c)),
    decreases l.len(),
{
    reveal(Seq::filter);
    if l.len() > 0 {
        let d = l.drop_last();
        let x = l.last();
        lemma_without_twice(d, xs, c);
        lemma_push_contains(xs, c, x);
        assert(seq![c].contains(x) <==> x == c) by {
            if x == c {
                assert(seq![c][0] == x);
            }
        }
        let w = without(d, xs);
        if !xs.contains(x) {
            assert(w.push(x).drop_last() =~= w);
            assert(without(w.push(x), seq![c]) == if x != c {
                without(w, seq![c]).push(x)
            } else {
                without(w, seq![c])
            });
        }
        assert(l.drop_last() =~= d);
        assert(xs.push(c).contains(x) <==> (xs.contains(x) || x == c));
    }
}

pub proof fn lemma_without_len(l: Seq<Entity>, xs: Seq<Entity>)
    ensures
        without(l, xs).len() <= l.len(),
{
    l.lemma_filter_len(|e: Entity| !xs.contains(e));
}

pub proof fn lemma_without_empty(xs: Seq<Entity>)
    ensures
        without(Seq::<Entity>::empty(), xs) == Seq::<Entity>::empty(),
{
    reveal(Seq::filter);
}

/// Well-formedness depends on the links alone, and on how many handles
/// were issued only through a lower bound.
pub proof fn lemma_wf_same_links(a: HierarchyModel, b: HierarchyModel)
    requires
        a.wf(),
        a.parent == b.parent,
        a.children == b.children,
        a.next <= b.next,
    ensures
        b.wf(),
{
    assert forall|p: Entity, c: Entity|
        #[trigger] b.children_of(p).contains(c) <==> #[trigger] b.parent_of(c) == Some(p) by {
        assert(a.children_of(p) == b.children_of(p));
        assert(a.parent_of(c) == b.parent_of(c));
    }
}

pub proof fn lemma_single_contains(c: Entity, x: Entity)
    ensures
        seq![c].contains(x) <==> x == c,
{
    if x == c {
        assert(seq![c][0] == x);
    }
}

/// Splicing a list free of duplicates into another at `i`, where the two
/// share no item, gives a list free of duplicates holding the items of both.
pub proof fn lemma_splice(rest: Seq<Entity>, cs: Seq<Entity>, i: int)
    requires
        rest.no_duplicates(),
        cs.no_duplicates(),
        forall|x: Entity| rest.contains(x) ==> !cs.contains(x),
        0 <= i <= rest.len(),
    ensures
        (rest.take(i) + cs + rest.skip(i)).no_duplicates(),
        forall|x: Entity|
            (rest.take(i) + cs + rest.skip(i)).contains(x) <==> (rest.contains(x) || cs.contains(x)),
{
    let l = rest.take(i) + cs + rest.skip(i);
    let n = cs.len();
    assert(l.len() == rest.len() + n);
    // where each position of `l` comes from
    assert forall|k: int| 0 <= k < l.len() implies #[trigger] l[k] == (if k < i {
        rest[k]
    } else if k < i + n {
        cs[k - i]
    } else {
        rest[k - n]
    }) by {}
    assert forall|a: int, b: int| 0 <= a < b < l.len() implies l[a] != l[b] by {
        if a < i && b >= i + n {
            assert(rest[a] != rest[b - n]);
        } else if a < i && b >= i {
            assert(rest.contains(rest[a]));
        } else if a >= i && a < i + n && b >= i + n {
            assert(rest.contains(rest[b - n]));
        } else if a >= i + n {
            assert(rest[a - n] != rest[b - n]);
        }
    }
    assert forall|x: Entity| l.contains(x) <==> (rest.contains(x) || cs.contains(x)) by {
        if rest.contains(x) {
            let k = choose|k: int| 0 <= k < rest.len() && rest[k] == x;
            if k < i {
                assert(l[k] == x);
            } else {
                assert(l[k + n] == x);
            }
        }
        if cs.contains(x) {
            let k = choose|k: int| 0 <= k < cs.len() && cs[k] == x;
            assert(l[k + i] == x);
        }
        if l.contains(x) {
            let k = choose|k: int| 0 <= k < l.len() && l[k] == x;
            if k < i {
                assert(rest[k] == x);
            } else if k < i + n {
                assert(cs[k - i] == x);
            } else {
                assert(rest[k - n] == x);
            }
        }
    }
}

/// Relinking no child changes nothing.
pub proof fn lemma_relink_empty(m: HierarchyModel, p: Entity)
    requires
        m.wf(),
    ensures
        m.relinked(p, Seq::empty()) == m,
{
    let r = m.relinked(p, Seq::empty());
    assert(r.parent =~= m.parent);
    assert forall|q: Entity| m.children.contains_key(q) implies without(
        m.children[q],
        Seq::empty(),
    ) == m.children[q] by {
        lemma_without_absent(m.children[q], Seq::empty());
    }
    assert(r.children =~= m.children);
}

/// What relinking one more child `c` adds: its parent link, and, where it
/// had another parent `q`, its removal from the list of `q`.
pub proof fn lemma_relink_step(m: HierarchyModel, p: Entity, a: Seq<Entity>, c: Entity)
    requires
        m.wf(),
        !a.contains(c),
        !a.contains(p),
        c != p,
    ensures
        m.relinked(p, a).parent_of(c) == m.parent_of(c),
        m.relinked(p, a.push(c)) == (match m.parent_of(c) {
            Some(q) => if q != p {
                HierarchyModel {
                    parent: m.relinked(p, a).parent.insert(c, p),
                    children: with_list(
                        m.relinked(p, a).children,
                        q,
                        without(m.relinked(p, a).children_of(q), seq![c]),
                    ),
                    ..m.relinked(p, a)
                }
            } else {
                HierarchyModel { parent: m.relinked(p, a).parent.insert(c, p), ..m.relinked(p, a) }
            },
            None => HierarchyModel {
                parent: m.relinked(p, a).parent.insert(c, p),
                ..m.relinked(p, a)
            },
        }),
{
    let s = m.relinked(p, a);
    let t = m.relinked(p, a.push(c));
    let b = a.push(c);
    assert forall|k: Entity| b.contains(k) <==> (a.contains(k) || k == c) by {
        lemma_push_contains(a, c, k);
    }
    assert(t.parent =~= s.parent.insert(c, p));
    // lists other than that of the old parent do not hold `c`
    assert forall|r: Entity|
        r != p && m.children.contains_key(r) && m.parent_of(c) != Some(r) implies without(
        m.children[r],
        b,
    ) == without(m.children[r], a) by {
        assert(m.children_of(r) == m.children[r]);
        assert(!m.children[r].contains(c));
        lemma_without_twice(m.children[r], a, c);
        let w = without(m.children[r], a);
        assert forall|i: int| 0 <= i < w.len() implies !seq![c].contains(#[trigger] w[i]) by {
            assert(w.contains(w[i]));
            lemma_without_contains(m.children[r], a, w[i]);
            lemma_single_contains(c, w[i]);
        }
        lemma_without_absent(w, seq![c]);
    }
    match m.parent_of(c) {
        Some(q) => {
            if q != p {
                assert(m.children_of(q).contains(c));
                lemma_without_twice(m.children[q], a, c);
                assert(t.children =~= with_list(s.children, q, without(s.children_of(q), seq![c])));
            } else {
                assert(t.children =~= s.children);
            }
        },
        None => {
            assert(t.children =~= s.children);
        },
    }
}

/// Relinking `cs` to `p` and giving `p` a list that holds, without
/// duplicates, its remaining children and `cs`, keeps a hierarchy well-formed.
pub proof fn lemma_relink_wf(m: HierarchyModel, p: Entity, cs: Seq<Entity>, list: Seq<Entity>)
    requires
        m.wf(),
        m.issued(p),
        m.all_issued(cs),
        cs.no_duplicates(),
        !cs.contains(p),
        list.no_duplicates(),
        forall|x: Entity|
            list.contains(x) <==> (without(m.children_of(p), cs).contains(x) || cs.contains(x)),
    ensures
        (HierarchyModel {
            children: with_list(m.relinked(p, cs).children, p, list),
            ..m.relinked(p, cs)
        }).wf(),
{
    let r = m.relinked(p, cs);
    let n = HierarchyModel { children: with_list(r.children, p, list), ..r };
    assert forall|x: Entity, c: Entity|
        #[trigger] n.children_of(x).contains(c) <==> #[trigger] n.parent_of(c) == Some(x) by {
        lemma_without_contains(m.children_of(x), cs, c);
        lemma_without_contains(m.children_of(p), cs, c);
        assert(m.children_of(x).contains(c) <==> m.parent_of(c) == Some(x));
        if x != p {
            if m.children.contains_key(x) {
                assert(n.children_of(x) == without(m.children[x], cs) || (n.children_of(x)
                    =~= Seq::<Entity>::empty() && without(m.children[x], cs).len() == 0));
            } else {
                assert(n.children_of(x) =~= Seq::<Entity>::empty());
            }
        } else {
            if list.len() == 0 {
                assert(n.children_of(x) =~= Seq::<Entity>::empty());
            }
        }
    }
    assert forall|q: Entity| #[trigger]
        n.children.contains_key(q) implies n.children[q].len() > 0
        && n.children[q].no_duplicates() by {
        if q != p {
            lemma_without_no_duplicates(m.children[q], cs);
        }
    }
    assert forall|c: Entity| #[trigger]
        n.parent.contains_key(c) implies n.issued(c) && n.issued(n.parent[c]) by {
        if cs.contains(c) {
            let i = choose|i: int| 0 <= i < cs.len() && cs[i] == c;
            assert(m.issued(cs[i]));
        }
    }
}

pub proof fn lemma_delivered_empty(events: Option<Seq<HierarchyEvent>>)
    ensures
        delivered(events, Seq::empty()) == events,
{
    match events {
        Some(s) => {
            assert(s + Seq::<HierarchyEvent>::empty() =~= s);
        },
        None => {},
    }
}

/// Appending children keeps a hierarchy well-formed.
pub proof fn lemma_add_children_wf(m: HierarchyModel, p: Entity, cs: Seq<Entity>)
    requires
        m.wf(),
        m.issued(p),
        m.all_issued(cs),
        cs.no_duplicates(),
        !cs.contains(p),
    ensures
        m.add_children(p, cs).wf(),
{
    if cs.len() > 0 {
        let rest = without(m.children_of(p), cs);
        lemma_without_no_duplicates(m.children_of(p), cs);
        assert forall|x: Entity| rest.contains(x) implies !cs.contains(x) by {
            lemma_without_contains(m.children_of(p), cs, x);
        }
        lemma_splice(rest, cs, rest.len() as int);
        assert(rest.take(rest.len() as int) + cs + rest.skip(rest.len() as int) =~= rest + cs);
        lemma_relink_wf(m, p, cs, rest + cs);
        let n = HierarchyModel {
            children: with_list(m.relinked(p, cs).children, p, rest + cs),
            ..m.relinked(p, cs)
        };
        assert(n.children == m.add_children(p, cs).children);
        lemma_wf_same_links(n, m.add_children(p, cs));
    }
}

/// Splicing children in keeps a hierarchy well-formed.
pub proof fn lemma_insert_children_wf(m: HierarchyModel, p: Entity, index: int, cs: Seq<Entity>)
    requires
        m.wf(),
        m.issued(p),
        m.all_issued(cs),
        cs.no_duplicates(),
        !cs.contains(p),
        0 <= index,
        m.insert_index_ok(p, index, cs),
    ensures
        m.insert_children(p, index, cs).wf(),
{
    let rest = without(m.children_of(p), cs);
    lemma_without_no_duplicates(m.children_of(p), cs);
    assert forall|x: Entity| rest.contains(x) implies !cs.contains(x) by {
        lemma_without_contains(m.children_of(p), cs, x);
    }
    let list = if m.children.contains_key(p) {
        rest.take(index) + cs + rest.skip(index)
    } else {
        cs
    };
    if m.children.contains_key(p) {
        lemma_splice(rest, cs, index);
    } else {
        lemma_without_empty(cs);
        assert forall|x: Entity| list.contains(x) <==> (rest.contains(x) || cs.contains(x)) by {}
    }
    lemma_relink_wf(m, p, cs, list);
    let n = HierarchyModel { children: with_list(m.relinked(p, cs).children, p, list), ..m.relinked(p, cs) };
    lemma_wf_same_links(n, m.insert_children(p, index, cs));
}

/// Removing children keeps a hierarchy well-formed.
pub proof fn lemma_remove_children_wf(m: HierarchyModel, p: Entity, cs: Seq<Entity>)
    requires
        m.wf(),
    ensures
        m.remove_children(p, cs).wf(),
{
    if m.children.contains_key(p) {
        let n = m.remove_children(p, cs);
        let list = m.children[p];
        assert forall|x: Entity, c: Entity|
            #[trigger] n.children_of(x).contains(c) <==> #[trigger] n.parent_of(c) == Some(x) by {
            lemma_without_contains(list, cs, c);
            assert(m.children_of(x).contains(c) <==> m.parent_of(c) == Some(x));
            assert(m.children_of(p).contains(c) <==> m.parent_of(c) == Some(p));
            if x == p && without(list, cs).len() == 0 {
                assert(n.children_of(x) =~= Seq::<Entity>::empty());
            }
        }
        assert forall|q: Entity| #[trigger]
            n.children.contains_key(q) implies n.children[q].len() > 0
            && n.children[q].no_duplicates() by {
            if q == p {
                lemma_without_no_duplicates(list, cs);
            }
        }
    }
}

/// Clearing the children of an entity keeps a hierarchy well-formed.
pub proof fn lemma_clear_children_wf(m: HierarchyModel, p: Entity)
    requires
        m.wf(),
    ensures
        m.clear_children(p).wf(),
{
    let n = m.clear_children(p);
    assert forall|x: Entity, c: Entity|
        #[trigger] n.children_of(x).contains(c) <==> #[trigger] n.parent_of(c) == Some(x) by {
        assert(m.children_of(x).contains(c) <==> m.parent_of(c) == Some(x));
        assert(m.children_of(p).contains(c) <==> m.parent_of(c) == Some(p));
        if x == p {
            assert(n.children_of(x) =~= Seq::<Entity>::empty());
        }
    }
}

/// Taking an entity from its parent keeps a hierarchy well-formed.
pub proof fn lemma_remove_parent_wf(m: HierarchyModel, c: Entity)
    requires
        m.wf(),
    ensures
        m.remove_parent(c).wf(),
{
    if m.parent.contains_key(c) {
        let q = m.parent[c];
        let n = m.remove_parent(c);
        let list = m.children_of(q);
        assert forall|x: Entity, e: Entity|
            #[trigger] n.children_of(x).contains(e) <==> #[trigger] n.parent_of(e) == Some(x) by {
            lemma_without_contains(list, seq![c], e);
            lemma_single_contains(c, e);
            assert(m.children_of(x).contains(e) <==> m.parent_of(e) == Some(x));
            assert(m.children_of(q).contains(e) <==> m.parent_of(e) == Some(q));
            if x == q && without(list, seq![c]).len() == 0 {
                assert(n.children_of(x) =~= Seq::<Entity>::empty());
            }
        }
        assert forall|r: Entity| #[trigger]
            n.children.contains_key(r) implies n.children[r].len() > 0
            && n.children[r].no_duplicates() by {
            if r == q {
                lemma_without_no_duplicates(list, seq![c]);
            }
        }
    }
}

/// A new handle, made the last child of `p`, keeps a hierarchy well-formed.
pub proof fn lemma_added_fresh_wf(m: HierarchyModel, p: Entity, e: Entity)
    requires
        m.wf(),
        m.issued(p),
        e == m.next,
        m.next < u64::MAX,
    ensures
        (HierarchyModel {
            next: (e + 1) as u64,
            parent: m.parent.insert(e, p),
            children: m.children.insert(p, m.children_of(p).push(e)),
            ..m
        }).wf(),
{
    let n = HierarchyModel {
        next: (e + 1) as u64,
        parent: m.parent.insert(e, p),
        children: m.children.insert(p, m.children_of(p).push(e)),
        ..m
    };
    assert(!m.parent.contains_key(e));
    assert forall|x: Entity, c: Entity|
        #[trigger] n.children_of(x).contains(c) <==> #[trigger] n.parent_of(c) == Some(x) by {
        assert(m.children_of(x).contains(c) <==> m.parent_of(c) == Some(x));
        lemma_push_contains(m.children_of(p), e, c);
        if m.children_of(x).contains(e) {
            assert(m.parent_of(e) == Some(x));
        }
    }
    assert forall|q: Entity| #[trigger]
        n.children.contains_key(q) implies n.children[q].len() > 0
        && n.children[q].no_duplicates() by {
        if q == p {
            let l = m.children_of(p);
            if l.contains(e) {
                assert(m.parent_of(e) == Some(p));
            }
            assert forall|i: int, j: int|
                0 <= i < j < l.len() + 1 implies l.push(e)[i] != l.push(e)[j] by {
                if j == l.len() {
                    assert(l.contains(l[i]));
                }
            }
        }
    }
}

/// The usable items of `cs` are issued, distinct, and taken from `cs`.
pub proof fn lemma_usable(m: HierarchyModel, cs: Seq<Entity>)
    ensures
        m.usable(cs).no_duplicates(),
        m.all_issued(m.usable(cs)),
        forall|x: Entity| #[trigger] m.usable(cs).contains(x) ==> cs.contains(x),
        m.usable(cs).len() <= cs.len(),
    decreases cs.len(),
{
    if cs.len() > 0 {
        let d = cs.drop_last();
        let x = cs.last();
        lemma_usable(m, d);
        let r = m.usable(d);
        assert(cs =~= d.push(x));
        assert forall|y: Entity| #[trigger] m.usable(cs).contains(y) implies cs.contains(y) by {
            lemma_push_contains(d, x, y);
            if m.issued(x) && !r.contains(x) {
                lemma_push_contains(r, x, y);
            }
        }
        if m.issued(x) && !r.contains(x) {
            let u = r.push(x);
            assert forall|i: int, j: int| 0 <= i < j < u.len() implies u[i] != u[j] by {
                if j == r.len() {
                    assert(r.contains(r[i]));
                }
            }
            assert forall|i: int| 0 <= i < u.len() implies m.issued(#[trigger] u[i]) by {
                if i < r.len() {
                    assert(u[i] == r[i]);
                }
            }
        }
    }
}

} // verus!
