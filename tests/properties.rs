use bevy_hierarchy::{
    BuildChildren, ChildBuild, ChildBuilder, CommandQueue, Entity, Hierarchy, HierarchyCommand,
    HierarchyError, HierarchyEvent, WorldChildBuilder,
};

fn spawn_n(world: &mut Hierarchy, n: usize) -> Vec<Entity> {
    (0..n).map(|_| world.spawn_empty()).collect()
}

#[test]
fn spawned_handles_are_sequential() {
    let mut world = Hierarchy::new();
    assert_eq!(spawn_n(&mut world, 3), vec![0, 1, 2]);
    assert!(world.contains_entity(2));
    assert!(!world.contains_entity(3));
    assert!(world.contains_all(&[0, 2]));
    assert!(!world.contains_all(&[0, 7]));
}

#[test]
fn second_append_sends_nothing() {
    let mut world = Hierarchy::with_events();
    let e = spawn_n(&mut world, 2);
    let (p, c) = (e[0], e[1]);
    world.add_children(p, &[c]);
    assert_eq!(world.drain_events(), vec![HierarchyEvent::ChildAdded { child: c, parent: p }]);
    world.add_children(p, &[c]);
    assert_eq!(world.children(p), Some(vec![c]));
    assert!(world.drain_events().is_empty());
}

#[test]
fn re_adding_moves_to_the_end() {
    let mut world = Hierarchy::new();
    let e = spawn_n(&mut world, 3);
    let (p, a, b) = (e[0], e[1], e[2]);
    world.add_children(p, &[a, b]);
    world.add_children(p, &[a]);
    assert_eq!(world.children(p), Some(vec![b, a]));
    world.add_child(p, b);
    assert_eq!(world.children(p), Some(vec![a, b]));
}

#[test]
fn last_child_removal_drops_the_list() {
    let mut world = Hierarchy::new();
    let e = spawn_n(&mut world, 2);
    let (p, c) = (e[0], e[1]);
    world.add_child(p, c);
    world.remove_children(p, &[c]);
    assert_eq!(world.children(p), None);
    assert_eq!(world.child_count(p), 0);

    world.add_child(p, c);
    world.remove_parent(c);
    assert_eq!(world.children(p), None);
    assert_eq!(world.parent(c), None);
}

#[test]
fn move_sends_one_moved() {
    let mut world = Hierarchy::with_events();
    let e = spawn_n(&mut world, 4);
    let (a, b, c, d) = (e[0], e[1], e[2], e[3]);
    world.add_children(a, &[c, d]);
    world.add_child(b, d);
    world.drain_events();

    world.add_child(b, c);
    assert_eq!(world.parent(c), Some(b));
    assert_eq!(world.children(a), None);
    assert_eq!(world.children(b), Some(vec![d, c]));
    assert_eq!(
        world.drain_events(),
        vec![HierarchyEvent::ChildMoved { child: c, previous_parent: a, new_parent: b }]
    );
}

#[test]
fn batch_removal_is_selective() {
    let mut world = Hierarchy::with_events();
    let e = spawn_n(&mut world, 5);
    let (p, a, b, c, d) = (e[0], e[1], e[2], e[3], e[4]);
    world.add_children(p, &[a, b, c]);
    world.drain_events();

    world.remove_children(p, &[b, d]);
    assert_eq!(world.children(p), Some(vec![a, c]));
    assert_eq!(world.parent(b), None);
    assert_eq!(world.parent(a), Some(p));
    assert_eq!(world.drain_events(), vec![HierarchyEvent::ChildRemoved { child: b, parent: p }]);
}

#[test]
fn removal_from_childless_parent_does_nothing() {
    let mut world = Hierarchy::with_events();
    let e = spawn_n(&mut world, 3);
    let (p, q, c) = (e[0], e[1], e[2]);
    world.add_child(q, c);
    world.drain_events();
    world.remove_children(p, &[c]);
    assert_eq!(world.parent(c), Some(q));
    assert_eq!(world.children(q), Some(vec![c]));
    assert!(world.drain_events().is_empty());
}

#[test]
fn replace_keeps_exactly_the_new_set() {
    let mut world = Hierarchy::with_events();
    let e = spawn_n(&mut world, 4);
    let (p, a, b, c) = (e[0], e[1], e[2], e[3]);
    world.add_children(p, &[a, b]);
    world.drain_events();

    world.replace_children(p, &[b, c]);
    assert_eq!(world.children(p), Some(vec![b, c]));
    assert_eq!(world.parent(a), None);
    assert_eq!(world.parent(b), Some(p));
    assert_eq!(world.parent(c), Some(p));
    // clearing sends nothing; `b` and `c` come back as orphans
    assert_eq!(
        world.drain_events(),
        vec![
            HierarchyEvent::ChildAdded { child: b, parent: p },
            HierarchyEvent::ChildAdded { child: c, parent: p },
        ]
    );
}

#[test]
fn clear_sends_nothing() {
    let mut world = Hierarchy::with_events();
    let e = spawn_n(&mut world, 3);
    world.add_children(e[0], &[e[1], e[2]]);
    world.drain_events();
    world.clear_children(e[0]);
    assert_eq!(world.children(e[0]), None);
    assert!(world.drain_events().is_empty());
}

#[test]
fn insert_index_is_checked_against_the_remaining_list() {
    let mut world = Hierarchy::with_events();
    let e = spawn_n(&mut world, 4);
    let (p, a, b, c) = (e[0], e[1], e[2], e[3]);
    world.add_children(p, &[a, b]);
    world.drain_events();

    assert!(!world.can_insert_at(p, 3, &[c]));
    // `a` is taken out first, leaving one child: index 2 is past the end
    assert!(!world.can_insert_at(p, 2, &[a]));
    assert!(world.can_insert_at(p, 1, &[a]));
    assert!(world.can_insert_at(p, 2, &[c]));
    // unknown handles are skipped before the index is measured
    assert!(!world.can_insert_at(p, 2, &[a, 70]));
    // a parent without children takes any index
    assert!(world.can_insert_at(c, 9, &[a]));

    world.insert_children(p, 2, &[c]);
    assert_eq!(world.children(p), Some(vec![a, b, c]));
    world.insert_children(p, 0, &[c]);
    assert_eq!(world.children(p), Some(vec![c, a, b]));
}

#[test]
fn insert_into_childless_parent_ignores_index() {
    let mut world = Hierarchy::new();
    let e = spawn_n(&mut world, 3);
    world.insert_children(e[0], 5, &[e[1], e[2]]);
    assert_eq!(world.children(e[0]), Some(vec![e[1], e[2]]));
    world.insert_children(e[0], 0, &[]);
    assert_eq!(world.children(e[0]), Some(vec![e[1], e[2]]));
}

#[test]
fn insert_with_nothing_keeps_childless_parent_bare() {
    let mut world = Hierarchy::new();
    let p = world.spawn_empty();
    world.insert_children(p, 0, &[]);
    assert_eq!(world.children(p), None);
}

#[test]
fn without_sink_events_are_dropped() {
    let mut world = Hierarchy::new();
    let e = spawn_n(&mut world, 2);
    assert!(!world.has_event_sink());
    world.add_child(e[0], e[1]);
    assert!(world.drain_events().is_empty());
    assert_eq!(world.parent(e[1]), Some(e[0]));
}

#[test]
fn batch_reparent_events_follow_input_order() {
    let mut world = Hierarchy::with_events();
    let e = spawn_n(&mut world, 5);
    let (p, q, a, b, c) = (e[0], e[1], e[2], e[3], e[4]);
    world.add_child(q, b);
    world.add_child(p, c);
    world.drain_events();
    world.add_children(p, &[a, b, c]);
    assert_eq!(
        world.drain_events(),
        vec![
            HierarchyEvent::ChildAdded { child: a, parent: p },
            HierarchyEvent::ChildMoved { child: b, previous_parent: q, new_parent: p },
        ]
    );
    assert_eq!(world.children(q), None);
    assert_eq!(world.children(p), Some(vec![a, b, c]));
}

#[test]
fn world_child_builder_links_at_once() {
    let mut world = Hierarchy::with_events();
    let p = world.spawn_empty();
    let mut builder = WorldChildBuilder::new(p);
    assert_eq!(builder.parent_entity(), p);
    let c1 = builder.spawn_empty(&mut world);
    let c2 = builder.spawn_empty(&mut world);
    assert_eq!(world.children(p), Some(vec![c1, c2]));
    assert_eq!(world.parent(c2), Some(p));
    assert_eq!(
        world.drain_events(),
        vec![
            HierarchyEvent::ChildAdded { child: c1, parent: p },
            HierarchyEvent::ChildAdded { child: c2, parent: p },
        ]
    );
    builder.queue_command(HierarchyCommand::RemoveParent { child: c1 });
    assert_eq!(world.parent(c1), Some(p));
    builder.flush_world(&mut world).unwrap();
    assert_eq!(world.parent(c1), None);
    assert_eq!(world.children(p), Some(vec![c2]));
}

#[test]
fn child_builder_defers_linking() {
    let mut world = Hierarchy::new();
    let mut queue = CommandQueue::new();
    let p = world.spawn_empty();
    let other = world.spawn_empty();
    let mut builder = ChildBuilder::new(p);
    assert_eq!(builder.parent_entity(), p);
    let c = builder.spawn_empty(&mut world);
    builder.queue_command(HierarchyCommand::AddChild { parent: other, child: c });
    queue.with_children(builder);
    assert_eq!(queue.len(), 2);
    assert_eq!(world.parent(c), None);
    queue.apply(&mut world).unwrap();
    assert_eq!(queue.len(), 0);
    // the builder's own command runs first, then the children move to `p`
    assert_eq!(world.parent(c), Some(p));
    assert_eq!(world.children(other), None);
    assert_eq!(world.children(p), Some(vec![c]));
}

#[test]
fn queued_commands_on_unknown_entities_are_skipped() {
    let mut world = Hierarchy::new();
    let e = spawn_n(&mut world, 2);
    let mut queue = CommandQueue::new();
    queue.add_child(e[0], 99);
    queue.add_children(e[0], &[e[1], 42]);
    queue.add_child(e[0], e[1]);
    queue.apply(&mut world).unwrap();
    assert_eq!(world.children(e[0]), Some(vec![e[1]]));
    assert_eq!(world.parent(99), None);
}

#[test]
fn queued_insert_past_the_end_stops_the_queue() {
    let mut world = Hierarchy::new();
    let e = spawn_n(&mut world, 4);
    world.add_child(e[0], e[1]);
    let mut queue = CommandQueue::new();
    queue.add_child(e[0], e[3]);
    queue.insert_children(e[0], 4, &[e[2]]);
    queue.remove_parent(e[1]);
    assert_eq!(queue.apply(&mut world), Err(HierarchyError::IndexOutOfRange));
    assert_eq!(queue.len(), 0);
    // the command before the failing one ran; it and the rest did not
    assert_eq!(world.children(e[0]), Some(vec![e[1], e[3]]));
    assert_eq!(world.parent(e[2]), None);
    assert_eq!(world.parent(e[1]), Some(e[0]));
}

#[test]
fn missing_children_are_skipped_one_by_one() {
    let mut world = Hierarchy::with_events();
    let e = spawn_n(&mut world, 3);
    let (p, a, b) = (e[0], e[1], e[2]);
    world.add_children(p, &[a, 77, b]);
    assert_eq!(world.children(p), Some(vec![a, b]));
    assert_eq!(world.parent(77), None);
    assert_eq!(
        world.drain_events(),
        vec![
            HierarchyEvent::ChildAdded { child: a, parent: p },
            HierarchyEvent::ChildAdded { child: b, parent: p },
        ]
    );
    world.insert_children(p, 0, &[88]);
    assert_eq!(world.children(p), Some(vec![a, b]));
    world.add_child(p, 99);
    world.set_parent(99, p);
    assert_eq!(world.children(p), Some(vec![a, b]));
    world.replace_children(p, &[b, 55]);
    assert_eq!(world.children(p), Some(vec![b]));
    assert_eq!(world.parent(a), None);
}

#[test]
fn missing_parent_changes_nothing() {
    let mut world = Hierarchy::with_events();
    let e = spawn_n(&mut world, 2);
    world.add_children(50, &[e[0], e[1]]);
    world.add_child(50, e[0]);
    world.insert_children(50, 3, &[e[0]]);
    world.replace_children(50, &[e[1]]);
    assert_eq!(world.parent(e[0]), None);
    assert_eq!(world.parent(e[1]), None);
    assert_eq!(world.children(50), None);
    assert!(world.drain_events().is_empty());
    let c = world.with_child(50);
    assert_eq!(world.parent(c), None);
    assert_eq!(world.children(50), None);
}

#[test]
fn repeated_children_are_added_once() {
    let mut world = Hierarchy::with_events();
    let e = spawn_n(&mut world, 3);
    let (p, a, b) = (e[0], e[1], e[2]);
    world.add_children(p, &[a, b, a]);
    assert_eq!(world.children(p), Some(vec![a, b]));
    assert_eq!(world.drain_events().len(), 2);
    world.insert_children(p, 0, &[b, b]);
    assert_eq!(world.children(p), Some(vec![b, a]));
}

#[test]
fn queued_set_parent_and_remove_parent() {
    let mut world = Hierarchy::with_events();
    let e = spawn_n(&mut world, 2);
    let mut queue = CommandQueue::new();
    queue.set_parent(e[1], e[0]);
    queue.apply(&mut world).unwrap();
    assert_eq!(world.parent(e[1]), Some(e[0]));
    queue.remove_parent(e[1]);
    queue.apply(&mut world).unwrap();
    assert_eq!(world.parent(e[1]), None);
    assert_eq!(
        world.drain_events(),
        vec![
            HierarchyEvent::ChildAdded { child: e[1], parent: e[0] },
            HierarchyEvent::ChildRemoved { child: e[1], parent: e[0] },
        ]
    );
}

#[test]
fn spawn_child_sends_added() {
    let mut world = Hierarchy::with_events();
    let p = world.spawn_empty();
    let c = world.spawn_child(p);
    assert_eq!(world.parent(c), Some(p));
    assert_eq!(world.children(p), Some(vec![c]));
    assert_eq!(world.drain_events(), vec![HierarchyEvent::ChildAdded { child: c, parent: p }]);
}

#[test]
fn long_children_list_spills_past_inline_room() {
    let mut world = Hierarchy::new();
    let p = world.spawn_empty();
    let cs = spawn_n(&mut world, 20);
    world.add_children(p, &cs[..10]);
    world.insert_children(p, 3, &cs[10..]);
    let mut expected: Vec<Entity> = cs[..3].to_vec();
    expected.extend_from_slice(&cs[10..]);
    expected.extend_from_slice(&cs[3..10]);
    assert_eq!(world.children(p), Some(expected));
    assert_eq!(world.child_count(p), 20);
    world.remove_children(p, &cs[5..15]);
    assert_eq!(world.child_count(p), 10);
}

fn reshape<T: BuildChildren>(t: &mut T, p: Entity, a: Entity, b: Entity, c: Entity) {
    t.add_children(p, &[a, b]);
    t.insert_children(p, 0, &[c]);
    t.remove_children(p, &[a]);
    t.set_parent(a, c);
}

#[test]
fn both_modes_share_the_operation_set() {
    let mut now = Hierarchy::new();
    let e = spawn_n(&mut now, 4);
    reshape(&mut now, e[0], e[1], e[2], e[3]);

    let mut later = Hierarchy::new();
    spawn_n(&mut later, 4);
    let mut queue = CommandQueue::new();
    reshape(&mut queue, e[0], e[1], e[2], e[3]);
    assert_eq!(queue.len(), 4);
    queue.apply(&mut later).unwrap();

    for &x in &e {
        assert_eq!(now.parent(x), later.parent(x));
        assert_eq!(now.children(x), later.children(x));
    }
    assert_eq!(now.children(e[0]), Some(vec![e[3], e[2]]));
    assert_eq!(now.children(e[3]), Some(vec![e[1]]));
}
