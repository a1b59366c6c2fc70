use bevy_hierarchy::{ChildBuild, ChildBuilder, CommandQueue, Entity, Hierarchy, HierarchyEvent};

fn spawn_n(world: &mut Hierarchy, n: usize) -> Vec<Entity> {
    (0..n).map(|_| world.spawn_empty()).collect()
}

fn assert_parent(world: &Hierarchy, child: Entity, parent: Option<Entity>) {
    assert_eq!(world.parent(child), parent);
}

fn assert_children(world: &Hierarchy, parent: Entity, children: Option<&[Entity]>) {
    assert_eq!(world.children(parent).as_deref(), children);
}

fn assert_num_children(world: &Hierarchy, parent: Entity, num_children: usize) {
    assert_eq!(world.child_count(parent), num_children);
}

/// Drops the first `number` notifications, keeping the rest in the sink.
fn omit_events(world: &mut Hierarchy, number: usize) -> Vec<HierarchyEvent> {
    let events = world.drain_events();
    events[number..].to_vec()
}

fn assert_events(world: &mut Hierarchy, expected_events: &[HierarchyEvent]) {
    let events = world.drain_events();
    assert_eq!(events, expected_events);
}

#[test]
fn add_child() {
    let world = &mut Hierarchy::with_events();
    let e = spawn_n(world, 4);
    let (a, b, c, d) = (e[0], e[1], e[2], e[3]);

    world.add_child(a, b);

    assert_parent(world, b, Some(a));
    assert_children(world, a, Some(&[b]));
    assert_events(world, &[HierarchyEvent::ChildAdded { child: b, parent: a }]);

    world.add_child(a, c);

    assert_children(world, a, Some(&[b, c]));
    assert_parent(world, c, Some(a));
    assert_events(world, &[HierarchyEvent::ChildAdded { child: c, parent: a }]);
    // Children component should be removed when it's empty.
    world.add_child(d, b);
    world.add_child(d, c);
    assert_children(world, a, None);
}

#[test]
fn set_parent() {
    let world = &mut Hierarchy::with_events();
    let e = spawn_n(world, 3);
    let (a, b, c) = (e[0], e[1], e[2]);

    world.set_parent(a, b);

    assert_parent(world, a, Some(b));
    assert_children(world, b, Some(&[a]));
    assert_events(world, &[HierarchyEvent::ChildAdded { child: a, parent: b }]);

    world.set_parent(a, c);

    assert_parent(world, a, Some(c));
    assert_children(world, b, None);
    assert_children(world, c, Some(&[a]));
    assert_events(
        world,
        &[HierarchyEvent::ChildMoved { child: a, previous_parent: b, new_parent: c }],
    );
}

#[test]
fn remove_parent() {
    let world = &mut Hierarchy::with_events();
    let e = spawn_n(world, 3);
    let (a, b, c) = (e[0], e[1], e[2]);

    world.add_children(a, &[b, c]);
    world.remove_parent(b);

    assert_parent(world, b, None);
    assert_parent(world, c, Some(a));
    assert_children(world, a, Some(&[c]));
    let rest = omit_events(world, 2); // Omit ChildAdded events.
    assert_eq!(rest, vec![HierarchyEvent::ChildRemoved { child: b, parent: a }]);

    world.remove_parent(c);
    assert_parent(world, c, None);
    assert_children(world, a, None);
    assert_events(world, &[HierarchyEvent::ChildRemoved { child: c, parent: a }]);
}

#[test]
fn build_children() {
    let mut world = Hierarchy::new();
    let mut queue = CommandQueue::new();

    let parent = world.spawn_empty();
    let mut builder = ChildBuilder::new(parent);
    let children = vec![
        builder.spawn_empty(&mut world),
        builder.spawn_empty(&mut world),
        builder.spawn_empty(&mut world),
    ];
    queue.with_children(builder);

    queue.apply(&mut world).unwrap();
    assert_eq!(world.children(parent).unwrap(), children);
    assert_eq!(world.parent(children[0]), Some(parent));
    assert_eq!(world.parent(children[1]), Some(parent));

    assert_eq!(world.parent(children[0]), Some(parent));
    assert_eq!(world.parent(children[1]), Some(parent));
}

#[test]
fn build_child() {
    let mut world = Hierarchy::new();
    let mut queue = CommandQueue::new();

    let parent = world.spawn_empty();
    queue.with_child(&mut world, parent);

    queue.apply(&mut world).unwrap();
    assert_eq!(world.children(parent).unwrap().len(), 1);
}

#[test]
fn push_and_insert_and_remove_children_commands() {
    let mut world = Hierarchy::new();
    let entities = spawn_n(&mut world, 5);

    let mut queue = CommandQueue::new();
    queue.add_children(entities[0], &entities[1..3]);
    queue.apply(&mut world).unwrap();

    let parent = entities[0];
    let child1 = entities[1];
    let child2 = entities[2];
    let child3 = entities[3];
    let child4 = entities[4];

    let expected_children: Vec<Entity> = vec![child1, child2];
    assert_eq!(world.children(parent).unwrap(), expected_children);
    assert_eq!(world.parent(child1), Some(parent));
    assert_eq!(world.parent(child2), Some(parent));

    assert_eq!(world.parent(child1), Some(parent));
    assert_eq!(world.parent(child2), Some(parent));

    queue.insert_children(parent, 1, &entities[3..]);
    queue.apply(&mut world).unwrap();

    let expected_children: Vec<Entity> = vec![child1, child3, child4, child2];
    assert_eq!(world.children(parent).unwrap(), expected_children);
    assert_eq!(world.parent(child3), Some(parent));
    assert_eq!(world.parent(child4), Some(parent));

    let remove_children = [child1, child4];
    queue.remove_children(parent, &remove_children);
    queue.apply(&mut world).unwrap();

    let expected_children: Vec<Entity> = vec![child3, child2];
    assert_eq!(world.children(parent).unwrap(), expected_children);
    assert!(world.parent(child1).is_none());
    assert!(world.parent(child4).is_none());
}

#[test]
fn push_and_clear_children_commands() {
    let mut world = Hierarchy::new();
    let entities = spawn_n(&mut world, 5);

    let mut queue = CommandQueue::new();
    queue.add_children(entities[0], &entities[1..3]);
    queue.apply(&mut world).unwrap();

    let parent = entities[0];
    let child1 = entities[1];
    let child2 = entities[2];

    let expected_children: Vec<Entity> = vec![child1, child2];
    assert_eq!(world.children(parent).unwrap(), expected_children);
    assert_eq!(world.parent(child1), Some(parent));
    assert_eq!(world.parent(child2), Some(parent));

    queue.clear_children(parent);
    queue.apply(&mut world).unwrap();

    assert!(world.children(parent).is_none());

    assert!(world.parent(child1).is_none());
    assert!(world.parent(child2).is_none());
}

#[test]
fn push_and_replace_children_commands() {
    let mut world = Hierarchy::new();
    let entities = spawn_n(&mut world, 5);

    let mut queue = CommandQueue::new();
    queue.add_children(entities[0], &entities[1..3]);
    queue.apply(&mut world).unwrap();

    let parent = entities[0];
    let child1 = entities[1];
    let child2 = entities[2];
    let child4 = entities[4];

    let expected_children: Vec<Entity> = vec![child1, child2];
    assert_eq!(world.children(parent).unwrap(), expected_children);
    assert_eq!(world.parent(child1), Some(parent));
    assert_eq!(world.parent(child2), Some(parent));

    let replace_children = [child1, child4];
    queue.replace_children(parent, &replace_children);
    queue.apply(&mut world).unwrap();

    let expected_children: Vec<Entity> = vec![child1, child4];
    assert_eq!(world.children(parent).unwrap(), expected_children);
    assert_eq!(world.parent(child1), Some(parent));
    assert_eq!(world.parent(child4), Some(parent));
    assert!(world.parent(child2).is_none());
}

#[test]
fn push_and_insert_and_remove_children_world() {
    let mut world = Hierarchy::new();
    let entities = spawn_n(&mut world, 5);

    world.add_children(entities[0], &entities[1..3]);

    let parent = entities[0];
    let child1 = entities[1];
    let child2 = entities[2];
    let child3 = entities[3];
    let child4 = entities[4];

    let expected_children: Vec<Entity> = vec![child1, child2];
    assert_eq!(world.children(parent).unwrap(), expected_children);
    assert_eq!(world.parent(child1), Some(parent));
    assert_eq!(world.parent(child2), Some(parent));

    world.insert_children(parent, 1, &entities[3..]);
    let expected_children: Vec<Entity> = vec![child1, child3, child4, child2];
    assert_eq!(world.children(parent).unwrap(), expected_children);
    assert_eq!(world.parent(child3), Some(parent));
    assert_eq!(world.parent(child4), Some(parent));

    let remove_children = [child1, child4];
    world.remove_children(parent, &remove_children);
    let expected_children: Vec<Entity> = vec![child3, child2];
    assert_eq!(world.children(parent).unwrap(), expected_children);
    assert!(world.parent(child1).is_none());
    assert!(world.parent(child4).is_none());
}

#[test]
fn push_and_insert_and_clear_children_world() {
    let mut world = Hierarchy::new();
    let entities = spawn_n(&mut world, 3);

    world.add_children(entities[0], &entities[1..3]);

    let parent = entities[0];
    let child1 = entities[1];
    let child2 = entities[2];

    let expected_children: Vec<Entity> = vec![child1, child2];
    assert_eq!(world.children(parent).unwrap(), expected_children);
    assert_eq!(world.parent(child1), Some(parent));
    assert_eq!(world.parent(child2), Some(parent));

    world.clear_children(parent);
    assert!(world.children(parent).is_none());
    assert!(world.parent(child1).is_none());
    assert!(world.parent(child2).is_none());
}

#[test]
fn push_and_replace_children_world() {
    let mut world = Hierarchy::new();
    let entities = spawn_n(&mut world, 5);

    world.add_children(entities[0], &entities[1..3]);

    let parent = entities[0];
    let child1 = entities[1];
    let child2 = entities[2];
    let child3 = entities[3];
    let child4 = entities[4];

    let expected_children: Vec<Entity> = vec![child1, child2];
    assert_eq!(world.children(parent).unwrap(), expected_children);
    assert_eq!(world.parent(child1), Some(parent));
    assert_eq!(world.parent(child2), Some(parent));

    world.replace_children(parent, &entities[2..]);
    let expected_children: Vec<Entity> = vec![child2, child3, child4];
    assert_eq!(world.children(parent).unwrap(), expected_children);
    assert!(world.parent(child1).is_none());
    assert_eq!(world.parent(child2), Some(parent));
    assert_eq!(world.parent(child3), Some(parent));
    assert_eq!(world.parent(child4), Some(parent));
}

/// Tests what happens when all children are removed from a parent using world functions
#[test]
fn children_removed_when_empty_world() {
    let mut world = Hierarchy::new();
    let entities = spawn_n(&mut world, 3);

    let parent1 = entities[0];
    let parent2 = entities[1];
    let child = entities[2];

    // add child into parent1
    world.add_children(parent1, &[child]);
    assert_eq!(world.children(parent1).unwrap(), vec![child]);

    // move only child from parent1 with `add_children`
    world.add_children(parent2, &[child]);
    assert!(world.children(parent1).is_none());

    // move only child from parent2 with `insert_children`
    world.insert_children(parent1, 0, &[child]);
    assert!(world.children(parent2).is_none());

    // remove only child from parent1 with `remove_children`
    world.remove_children(parent1, &[child]);
    assert!(world.children(parent1).is_none());
}

/// Tests what happens when all children are removed form a parent using commands
#[test]
fn children_removed_when_empty_commands() {
    let mut world = Hierarchy::new();
    let entities = spawn_n(&mut world, 3);

    let parent1 = entities[0];
    let parent2 = entities[1];
    let child = entities[2];

    let mut queue = CommandQueue::new();

    // add child into parent1
    queue.add_children(parent1, &[child]);
    queue.apply(&mut world).unwrap();
    assert_eq!(world.children(parent1).unwrap(), vec![child]);

    // move only child from parent1 with `add_children`
    queue.add_children(parent2, &[child]);
    queue.apply(&mut world).unwrap();
    assert!(world.children(parent1).is_none());

    // move only child from parent2 with `insert_children`
    queue.insert_children(parent1, 0, &[child]);
    queue.apply(&mut world).unwrap();
    assert!(world.children(parent2).is_none());

    // move only child from parent1 with `add_child`
    queue.add_child(parent2, child);
    queue.apply(&mut world).unwrap();
    assert!(world.children(parent1).is_none());

    // remove only child from parent2 with `remove_children`
    queue.remove_children(parent2, &[child]);
    queue.apply(&mut world).unwrap();
    assert!(world.children(parent2).is_none());
}

#[test]
fn regression_add_children_same_archetype() {
    let mut world = Hierarchy::new();
    let child = world.spawn_empty();
    let parent = world.spawn_empty();
    world.add_children(parent, &[child]);
}

#[test]
fn add_children_idempotent() {
    let mut world = Hierarchy::new();
    let child = world.spawn_empty();
    let parent = world.spawn_empty();
    world.add_children(parent, &[child]);
    world.add_children(parent, &[child]);

    let children = world.children(parent).unwrap();
    assert_eq!(children, [child]);
}

#[test]
fn add_children_does_not_insert_empty_children() {
    let mut world = Hierarchy::new();
    let parent = world.spawn_empty();
    world.add_children(parent, &[]);

    let children = world.children(parent);
    assert!(children.is_none());
}

#[test]
fn with_child() {
    let world = &mut Hierarchy::with_events();

    let a = world.spawn_empty();

    world.with_child(a);

    assert_num_children(world, a, 1);

    world.with_child(a);
    world.with_child(a);

    assert_num_children(world, a, 3);
}
