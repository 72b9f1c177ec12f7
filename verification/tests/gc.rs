use mruby::gc::GcArena;

#[test]
fn a_new_arena_is_empty() {
    let arena = GcArena::new();
    assert_eq!(arena.depth(), 0);
    assert_eq!(arena.open_savepoints(), 0);
}

#[test]
fn restore_pops_back_to_the_recorded_depth() {
    let mut arena = GcArena::new();
    assert!(arena.protect());
    assert!(arena.protect());
    let savepoint = arena.open();
    assert_eq!(savepoint.index(), 2);
    assert_eq!(arena.open_savepoints(), 1);
    assert!(arena.protect());
    assert!(arena.protect());
    assert!(arena.protect());
    assert_eq!(arena.depth(), 5);
    assert!(arena.is_innermost(&savepoint));
    arena.restore(savepoint);
    assert_eq!(arena.depth(), 2);
    assert_eq!(arena.open_savepoints(), 0);
}

#[test]
fn a_scope_without_work_changes_nothing() {
    let mut arena = GcArena::new();
    assert!(arena.protect());
    let savepoint = arena.open();
    assert!(arena.is_innermost(&savepoint));
    arena.restore(savepoint);
    assert_eq!(arena.depth(), 1);
    assert_eq!(arena.open_savepoints(), 0);
}

#[test]
fn nested_savepoints_balance() {
    let mut arena = GcArena::new();
    let outer = arena.open();
    assert!(arena.protect());
    let middle = arena.open();
    assert!(arena.protect());
    assert!(arena.protect());
    let inner = arena.open();
    assert!(arena.protect());
    assert_eq!(arena.depth(), 4);
    assert_eq!(arena.open_savepoints(), 3);
    assert!(arena.is_innermost(&inner));
    assert!(!arena.is_innermost(&middle));
    assert!(!arena.is_innermost(&outer));
    arena.restore(inner);
    assert_eq!(arena.depth(), 3);
    assert!(arena.is_innermost(&middle));
    arena.restore(middle);
    assert_eq!(arena.depth(), 1);
    assert!(arena.is_innermost(&outer));
    arena.restore(outer);
    assert_eq!(arena.depth(), 0);
    assert_eq!(arena.open_savepoints(), 0);
}

#[test]
fn savepoints_one_after_another_balance() {
    let mut arena = GcArena::new();
    for round in 0..4 {
        let savepoint = arena.open();
        for _ in 0..round {
            assert!(arena.protect());
        }
        assert_eq!(arena.depth(), round);
        arena.restore(savepoint);
        assert_eq!(arena.depth(), 0);
        assert_eq!(arena.open_savepoints(), 0);
    }
}

#[test]
fn a_restored_savepoint_of_equal_depth_is_told_apart_by_its_level() {
    let mut arena = GcArena::new();
    let outer = arena.open();
    let inner = arena.open();
    assert_eq!(outer.index(), inner.index());
    assert!(!arena.is_innermost(&outer));
    assert!(arena.is_innermost(&inner));
    arena.restore(inner);
    assert!(arena.is_innermost(&outer));
}
