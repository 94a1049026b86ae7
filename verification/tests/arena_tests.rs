use dynwinrt::append_only_arena::AppendOnlyBoxArena;

#[test]
fn pointers_stay_valid_across_growth() {
    let mut arena: AppendOnlyBoxArena<u64> = AppendOnlyBoxArena::new();
    let mut ptrs = Vec::new();
    for i in 0..1024u64 {
        let idx = arena.push(i);
        ptrs.push((idx, arena.stable_ptr(idx)));
    }
    for i in 1024..8192u64 {
        arena.push(i);
    }
    for (idx, p) in ptrs {
        assert_eq!(*arena.get(p), idx as u64);
    }
}

#[test]
fn push_returns_consecutive_indices_and_len_counts_values() {
    let mut arena: AppendOnlyBoxArena<String> = AppendOnlyBoxArena::new();
    assert_eq!(arena.len(), 0);
    assert_eq!(arena.push("a".to_string()), 0);
    assert_eq!(arena.push("b".to_string()), 1);
    assert_eq!(arena.len(), 2);
    let first = arena.stable_ptr(0);
    arena.push("c".to_string());
    assert_eq!(arena.get(first), "a");
    assert_eq!(arena.get(arena.stable_ptr(2)), "c");
}
