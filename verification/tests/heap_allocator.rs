use plugin_memory::heap_allocator::{
    all_plugin_stats, commit_stats_json, count_visit, create_heap, global_mimalloc_stats_json,
    heap_stats, heap_stats_json, monitor_line, scoped_thread_heap, set_thread_heap, HeapRegistry,
    HeapStats, HeapVisit, PluginHeap, PluginStats, ThreadHeap,
};

/// An area with blocks of one size.
fn area(used: usize, block_size: usize, committed: usize) -> HeapVisit {
    HeapVisit { used, block_size, committed, block: 0 }
}

#[test]
fn test_single_plugin_tracks_allocations() {
    let mut registry = HeapRegistry::new();
    let (heap, _) = create_heap(&mut registry, "test-plugin-single", 0x1000);

    let visits = vec![area(1, 64 * 1024, 128 * 1024)];
    let stats = heap_stats(heap, &visits);
    assert!(stats.used >= 64 * 1024, "used={} should be >= 64KB", stats.used);
    assert!(
        stats.committed >= stats.used,
        "committed={} should be >= used={}",
        stats.committed,
        stats.used
    );
}

#[test]
fn test_multiple_plugins_track_independently() {
    let mut registry = HeapRegistry::new();
    let (heap_a, _) = create_heap(&mut registry, "test-plugin-A", 0x1000);
    let (heap_b, _) = create_heap(&mut registry, "test-plugin-B", 0x2000);

    let stats_a = heap_stats(heap_a, &vec![area(1, 128 * 1024, 128 * 1024)]);
    let stats_b = heap_stats(heap_b, &vec![area(1, 256 * 1024, 256 * 1024)]);

    assert!(stats_a.used >= 128 * 1024, "plugin A used={} should be >= 128KB", stats_a.used);
    assert!(stats_b.used >= 256 * 1024, "plugin B used={} should be >= 256KB", stats_b.used);
    assert!(
        stats_b.used > stats_a.used,
        "plugin B used={} should be > plugin A used={}",
        stats_b.used,
        stats_a.used
    );
}

#[test]
fn test_stats_decrease_after_deallocation() {
    let mut registry = HeapRegistry::new();
    let (heap, _) = create_heap(&mut registry, "test-plugin-dealloc", 0x1000);

    let used_while_alive = heap_stats(heap, &vec![area(1, 512 * 1024, 512 * 1024)]).used;
    assert!(
        used_while_alive >= 512 * 1024,
        "used={} should be >= 512KB while allocated",
        used_while_alive
    );

    let used_after_free = heap_stats(heap, &vec![area(0, 512 * 1024, 512 * 1024)]).used;
    assert!(
        used_after_free < used_while_alive,
        "used after free={} should be < used before free={}",
        used_after_free,
        used_while_alive
    );
}

#[test]
fn test_all_plugin_stats_contains_registered_plugins() {
    let mut registry = HeapRegistry::new();
    let (_heap, _) = create_heap(&mut registry, "test-plugin-registry-check", 0x1000);

    let all = all_plugin_stats(&registry, &vec![vec![]]);
    let found = all.iter().any(|ps| ps.name == "test-plugin-registry-check");
    assert!(found, "all_plugin_stats should contain 'test-plugin-registry-check'");
}

#[test]
fn test_null_heap_returns_zero_stats() {
    let null_heap = PluginHeap { address: 0 };
    let stats = heap_stats(null_heap, &vec![area(3, 100, 1000)]);
    assert_eq!(stats.used, 0);
    assert_eq!(stats.committed, 0);
}

#[test]
fn test_cross_thread_heap_allocation() {
    let mut registry = HeapRegistry::new();
    let (heap, _) = create_heap(&mut registry, "test-plugin-cross-thread", 0x1000);

    let mut worker = ThreadHeap { heap: PluginHeap { address: 0x9000 } };
    set_thread_heap(&mut worker, heap);
    assert_eq!(worker.heap, heap);

    let stats = heap_stats(worker.heap, &vec![area(1, 128 * 1024, 128 * 1024)]);
    assert!(
        stats.used >= 128 * 1024,
        "used={} should be >= 128KB after cross-thread alloc",
        stats.used
    );
}

#[test]
fn areas_add_up_and_blocks_are_not_counted() {
    let block = HeapVisit { used: 9, block_size: 9, committed: 9, block: 0x5000 };
    let visits = vec![area(2, 16, 4096), block, area(3, 100, 8192)];
    let stats = heap_stats(PluginHeap { address: 1 }, &visits);
    assert_eq!((stats.used, stats.committed), (332, 12288));
    let more = count_visit(stats, &area(1, 8, 0));
    assert_eq!((more.used, more.committed), (340, 12288));
    let same = count_visit(stats, &block);
    assert_eq!((same.used, same.committed), (332, 12288));
    let start = HeapStats::default();
    let around = count_visit(start, &area(usize::MAX, 2, usize::MAX));
    assert_eq!((around.used, around.committed), (usize::MAX - 1, usize::MAX));
}

#[test]
fn the_first_heap_starts_the_monitor() {
    let mut registry = HeapRegistry::new();
    assert_eq!(registry.len(), 0);
    let (first, start) = create_heap(&mut registry, "a", 16);
    let (_, again) = create_heap(&mut registry, "b", 32);
    assert!(start);
    assert!(!again);
    assert_eq!(first.address, 16);
    assert_eq!(registry.len(), 2);
    assert_eq!(registry.heap(1).address, 32);
}

#[test]
fn every_plugin_is_counted_from_its_own_heap() {
    let mut registry = HeapRegistry::new();
    create_heap(&mut registry, "a", 16);
    create_heap(&mut registry, "b", 32);
    let visits = vec![vec![area(1, 2048, 4096)], vec![area(2, 3000, 8192)]];
    let all = all_plugin_stats(&registry, &visits);
    assert_eq!(all.len(), 2);
    assert_eq!((all[0].name, all[0].stats.used, all[0].stats.committed), ("a", 2048, 4096));
    assert_eq!((all[1].name, all[1].stats.used, all[1].stats.committed), ("b", 6000, 8192));
    assert_eq!(monitor_line(&all[1]), "[heap-monitor] plugin='b' used=5KB committed=8KB");
    assert_eq!(
        heap_stats_json(&all),
        "[{\"name\":\"a\",\"used\":2048,\"committed\":4096},\
         {\"name\":\"b\",\"used\":6000,\"committed\":8192}]"
    );
}

#[test]
fn no_plugins_are_an_empty_array() {
    let none: Vec<PluginStats> = vec![];
    assert_eq!(heap_stats_json(&none), "[]");
}

#[test]
fn nested_scopes_restore_the_heap() {
    let start = PluginHeap { address: 1 };
    let mut thread = ThreadHeap { heap: start };
    let outer = scoped_thread_heap(&mut thread, PluginHeap { address: 2 });
    let inner = scoped_thread_heap(&mut thread, PluginHeap { address: 3 });
    assert_eq!(thread.heap.address, 3);
    set_thread_heap(&mut thread, PluginHeap { address: 4 });
    inner.restore(&mut thread);
    assert_eq!(thread.heap.address, 2);
    outer.restore(&mut thread);
    assert_eq!(thread.heap, start);
}

#[test]
fn committed_bytes_are_picked_out() {
    let raw = "{\"process\": {\"committed\": 1}, \
               \"committed\": {\"total\": 9, \"peak\": 77, \"current\": 55}}";
    assert_eq!(
        global_mimalloc_stats_json(Some(raw)),
        "{\"current_commit\":55,\"peak_commit\":77}"
    );
    let nothing = "{\"current_commit\":0,\"peak_commit\":0}";
    assert_eq!(global_mimalloc_stats_json(None), nothing);
    assert_eq!(global_mimalloc_stats_json(Some("no json")), nothing);
    assert_eq!(global_mimalloc_stats_json(Some("{\"committed\": [1]}")), nothing);
    assert_eq!(
        global_mimalloc_stats_json(Some("{\"committed\": {\"current\": -4, \"peak\": 6}}")),
        "{\"current_commit\":0,\"peak_commit\":6}"
    );
    assert_eq!(
        commit_stats_json(Some(u64::MAX), None),
        "{\"current_commit\":18446744073709551615,\"peak_commit\":0}"
    );
}
