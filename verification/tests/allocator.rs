use plugin_memory::accounting;
use plugin_memory::allocator::{
    allocated_bytes, bind_thread, bind_thread_to_plugin, collect_stats, current_plugin_id,
    monitor_goes_on, monitor_report, native_bind_thread_to_plugin,
    native_jemalloc_allocated_bytes, native_jemalloc_resident_bytes,
    native_jemalloc_set_dirty_decay_ms, native_jemalloc_set_muzzy_decay_ms,
    native_plugin_live_bytes, native_start_plugin_monitor, native_stop_plugin_monitor,
    plugin_live_bytes, plugin_live_bytes_by_id, plugin_name, refresh_log, register_plugin,
    registered_plugin_count, report_usage, resident_bytes, settle_setting, start_plugin_monitor,
    stop_plugin_monitor, totals_failure_line, PluginMonitor, PluginRegistry, StatsMib,
    ThreadBinding, MAX_PLUGINS,
};
use plugin_memory::layout::BlockLayout;
use plugin_memory::mallctl::Mallctl;
use plugin_memory::tracking::{Allocation, CounterUpdate, Resize, TrackingAllocator};
use tikv_jemalloc_ctl::{Access, AsName};

/// A block and what has to be known to free it.
struct Block {
    layout: BlockLayout,
    header: u8,
    ptr: usize,
}

/// Allocates bytes as a thread would, at an address.
fn take(
    allocator: &mut TrackingAllocator,
    thread: &ThreadBinding,
    size: usize,
    base: usize,
) -> Block {
    let layout = BlockLayout::from_size_align(size, 1).unwrap();
    match TrackingAllocator::allocate(thread, layout, base) {
        Allocation::Block { header, ptr, update } => {
            allocator.apply(update);
            Block { layout, header, ptr }
        }
        Allocation::Null => panic!("no memory"),
    }
}

/// Frees a block, whichever thread it is.
fn give_back(allocator: &mut TrackingAllocator, block: Block) {
    let release = TrackingAllocator::deallocate(block.layout, block.header);
    if let Some(update) = release.update {
        allocator.apply(update);
    }
}

#[test]
fn allocated_bytes_is_positive() {
    let mut ctl = Mallctl::new();
    let mib = StatsMib::resolve(&mut ctl).unwrap();
    assert!(allocated_bytes(&mut ctl, &mib).unwrap() > 0);
}

#[test]
fn resident_bytes_is_positive() {
    let mut ctl = Mallctl::new();
    let mib = StatsMib::resolve(&mut ctl).unwrap();
    assert!(resident_bytes(&mut ctl, &mib).unwrap() > 0);
}

#[test]
fn native_statistics_grow_with_what_is_allocated() {
    let mut ctl = Mallctl::new();
    let mib = StatsMib::resolve(&mut ctl).unwrap();
    let before = native_jemalloc_allocated_bytes(&mut ctl, &mib).unwrap();
    let data: Vec<u8> = std::hint::black_box(vec![7u8; 8 * 1024 * 1024]);
    let after = native_jemalloc_allocated_bytes(&mut ctl, &mib).unwrap();
    assert!(after >= before + 8 * 1024 * 1024, "{} after {}", after, before);
    assert!(native_jemalloc_resident_bytes(&mut ctl, &mib).unwrap() >= data.len() as i64);
}

#[test]
fn allocated_increases_after_allocation() {
    let mut registry = PluginRegistry::new();
    let mut allocator = TrackingAllocator::new();
    let mut thread = ThreadBinding::new();
    let handle = register_plugin(&mut registry, "test_alloc_increases");
    bind_thread(&mut thread, &handle);
    let before = plugin_live_bytes(&allocator, &handle);
    let data: Vec<u8> = vec![42u8; 1024 * 1024];
    let _data = take(&mut allocator, &thread, data.len(), 0x1000);
    let after = plugin_live_bytes(&allocator, &handle);
    assert!(
        after >= before + 1024 * 1024,
        "expected {after} >= {} (before + 1MB)",
        before + 1024 * 1024
    );
    bind_thread_to_plugin(&mut thread, 0);
    assert_eq!(current_plugin_id(&thread), 0);
}

#[test]
fn plugin_tracking_basic() {
    let mut registry = PluginRegistry::new();
    let mut allocator = TrackingAllocator::new();
    let mut thread = ThreadBinding::new();
    let handle = register_plugin(&mut registry, "test_basic");
    bind_thread(&mut thread, &handle);
    let before = plugin_live_bytes(&allocator, &handle);

    let data = take(&mut allocator, &thread, 1024 * 1024, 0x1000);
    let after = plugin_live_bytes(&allocator, &handle);
    assert!(after > before, "expected {after} > {before} after 1MB alloc");

    give_back(&mut allocator, data);
    let after_drop = plugin_live_bytes(&allocator, &handle);
    assert!(after_drop < after, "expected {after_drop} < {after} after drop");

    bind_thread_to_plugin(&mut thread, 0);
}

#[test]
fn cross_plugin_free_credits_original() {
    let mut registry = PluginRegistry::new();
    let mut allocator = TrackingAllocator::new();
    let mut thread = ThreadBinding::new();
    let df = register_plugin(&mut registry, "test_cross_df");
    let pq = register_plugin(&mut registry, "test_cross_pq");

    bind_thread(&mut thread, &df);
    let df_before = plugin_live_bytes(&allocator, &df);

    let data: Vec<u8> = vec![42u8; 512 * 1024];
    let data = take(&mut allocator, &thread, data.len(), 0x1000);
    let df_after_alloc = plugin_live_bytes(&allocator, &df);
    assert!(df_after_alloc > df_before);

    bind_thread(&mut thread, &pq);
    let pq_before = plugin_live_bytes(&allocator, &pq);
    give_back(&mut allocator, data);

    let df_after_free = plugin_live_bytes(&allocator, &df);
    let pq_after_free = plugin_live_bytes(&allocator, &pq);

    assert!(
        df_after_free < df_after_alloc,
        "datafusion should decrease: {} < {}",
        df_after_free,
        df_after_alloc
    );
    assert_eq!(
        pq_before, pq_after_free,
        "parquet should be unchanged: {} == {}",
        pq_before, pq_after_free
    );

    bind_thread_to_plugin(&mut thread, 0);
}

#[test]
fn cross_plugin_free_multithreaded() {
    let mut registry = PluginRegistry::new();
    let mut allocator = TrackingAllocator::new();
    let alloc_handle = register_plugin(&mut registry, "test_mt_alloc");
    let free_handle = register_plugin(&mut registry, "test_mt_free");
    let alloc_id = alloc_handle.id();
    let free_id = free_handle.id();

    let mut alloc_thread = ThreadBinding::new();
    bind_thread_to_plugin(&mut alloc_thread, alloc_id);
    let before = plugin_live_bytes_by_id(&allocator, alloc_id);
    let data = vec![42u8; 256 * 1024];
    let data = take(&mut allocator, &alloc_thread, data.len(), 0x1000);
    let after_alloc = plugin_live_bytes_by_id(&allocator, alloc_id);
    assert!(
        after_alloc >= before + 256 * 1024,
        "alloc should increase by >=256KB: before={}, after={}",
        before,
        after_alloc
    );

    let mut free_thread = ThreadBinding::new();
    bind_thread_to_plugin(&mut free_thread, free_id);
    let before = plugin_live_bytes_by_id(&allocator, free_id);
    give_back(&mut allocator, data);
    let after = plugin_live_bytes_by_id(&allocator, free_id);
    assert_eq!(before, after, "free plugin should be unchanged: {} == {}", before, after);

    let after_free = plugin_live_bytes_by_id(&allocator, alloc_id);
    assert!(
        after_free < after_alloc,
        "alloc plugin should decrease after cross-thread free: {} < {}",
        after_free,
        after_alloc
    );
}

#[test]
fn set_dirty_decay_ms_applies_at_runtime() {
    let mut ctl = Mallctl::new();
    let rc = native_jemalloc_set_dirty_decay_ms(&mut ctl, 5000);
    assert_eq!(rc, Ok(0), "setter should succeed, got {:?}", rc);
    let actual: isize = b"arena.0.dirty_decay_ms\0".name().read().unwrap();
    assert_eq!(actual, 5000);
    native_jemalloc_set_dirty_decay_ms(&mut ctl, 30000).unwrap();
}

#[test]
fn set_muzzy_decay_ms_applies_at_runtime() {
    let mut ctl = Mallctl::new();
    let rc = native_jemalloc_set_muzzy_decay_ms(&mut ctl, 10000);
    assert_eq!(rc, Ok(0), "setter should succeed, got {:?}", rc);
    let actual: isize = b"arena.0.muzzy_decay_ms\0".name().read().unwrap();
    assert_eq!(actual, 10000);
    native_jemalloc_set_muzzy_decay_ms(&mut ctl, 30000).unwrap();
}

#[test]
fn one_arena_that_takes_a_setting_is_enough() {
    let refused: Result<(), String> = Err("no".to_string());
    assert_eq!(settle_setting("s", &vec![refused.clone(), Ok(()), refused.clone()]), Ok(0));
    assert_eq!(
        settle_setting("s", &vec![refused.clone(), refused]),
        Err("failed to set s on any arena".to_string())
    );
    assert_eq!(settle_setting("s", &vec![]), Err("failed to set s on any arena".to_string()));
}

#[test]
fn the_first_failed_step_of_the_statistics_is_named() {
    let no = |text: &str| text.to_string();
    assert_eq!(collect_stats(&Ok(1), &Ok(10), &Ok(20)), Ok((10, 20)));
    assert_eq!(
        collect_stats(&Err(no("a")), &Err(no("b")), &Err(no("c"))),
        Err("jemalloc epoch advance failed: a".to_string())
    );
    assert_eq!(
        collect_stats(&Ok(1), &Err(no("b")), &Err(no("c"))),
        Err("jemalloc allocated read failed: b".to_string())
    );
    assert_eq!(
        collect_stats(&Ok(1), &Ok(2), &Err(no("c"))),
        Err("jemalloc resident read failed: c".to_string())
    );
    assert_eq!(collect_stats(&Ok(1), &Ok(usize::MAX), &Ok(0)), Ok((-1, 0)));
}

#[test]
fn plugins_are_numbered_in_the_order_of_registration() {
    let mut registry = PluginRegistry::new();
    assert_eq!(registered_plugin_count(&registry), 0);
    let first = register_plugin(&mut registry, "first");
    let second = register_plugin(&mut registry, "second");
    assert_eq!((first.id(), second.id()), (1, 2));
    assert_eq!(registered_plugin_count(&registry), 2);
    assert_eq!(plugin_name(&registry, 0), Some("untagged"));
    assert_eq!(plugin_name(&registry, 1), Some("first"));
    assert_eq!(plugin_name(&registry, 2), Some("second"));
    assert_eq!(plugin_name(&registry, 3), None);
    for _ in 3..MAX_PLUGINS {
        register_plugin(&mut registry, "more");
    }
    assert_eq!(registered_plugin_count(&registry), 15);
    assert_eq!(plugin_name(&registry, 15), Some("more"));
}

#[test]
fn a_number_out_of_range_is_refused() {
    let allocator = TrackingAllocator::new();
    let mut thread = ThreadBinding::new();
    assert_eq!(native_bind_thread_to_plugin(&mut thread, 15), Ok(0));
    assert_eq!(
        native_bind_thread_to_plugin(&mut thread, 16),
        Err("plugin_id 16 exceeds MAX_PLUGINS 16".to_string())
    );
    assert_eq!(current_plugin_id(&thread), 15);
    assert_eq!(plugin_live_bytes_by_id(&allocator, 16), 0);
    assert_eq!(native_plugin_live_bytes(&allocator, 255), 0);
}

#[test]
fn usage_is_reported_by_plugin_and_in_all() {
    let mut registry = PluginRegistry::new();
    let mut allocator = TrackingAllocator::new();
    register_plugin(&mut registry, "one");
    register_plugin(&mut registry, "two");
    allocator.apply(CounterUpdate { plugin: 0, added: 1, removed: 0 });
    allocator.apply(CounterUpdate { plugin: 1, added: 10, removed: 0 });
    allocator.apply(CounterUpdate { plugin: 2, added: 100, removed: 0 });
    allocator.apply(CounterUpdate { plugin: 3, added: 1000, removed: 0 });
    let report = report_usage(&registry, &allocator);
    assert_eq!(report.plugins.len(), 2);
    assert_eq!((report.plugins[0].name, report.plugins[0].bytes), ("one", 10));
    assert_eq!((report.plugins[1].name, report.plugins[1].bytes), ("two", 100));
    assert_eq!(report.untagged, 1);
    assert_eq!(report.tracked_total, 111);
    assert_eq!(native_plugin_live_bytes(&allocator, 3), 1000);

    let mut ctl = Mallctl::new();
    let mib = StatsMib::resolve(&mut ctl).unwrap();
    let whole = monitor_report(&registry, &allocator, &mut ctl, &mib);
    assert_eq!(whole.usage.tracked_total, 111);
    assert!(whole.totals.unwrap().0 > 0);
    assert_eq!(totals_failure_line("why"), "[jemalloc-total] stats read failed: why");
}

/// Starts a monitor and returns its interval and number, if one is started.
fn start(monitor: &mut PluginMonitor, interval_secs: i64) -> Result<Option<(u64, u64)>, String> {
    let started = native_start_plugin_monitor(monitor, interval_secs)?;
    Ok(started.map(|start| (start.interval, start.generation)))
}

#[test]
fn the_monitor_is_started_once_until_it_is_stopped() {
    let mut monitor = PluginMonitor { running: false, generation: 0 };
    assert_eq!(start_plugin_monitor(&mut monitor), Some(1));
    assert_eq!(start_plugin_monitor(&mut monitor), None);
    stop_plugin_monitor(&mut monitor);
    assert_eq!(start(&mut monitor, 5), Ok(Some((5, 2))));
    assert_eq!(start(&mut monitor, 5), Ok(None));
    assert_eq!(start(&mut monitor, 0), Err("interval must be positive".to_string()));
    assert!(monitor.running);
    assert_eq!(native_stop_plugin_monitor(&mut monitor), 0);
    assert!(!monitor.running);
}

#[test]
fn a_stopped_monitor_does_not_go_on_beside_the_next() {
    let mut monitor = PluginMonitor { running: false, generation: u64::MAX };
    let first = start_plugin_monitor(&mut monitor).unwrap();
    assert_eq!(first, 0);
    assert!(monitor_goes_on(&monitor, first));
    stop_plugin_monitor(&mut monitor);
    assert!(!monitor_goes_on(&monitor, first));
    let second = start_plugin_monitor(&mut monitor).unwrap();
    assert!(!monitor_goes_on(&monitor, first));
    assert!(monitor_goes_on(&monitor, second));
}

#[test]
fn a_block_lies_behind_its_header() {
    let thread = ThreadBinding::new();
    let layout = BlockLayout::from_size_align(100, 64).unwrap();
    let wrapped = layout.wrap().unwrap();
    assert_eq!((wrapped.size, wrapped.align, wrapped.offset), (192, 64, 64));
    match TrackingAllocator::allocate(&thread, layout, 0x4000) {
        Allocation::Block { header, ptr, update } => {
            assert_eq!(header, 0);
            assert_eq!(ptr, 0x4040);
            assert_eq!(update, CounterUpdate { plugin: 0, added: 100, removed: 0 });
            assert_eq!(TrackingAllocator::header_of(layout, ptr), 0x4000);
        }
        Allocation::Null => panic!("no memory"),
    }
    assert_eq!(TrackingAllocator::allocate(&thread, layout, 0), Allocation::Null);
}

#[test]
fn layouts_are_those_of_the_standard_library() {
    let shapes = [(0, 1), (1, 1), (7, 8), (64, 8), (1024, 8), (4096, 64), (65536, 64), (5, 4096)];
    for (size, align) in shapes {
        let ours = BlockLayout::from_size_align(size, align).unwrap().wrap().unwrap();
        let block = std::alloc::Layout::from_size_align(size, align).unwrap();
        let (whole, offset) = std::alloc::Layout::new::<u8>().extend(block).unwrap();
        let whole = whole.pad_to_align();
        assert_eq!((ours.size, ours.align, ours.offset), (whole.size(), whole.align(), offset));
    }
    let half = isize::MAX as usize + 1;
    for (size, align) in [(1, 3), (1, 0), (half, 1), (half - 1, 2), (half, half), (0, half)] {
        assert_eq!(
            BlockLayout::from_size_align(size, align).is_some(),
            std::alloc::Layout::from_size_align(size, align).is_ok()
        );
    }
    assert!(BlockLayout::from_size_align(isize::MAX as usize, 1).unwrap().wrap().is_none());
}

#[test]
fn a_block_without_an_owner_is_freed_and_not_credited() {
    let layout = BlockLayout::from_size_align(32, 8).unwrap();
    let release = TrackingAllocator::deallocate(layout, 16);
    assert_eq!(release.update, None);
    assert_eq!(release.wrapped.size, 40);
    match TrackingAllocator::plan_reallocate(layout, 200, 16) {
        Resize::Move { old, new_layout, copied } => {
            assert_eq!(old.size, 40);
            assert_eq!((new_layout.size, new_layout.align), (16, 8));
            assert_eq!(copied, 16);
        }
        _ => panic!("should move"),
    }
}

#[test]
fn resizing_keeps_the_owner() {
    let mut allocator = TrackingAllocator::new();
    let mut thread = ThreadBinding::new();
    bind_thread_to_plugin(&mut thread, 4);
    let block = take(&mut allocator, &thread, 100, 0x1000);
    match TrackingAllocator::plan_reallocate(block.layout, block.header, 300) {
        Resize::InPlace { old, new } => assert_eq!((old.size, new.size), (101, 301)),
        _ => panic!("should stay in place"),
    }
    match TrackingAllocator::reallocate(block.layout, block.header, 300, 0x2000) {
        Allocation::Block { header, ptr, update } => {
            assert_eq!(header, 4);
            assert_eq!(ptr, 0x2001);
            allocator.apply(update);
        }
        Allocation::Null => panic!("no memory"),
    }
    assert_eq!(plugin_live_bytes_by_id(&allocator, 4), 300);
    assert_eq!(TrackingAllocator::reallocate(block.layout, 4, 300, 0), Allocation::Null);
    assert!(matches!(
        TrackingAllocator::plan_reallocate(block.layout, 4, usize::MAX),
        Resize::Refuse
    ));
    let whole = BlockLayout::from_size_align(300, 1).unwrap();
    give_back(&mut allocator, Block { layout: whole, header: 4, ptr: block.ptr });
    assert_eq!(plugin_live_bytes_by_id(&allocator, 4), 0);
}

#[test]
fn counters_account_for_a_history() {
    let mut allocator = TrackingAllocator::new();
    let mut blocks = Vec::new();
    for plugin in [1u8, 2, 1, 3] {
        let mut thread = ThreadBinding::new();
        bind_thread_to_plugin(&mut thread, plugin);
        blocks.push(take(&mut allocator, &thread, 10 * plugin as usize, 0x1000));
    }
    give_back(&mut allocator, blocks.remove(0));
    for plugin in 0..MAX_PLUGINS as u8 {
        let live: usize = blocks
            .iter()
            .map(|b| accounting::LiveBlock { plugin: b.header, size: b.layout.size })
            .filter(|b| b.plugin == plugin)
            .map(|b| b.size)
            .sum();
        assert_eq!(plugin_live_bytes_by_id(&allocator, plugin), live);
    }
    assert_eq!(plugin_live_bytes_by_id(&allocator, 1), 10);
}

#[test]
fn changes_can_be_applied_in_any_order() {
    let first = CounterUpdate { plugin: 1, added: 5, removed: 0 };
    let second = CounterUpdate { plugin: 1, added: 0, removed: 9 };
    let mut forth = TrackingAllocator::new();
    forth.apply(first);
    forth.apply(second);
    let mut back = TrackingAllocator::new();
    back.apply(second);
    back.apply(first);
    assert_eq!(forth.live_bytes_of(1), back.live_bytes_of(1));
    assert_eq!(back.live_bytes_of(1), usize::MAX - 3);
    assert_eq!(back.live_bytes_of(2), 0);
}

#[test]
fn slow_reads_are_called_slow() {
    assert_eq!(
        refresh_log(100),
        (false, "[jemalloc-stats] refresh_stats took 100 µs".to_string())
    );
    assert_eq!(
        refresh_log(101),
        (true, "[jemalloc-stats] refresh_stats took 101 µs (SLOW)".to_string())
    );
}
