use plugin_memory::allocator::StatsMib;
use plugin_memory::mallctl::Mallctl;
use plugin_memory::plugin_arena::{
    arenas_for_cpus, bind_thread, choose_arena, native_plugin_allocated_bytes,
    native_plugin_bind_thread, native_plugin_count, native_plugin_register,
    native_plugin_register_with_arenas, native_start_plugin_monitor, plugin_allocated_bytes,
    plugin_allocated_bytes_no_epoch, register_plugin, register_plugin_auto,
    register_plugin_with_arenas, report_arenas, settle_binding, sum_arena_bytes, sum_plugin_bytes,
    ArenaBinding, ArenaMonitor, PluginArenas, StatsMibs,
};
use tikv_jemalloc_ctl::{Access, AsName};

fn current_arena() -> u32 {
    b"thread.arena\0".name().read().unwrap()
}

#[test]
fn register_and_bind() {
    let mut registry = PluginArenas::new();
    let mut ctl = Mallctl::new();
    let mut thread = ArenaBinding { plugin: 0 };
    let mibs = StatsMibs::resolve(&mut ctl).unwrap();
    let pid = register_plugin(&mut registry, &mut ctl).unwrap();
    assert!(pid > 0);
    bind_thread(&registry, &mut ctl, &mut thread, pid as u8, 7).unwrap();
    let _data: Vec<u8> = std::hint::black_box(vec![42u8; 64 * 1024]);
    let bytes = plugin_allocated_bytes(&registry, &mut ctl, &mibs, pid as u8).unwrap();
    assert!(bytes >= 64 * 1024, "expected >= 64KB, got {}", bytes);
    bind_thread(&registry, &mut ctl, &mut thread, 0, 7).unwrap();
}

#[test]
fn variable_arenas() {
    let mut registry = PluginArenas::new();
    let mut ctl = Mallctl::new();
    let mut thread = ArenaBinding { plugin: 0 };
    let mibs = StatsMibs::resolve(&mut ctl).unwrap();
    let pid = register_plugin_with_arenas(&mut registry, &mut ctl, 16).unwrap() as u8;
    bind_thread(&registry, &mut ctl, &mut thread, pid, 3).unwrap();
    let _data: Vec<u8> = std::hint::black_box(vec![0u8; 128 * 1024]);
    let bytes = plugin_allocated_bytes(&registry, &mut ctl, &mibs, pid).unwrap();
    assert!(bytes >= 128 * 1024, "expected >= 128KB, got {}", bytes);
    bind_thread(&registry, &mut ctl, &mut thread, 0, 3).unwrap();
}

#[test]
fn cross_plugin_free_works() {
    let mut registry = PluginArenas::new();
    let mut ctl = Mallctl::new();
    let mut thread = ArenaBinding { plugin: 0 };
    let mibs = StatsMibs::resolve(&mut ctl).unwrap();
    let p1 = register_plugin_with_arenas(&mut registry, &mut ctl, 8).unwrap() as u8;
    let p2 = register_plugin_with_arenas(&mut registry, &mut ctl, 4).unwrap() as u8;
    bind_thread(&registry, &mut ctl, &mut thread, p1, 1).unwrap();
    let data: Vec<u8> = std::hint::black_box(vec![99u8; 512 * 1024]);
    let p1_before = plugin_allocated_bytes(&registry, &mut ctl, &mibs, p1).unwrap();
    bind_thread(&registry, &mut ctl, &mut thread, p2, 1).unwrap();
    drop(data);
    let p1_after = plugin_allocated_bytes(&registry, &mut ctl, &mibs, p1).unwrap();
    assert!(p1_after >= 0);
    assert!(p1_after < p1_before);
}

#[test]
fn plugins_get_consecutive_numbers_up_to_sixteen() {
    let mut registry = PluginArenas::new();
    let mut ctl = Mallctl::new();
    assert_eq!(native_plugin_count(&registry), 0);
    for id in 1..=16 {
        assert_eq!(native_plugin_register_with_arenas(&mut registry, &mut ctl, 1), Ok(id));
    }
    assert_eq!(native_plugin_count(&registry), 16);
    assert_eq!(
        native_plugin_register(&mut registry, &mut ctl),
        Err("max plugins (16) exceeded".to_string())
    );
    assert_eq!(native_plugin_count(&registry), 16);
}

#[test]
fn a_group_has_one_to_sixty_four_arenas() {
    let mut registry = PluginArenas::new();
    let mut ctl = Mallctl::new();
    let refused = Err("n_arenas must be 1..64".to_string());
    assert_eq!(register_plugin_with_arenas(&mut registry, &mut ctl, 0), refused);
    assert_eq!(register_plugin_with_arenas(&mut registry, &mut ctl, 65), refused);
    assert_eq!(native_plugin_register_with_arenas(&mut registry, &mut ctl, -1), refused);
    assert_eq!(register_plugin_with_arenas(&mut registry, &mut ctl, 64), Ok(1));
}

#[test]
fn every_processor_has_an_arena() {
    assert_eq!(arenas_for_cpus(0), 1);
    assert_eq!(arenas_for_cpus(8), 8);
    assert_eq!(arenas_for_cpus(64), 64);
    assert_eq!(arenas_for_cpus(100), 64);
    let mut registry = PluginArenas::new();
    let mut ctl = Mallctl::new();
    assert_eq!(register_plugin_auto(&mut registry, &mut ctl), Ok(1));
}

#[test]
fn threads_are_spread_over_the_group() {
    let mut registry = PluginArenas::new();
    registry.add_plugin(vec![10, 11, 12]);
    registry.add_plugin(vec![20]);
    assert_eq!(choose_arena(&registry, 1, 0), Ok(10));
    assert_eq!(choose_arena(&registry, 1, 5), Ok(12));
    assert_eq!(choose_arena(&registry, 2, 5), Ok(20));
    assert_eq!(
        choose_arena(&registry, 3, 5),
        Err("plugin_id 3 not registered (max=2)".to_string())
    );
}

#[test]
fn the_thread_gets_the_chosen_arena() {
    let mut registry = PluginArenas::new();
    let mut ctl = Mallctl::new();
    let mut thread = ArenaBinding { plugin: 0 };
    let pid = register_plugin_with_arenas(&mut registry, &mut ctl, 3).unwrap();
    let chosen = choose_arena(&registry, pid as u8, 4).unwrap();
    assert_eq!(native_plugin_bind_thread(&registry, &mut ctl, &mut thread, 256 + pid, 4), Ok(0));
    assert_eq!(thread.plugin, pid as u8);
    assert_eq!(current_arena(), chosen);
    assert_eq!(bind_thread(&registry, &mut ctl, &mut thread, 0, 4), Ok(0));
    assert_eq!(thread.plugin, 0);
    assert_eq!(current_arena(), 0);
}

#[test]
fn a_plugin_that_is_not_registered_has_no_arenas() {
    let mut registry = PluginArenas::new();
    let mut ctl = Mallctl::new();
    let mut thread = ArenaBinding { plugin: 1 };
    let mibs = StatsMibs::resolve(&mut ctl).unwrap();
    registry.add_plugin(vec![0]);
    assert_eq!(
        bind_thread(&registry, &mut ctl, &mut thread, 2, 0),
        Err("plugin_id 2 not registered (max=1)".to_string())
    );
    assert_eq!(thread.plugin, 1);
    assert_eq!(
        plugin_allocated_bytes(&registry, &mut ctl, &mibs, 0),
        Err("plugin_id 0 (untagged) has no dedicated arenas".to_string())
    );
    assert_eq!(
        native_plugin_allocated_bytes(&registry, &mut ctl, &mibs, 2),
        Err("plugin_id 2 not registered".to_string())
    );
    assert_eq!(plugin_allocated_bytes_no_epoch(&registry, &mut ctl, &mibs, 0), 0);
    assert_eq!(plugin_allocated_bytes_no_epoch(&registry, &mut ctl, &mibs, 2), 0);
}

#[test]
fn an_arena_that_jemalloc_does_not_have_cannot_be_bound() {
    let mut registry = PluginArenas::new();
    let mut ctl = Mallctl::new();
    let mut thread = ArenaBinding { plugin: 3 };
    registry.add_plugin(vec![4000]);
    let status = bind_thread(&registry, &mut ctl, &mut thread, 1, 0);
    assert!(status.unwrap_err().starts_with("thread.arena write failed: "));
    assert_eq!(thread.plugin, 3);
}

#[test]
fn a_binding_is_settled_by_what_jemalloc_answers() {
    let mut registry = PluginArenas::new();
    registry.add_plugin(vec![10]);
    let no: Result<(), String> = Err("no".to_string());
    let mut thread = ArenaBinding { plugin: 9 };
    assert_eq!(
        settle_binding(&registry, &mut thread, 1, &no),
        Err("thread.arena write failed: no".to_string())
    );
    assert_eq!(thread.plugin, 9);
    assert_eq!(
        settle_binding(&registry, &mut thread, 0, &no),
        Err("thread.arena reset failed: no".to_string())
    );
    assert_eq!(thread.plugin, 0);
    assert_eq!(settle_binding(&registry, &mut thread, 1, &Ok(())), Ok(0));
    assert_eq!(thread.plugin, 1);
}

#[test]
fn bytes_are_added_up() {
    assert_eq!(sum_arena_bytes(&vec![]), 0);
    assert_eq!(sum_arena_bytes(&vec![(1, 2), (30, 40)]), 73);
    assert_eq!(sum_arena_bytes(&vec![(usize::MAX, 0)]), -1);
    assert_eq!(sum_plugin_bytes(&vec![5, -7, 100]), 98);
    assert_eq!(sum_plugin_bytes(&vec![i64::MAX, 1]), i64::MIN);
}

#[test]
fn a_report_covers_every_plugin() {
    let mut registry = PluginArenas::new();
    let mut ctl = Mallctl::new();
    let mut thread = ArenaBinding { plugin: 0 };
    let mibs = StatsMibs::resolve(&mut ctl).unwrap();
    let stats = StatsMib::resolve(&mut ctl).unwrap();
    register_plugin_with_arenas(&mut registry, &mut ctl, 2).unwrap();
    register_plugin_with_arenas(&mut registry, &mut ctl, 1).unwrap();
    bind_thread(&registry, &mut ctl, &mut thread, 2, 0).unwrap();
    let data: Vec<u8> = std::hint::black_box(vec![1u8; 256 * 1024]);
    bind_thread(&registry, &mut ctl, &mut thread, 0, 0).unwrap();
    let report = report_arenas(&registry, &mut ctl, &mibs, &stats).unwrap();
    assert_eq!(report.plugins.len(), 2);
    assert!(report.plugins[1] >= data.len() as i64);
    assert!(report.plugins[0] < data.len() as i64);
    assert_eq!(report.tracked_total, report.plugins[0] + report.plugins[1]);
    assert!(report.allocated >= data.len());
    assert!(report.resident >= data.len());
    assert_eq!(
        plugin_allocated_bytes_no_epoch(&registry, &mut ctl, &mibs, 2),
        report.plugins[1]
    );
}

#[test]
fn the_arena_monitor_starts_once() {
    let mut monitor = ArenaMonitor { running: false };
    assert_eq!(native_start_plugin_monitor(&mut monitor, -5), Some(1));
    assert_eq!(native_start_plugin_monitor(&mut monitor, 10), None);
    let mut other = ArenaMonitor { running: false };
    assert_eq!(native_start_plugin_monitor(&mut other, 10), Some(10));
}
