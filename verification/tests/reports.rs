use plugin_memory::allocator::StatsMib;
use plugin_memory::counters::{
    assign_slot, count_change, flush_if_needed, read_live_bytes_registry, thread_slot,
    trailer_layout, GlobalCounters, LocalCounters, SlotCounter, ThreadCounters, FLUSH_INTERVAL,
};
use plugin_memory::layout::BlockLayout;
use plugin_memory::mallctl::Mallctl;
use plugin_memory::metrics::{native_mimalloc_metrics_start, report, tick, Metrics, Peaks};
use plugin_memory::numeric::{low_byte, signed_count, signed_word, unsigned_count};
use plugin_memory::query::{
    fail_step, first_step, next_step, query_environment, query_settings, QueryProgress, QueryStep,
    Source,
};
use plugin_memory::text::{push_decimal, replace_char, same_text};

#[test]
fn metrics_start_once() {
    let mut metrics = Metrics { started: false };
    assert_eq!(native_mimalloc_metrics_start(&mut metrics, 0), Some(1));
    assert_eq!(native_mimalloc_metrics_start(&mut metrics, 9), None);
    let mut other = Metrics { started: false };
    assert_eq!(native_mimalloc_metrics_start(&mut other, 9), Some(9));
}

#[test]
fn peaks_never_fall() {
    let mb = 1024 * 1024;
    let mut peaks = Peaks::new();
    assert_eq!(
        report(&mut peaks, 5 * mb + 1, 7 * mb),
        "[mimalloc-metrics] allocated=5MB peak_allocated=5MB resident=7MB peak_resident=7MB"
    );
    assert_eq!(
        report(&mut peaks, 2 * mb, 9 * mb - 1),
        "[mimalloc-metrics] allocated=2MB peak_allocated=5MB resident=8MB peak_resident=8MB"
    );
    assert_eq!((peaks.allocated, peaks.resident), (5 * mb + 1, 9 * mb - 1));
}

#[test]
fn a_tick_reports_the_process() {
    let mut ctl = Mallctl::new();
    let mib = StatsMib::resolve(&mut ctl).unwrap();
    let mut peaks = Peaks::new();
    let data: Vec<u8> = std::hint::black_box(vec![3u8; 8 * 1024 * 1024]);
    let line = tick(&mut ctl, &mib, &mut peaks).unwrap();
    assert!(line.starts_with("[mimalloc-metrics] allocated="));
    assert!(peaks.allocated >= data.len() as u64);
    assert!(peaks.resident >= data.len() as u64);
}

#[test]
fn slots_go_round() {
    let mut counter = SlotCounter { assigned: 63 };
    assert_eq!(assign_slot(&mut counter), 63);
    assert_eq!(assign_slot(&mut counter), 0);
    assert_eq!(assign_slot(&mut counter), 1);
    let mut last = SlotCounter { assigned: usize::MAX };
    assert_eq!(assign_slot(&mut last), 63);
    assert_eq!(last.assigned, 0);
    let mut own = 0;
    assert_eq!(thread_slot(&mut own, &mut last), 1);
    assert_eq!(thread_slot(&mut own, &mut last), 1);
    assert_eq!(last.assigned, 1);
    let mut other = 0;
    last.assigned = 40;
    assert_eq!(thread_slot(&mut other, &mut last), 40);
}

#[test]
fn a_trailer_takes_one_byte() {
    let layout = BlockLayout::from_size_align(64, 8).unwrap();
    let wrapped = trailer_layout(layout);
    assert_eq!((wrapped.size, wrapped.align), (65, 8));
}

#[test]
fn counters_of_threads_are_added_up() {
    let mut first = ThreadCounters { deltas: [0; 16] };
    let mut second = ThreadCounters { deltas: [0; 16] };
    first.deltas[3] = 100;
    second.deltas[3] = -40;
    second.deltas[4] = 7;
    let threads = vec![first, second];
    assert_eq!(read_live_bytes_registry(&threads, 3), 60);
    assert_eq!(read_live_bytes_registry(&threads, 4), 7);
    assert_eq!(read_live_bytes_registry(&vec![], 4), 0);
}

#[test]
fn counters_are_handed_over_in_time() {
    let mut local = LocalCounters::new();
    let mut global = GlobalCounters { bytes: [0; 16] };
    for _ in 0..FLUSH_INTERVAL - 1 {
        count_change(&mut local, 2, 10);
        flush_if_needed(&mut local, &mut global);
    }
    assert_eq!(global.bytes[2], 0);
    assert_eq!(local.deltas[2], 2550);
    count_change(&mut local, 2, 10);
    count_change(&mut local, 5, -3);
    flush_if_needed(&mut local, &mut global);
    assert_eq!((global.bytes[2], global.bytes[5], global.bytes[0]), (2560, -3, 0));
    assert_eq!((local.deltas[2], local.deltas[5], local.count), (0, 0, 0));
}

#[test]
fn a_query_takes_its_steps_in_order() {
    let mut steps = vec![first_step()];
    loop {
        match next_step(*steps.last().unwrap(), &Ok(())) {
            QueryProgress::Go(step) => steps.push(step),
            QueryProgress::Done => break,
            QueryProgress::Failed(_) => panic!("failed"),
        }
    }
    assert_eq!(
        steps,
        vec![
            QueryStep::ListFiles,
            QueryStep::BuildRuntime,
            QueryStep::BuildSession,
            QueryStep::InferSchema,
            QueryStep::CreateTable,
            QueryStep::RegisterTable,
            QueryStep::DecodePlan,
            QueryStep::PlanLogical,
            QueryStep::ExecuteLogical,
            QueryStep::PlanPhysical,
            QueryStep::OpenStream,
            QueryStep::HandOut,
        ]
    );
}

#[test]
fn a_failed_step_ends_the_query() {
    let logged = [
        (QueryStep::BuildRuntime, "Failed to build runtime env: x"),
        (QueryStep::InferSchema, "Failed to infer schema: x"),
        (QueryStep::CreateTable, "Failed to create listing table: x"),
        (QueryStep::RegisterTable, "Failed to register table: x"),
        (QueryStep::OpenStream, "Failed to create execution stream: x"),
    ];
    for (step, line) in logged {
        match next_step(step, &Err("x".to_string())) {
            QueryProgress::Failed(failure) => {
                assert_eq!(failure.logged.as_deref(), Some(line));
                assert!(failure.replaced.is_none());
            }
            _ => panic!("went on"),
        }
    }
    let decode = fail_step(QueryStep::DecodePlan, "x");
    assert!(decode.logged.is_none());
    assert_eq!(decode.replaced.as_deref(), Some("Failed to decode Substrait: x"));
    let plan = fail_step(QueryStep::PlanLogical, "x");
    assert!(plan.logged.is_none() && plan.replaced.is_none());
}

#[test]
fn a_query_has_its_settings() {
    let settings = query_settings();
    assert!(!settings.pushdown_filters);
    assert_eq!(settings.target_partitions, 16);
    assert_eq!(settings.batch_size, 8192);
    assert_eq!(settings.file_extension, ".parquet");
    assert!(settings.collect_stat);
}

#[test]
fn integers_keep_their_bits() {
    assert_eq!(signed_word(u64::MAX), -1);
    assert_eq!(signed_count(5), 5);
    assert_eq!(unsigned_count(-1), usize::MAX);
    assert_eq!(unsigned_count(7), 7);
    assert_eq!(low_byte(256 + 3), 3);
    assert_eq!(low_byte(-1), 255);
}

#[test]
fn text_is_built_piece_by_piece() {
    let mut text = String::from("n=");
    push_decimal(&mut text, 0);
    push_decimal(&mut text, 1234567890);
    push_decimal(&mut text, u64::MAX);
    assert_eq!(text, "n=0123456789018446744073709551615");
    assert_eq!(replace_char("a.b..c", '.', "/"), "a/b//c");
    assert_eq!(replace_char("é.ü", '.', "_"), "é_ü");
    assert!(same_text("a", "a"));
    assert!(!same_text("a", "b"));
}

#[test]
fn a_query_shares_all_but_its_files_and_its_pool() {
    let environment = query_environment(true);
    assert_eq!(environment.memory_pool, Source::Own);
    assert_eq!(environment.file_list, Source::Own);
    assert_eq!(environment.file_metadata, Source::Shared);
    assert_eq!(environment.file_statistics, Source::Shared);
    let environment = query_environment(false);
    assert_eq!(environment.memory_pool, Source::Shared);
    assert_eq!(environment.file_list, Source::Own);
}
