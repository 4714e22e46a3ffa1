use plugin_memory::memory_budget::{
    attempt_reserve, limit_log, memory_limit, peak, release, reserve_total, reserved, reset_peak,
    set_memory_limit, try_reserve, Attempt, MemoryBudget,
};

#[test]
fn only_the_limit_that_is_set_is_logged() {
    let mut budget = MemoryBudget::new();
    let line = "Parquet plugin memory limit set to 3MB".to_string();
    assert_eq!(limit_log(&budget, 4 * 1024 * 1024 - 1), Some(line));
    set_memory_limit(&mut budget, 1000);
    assert_eq!(limit_log(&budget, 5), None);
}

#[test]
fn the_first_limit_stays() {
    let mut budget = MemoryBudget::new();
    assert_eq!(memory_limit(&budget), usize::MAX);
    set_memory_limit(&mut budget, 1000);
    set_memory_limit(&mut budget, 5);
    assert_eq!(memory_limit(&budget), 1000);
}

#[test]
fn what_does_not_fit_is_refused_and_changes_nothing() {
    let mut budget = MemoryBudget::new();
    set_memory_limit(&mut budget, 1000);
    assert_eq!(try_reserve(&mut budget, 600), Ok(()));
    assert_eq!(
        try_reserve(&mut budget, 401),
        Err("Parquet plugin memory limit exceeded: requested 401B, current 600B, limit 1000B"
            .to_string())
    );
    assert_eq!(reserved(&budget), 600);
    assert_eq!(peak(&budget), 600);
    assert_eq!(try_reserve(&mut budget, 400), Ok(()));
    assert_eq!(reserved(&budget), 1000);
}

#[test]
fn giving_back_makes_room() {
    let mut budget = MemoryBudget::new();
    set_memory_limit(&mut budget, 100);
    try_reserve(&mut budget, 80).unwrap();
    assert!(try_reserve(&mut budget, 30).is_err());
    release(&mut budget, 10);
    assert_eq!(try_reserve(&mut budget, 30), Ok(()));
    assert_eq!(reserved(&budget), 100);
}

#[test]
fn the_peak_is_the_most_that_was_reserved() {
    let mut budget = MemoryBudget::new();
    try_reserve(&mut budget, 70).unwrap();
    release(&mut budget, 50);
    try_reserve(&mut budget, 10).unwrap();
    assert_eq!((reserved(&budget), peak(&budget)), (30, 70));
    reset_peak(&mut budget);
    assert_eq!((reserved(&budget), peak(&budget)), (30, 30));
}

#[test]
fn a_reservation_does_not_run_over() {
    assert_eq!(reserve_total(5, usize::MAX, usize::MAX), Ok(usize::MAX));
    assert_eq!(reserve_total(5, 6, 11), Ok(11));
    assert!(reserve_total(5, usize::MAX, usize::MAX - 1).is_err());
    assert_eq!(
        reserve_total(5, 6, 10),
        Err("Parquet plugin memory limit exceeded: requested 6B, current 5B, limit 10B".to_string())
    );
}

#[test]
fn giving_back_what_was_not_reserved_wraps() {
    let mut budget = MemoryBudget::new();
    release(&mut budget, 1);
    assert_eq!(reserved(&budget), usize::MAX);
}

#[test]
fn what_is_reserved_is_what_was_granted() {
    let mut budget = MemoryBudget::new();
    set_memory_limit(&mut budget, 100);
    let granted: usize =
        [40, 70, 30, 31, 30, 1].into_iter().filter(|b| try_reserve(&mut budget, *b).is_ok()).sum();
    assert_eq!(granted, 100);
    assert_eq!(reserved(&budget), 100);
}

#[test]
fn a_stale_attempt_takes_nothing() {
    let mut budget = MemoryBudget::new();
    set_memory_limit(&mut budget, 100);
    let seen = reserved(&budget);
    assert!(matches!(attempt_reserve(&mut budget, seen, 60), Attempt::Granted));
    assert!(matches!(attempt_reserve(&mut budget, seen, 60), Attempt::Retry));
    assert_eq!((reserved(&budget), peak(&budget)), (60, 60));
    let seen = reserved(&budget);
    match attempt_reserve(&mut budget, seen, 60) {
        Attempt::Refused(message) => assert_eq!(
            message,
            "Parquet plugin memory limit exceeded: requested 60B, current 60B, limit 100B"
        ),
        _ => panic!("not refused"),
    }
    assert_eq!((reserved(&budget), peak(&budget)), (60, 60));
}
