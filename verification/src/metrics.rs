//! Periodic reports on the memory of the whole process.
use crate::allocator::StatsMib;
use crate::mallctl;
use crate::mallctl::{Exchange, Mallctl};
use crate::text;
use vstd::prelude::*;
use vstd::string::*;

verus! {

/// Whether the reports have been started.
pub struct Metrics {
    pub started: bool,
}

/// Starts the reports. Only the first call does; it gives back the interval in
/// seconds, at least 1.
pub fn native_mimalloc_metrics_start(metrics: &mut Metrics, interval_secs: i64) -> (started: Option<
    u64,
>)
    ensures
        final(metrics).started,
        started == (if old(metrics).started {
            None
        } else if interval_secs < 1 {
            Some(1u64)
        } else {
            Some(interval_secs as u64)
        }),
{
    if metrics.started {
        return None;
    }
    metrics.started = true;
    if interval_secs < 1 {
        Some(1)
    } else {
        Some(interval_secs as u64)
    }
}

/// The largest numbers that were reported.
#[derive(Clone, Copy, Debug)]
pub struct Peaks {
    pub allocated: u64,
    pub resident: u64,
}

impl Peaks {
    /// Nothing was reported.
    pub fn new() -> (peaks: Peaks)
        ensures
            peaks == (Peaks { allocated: 0, resident: 0 }),
    {
        Peaks { allocated: 0, resident: 0 }
    }
}

/// The larger of two numbers.
pub open spec fn larger(x: u64, y: u64) -> u64 {
    if x < y {
        y
    } else {
        x
    }
}

/// The peaks with what is reported now.
pub open spec fn raised(peaks: Peaks, allocated: u64, resident: u64) -> Peaks {
    Peaks {
        allocated: larger(peaks.allocated, allocated),
        resident: larger(peaks.resident, resident),
    }
}

/// Whole mebibytes in decimal.
pub open spec fn mebibytes(bytes: u64) -> Seq<char> {
    text::decimal((bytes / 1048576) as nat)
}

/// A report, from the numbers now and the peaks.
pub open spec fn report_text(allocated: u64, resident: u64, peaks: Peaks) -> Seq<char> {
    "[mimalloc-metrics] allocated="@ + mebibytes(allocated) + "MB peak_allocated="@ + mebibytes(
        peaks.allocated,
    ) + "MB resident="@ + mebibytes(resident) + "MB peak_resident="@ + mebibytes(peaks.resident)
        + "MB"@
}

/// Takes the numbers of now into the peaks and spells the report.
pub fn report(peaks: &mut Peaks, allocated: u64, resident: u64) -> (line: String)
    ensures
        *final(peaks) == raised(*old(peaks), allocated, resident),
        line@ == report_text(allocated, resident, *final(peaks)),
{
    if peaks.allocated < allocated {
        peaks.allocated = allocated;
    }
    if peaks.resident < resident {
        peaks.resident = resident;
    }
    let mut line = "[mimalloc-metrics] allocated=".to_owned();
    text::push_decimal(&mut line, allocated / 1048576);
    line.append("MB peak_allocated=");
    text::push_decimal(&mut line, peaks.allocated / 1048576);
    line.append("MB resident=");
    text::push_decimal(&mut line, resident / 1048576);
    line.append("MB peak_resident=");
    text::push_decimal(&mut line, peaks.resident / 1048576);
    line.append("MB");
    line
}

/// A number that was read, or 0 if it could not be.
pub open spec fn or_zero(answer: Result<usize, String>) -> u64 {
    match answer {
        Ok(bytes) => bytes as u64,
        Err(_) => 0,
    }
}

/// What is exchanged with jemalloc for a report.
pub open spec fn tick_steps(
    advanced: Result<u64, String>,
    allocated: Result<usize, String>,
    resident: Result<usize, String>,
) -> Seq<Exchange> {
    match advanced {
        Err(_) => seq![Exchange::Advance(advanced)],
        Ok(_) => seq![
            Exchange::Advance(advanced),
            Exchange::ReadAllocated(allocated),
            Exchange::ReadResident(resident),
        ],
    }
}

/// `line` is what the answers of jemalloc come to. There is no report if the
/// statistics cannot be refreshed.
pub open spec fn ticked(
    advanced: Result<u64, String>,
    allocated: Result<usize, String>,
    resident: Result<usize, String>,
    before: Peaks,
    after: Peaks,
    line: Option<String>,
) -> bool {
    match advanced {
        Err(_) => after == before && line is None,
        Ok(_) => {
            &&& after == raised(before, or_zero(allocated), or_zero(resident))
            &&& line is Some
            &&& line->Some_0@ == report_text(or_zero(allocated), or_zero(resident), after)
        },
    }
}

/// `line` is what the exchange `steps` comes to.
pub open spec fn tick_read(
    steps: Seq<Exchange>,
    before: Peaks,
    after: Peaks,
    line: Option<String>,
) -> bool {
    exists|
        advanced: Result<u64, String>,
        allocated: Result<usize, String>,
        resident: Result<usize, String>,
    |
        steps == tick_steps(advanced, allocated, resident) && #[trigger] ticked(
            advanced,
            allocated,
            resident,
            before,
            after,
            line,
        )
}

/// Refreshes the statistics and makes a report.
pub fn tick(ctl: &mut Mallctl, mib: &StatsMib, peaks: &mut Peaks) -> (line: Option<String>)
    ensures
        old(ctl)@.is_prefix_of(final(ctl)@),
        tick_read(final(ctl)@.skip(old(ctl)@.len() as int), *old(peaks), *final(peaks), line),
{
    let ghost before = ctl@;
    let advanced = mallctl::advance_epoch(ctl, &mib.epoch);
    if advanced.is_err() {
        assert(ctl@.skip(before.len() as int) =~= tick_steps(advanced, Ok(0), Ok(0)));
        assert(ticked(advanced, Ok(0), Ok(0), *peaks, *peaks, None));
        return None;
    }
    let allocated = mallctl::read_allocated(ctl, &mib.allocated);
    let resident = mallctl::read_resident(ctl, &mib.resident);
    let ghost answers = (allocated, resident);
    let allocated_bytes: u64 = match allocated {
        Ok(bytes) => bytes as u64,
        Err(_) => 0,
    };
    let resident_bytes: u64 = match resident {
        Ok(bytes) => bytes as u64,
        Err(_) => 0,
    };
    let line = Some(report(peaks, allocated_bytes, resident_bytes));
    assert(ctl@.skip(before.len() as int) =~= tick_steps(advanced, answers.0, answers.1));
    assert(ticked(advanced, answers.0, answers.1, *old(peaks), *peaks, line));
    line
}

/// The peaks after reports of these numbers, allocated and resident.
pub open spec fn peaks_after(peaks: Peaks, numbers: Seq<(u64, u64)>) -> Peaks
    decreases numbers.len(),
{
    if numbers.len() == 0 {
        peaks
    } else {
        raised(peaks_after(peaks, numbers.drop_last()), numbers.last().0, numbers.last().1)
    }
}

/// No number that was reported is above the peak, and the peaks never fall.
pub proof fn law_peaks_bound_the_reports(peaks: Peaks, numbers: Seq<(u64, u64)>)
    ensures
        peaks.allocated <= peaks_after(peaks, numbers).allocated,
        peaks.resident <= peaks_after(peaks, numbers).resident,
        forall|i: int|
            0 <= i < numbers.len() ==> (#[trigger] numbers[i]).0 <= peaks_after(
                peaks,
                numbers,
            ).allocated && numbers[i].1 <= peaks_after(peaks, numbers).resident,
    decreases numbers.len(),
{
    if numbers.len() > 0 {
        let earlier = numbers.drop_last();
        law_peaks_bound_the_reports(peaks, earlier);
        assert forall|i: int| 0 <= i < numbers.len() implies (#[trigger] numbers[i]).0
            <= peaks_after(peaks, numbers).allocated && numbers[i].1 <= peaks_after(
            peaks,
            numbers,
        ).resident by {
            if i < earlier.len() {
                assert(earlier[i] == numbers[i]);
            }
        }
    }
}

/// A number that was answered, or 0.
pub open spec fn answered(answer: Result<usize, String>) -> int {
    if answer is Ok {
        answer->Ok_0 as int
    } else {
        0
    }
}

/// A report is made exactly if the statistics can be refreshed. It is made of the
/// allocated and the resident bytes that are answered then, and each peak becomes
/// the larger of what it was and of its own number. Without a report the peaks
/// stay.
pub proof fn law_report_is_what_is_answered(
    steps: Seq<Exchange>,
    before: Peaks,
    after: Peaks,
    line: Option<String>,
)
    requires
        tick_read(steps, before, after, line),
    ensures
        steps.len() > 0,
        steps[0] matches Exchange::Advance(answer) && (line is Some <==> answer is Ok),
        line is None ==> steps.len() == 1 && after == before,
        line is Some ==> steps.len() == 3 && (steps[1] matches Exchange::ReadAllocated(allocated)
            && (steps[2] matches Exchange::ReadResident(resident) && {
            &&& after.allocated >= before.allocated
            &&& after.allocated >= answered(allocated)
            &&& after.allocated == before.allocated || after.allocated == answered(allocated)
            &&& after.resident >= before.resident
            &&& after.resident >= answered(resident)
            &&& after.resident == before.resident || after.resident == answered(resident)
            &&& line->Some_0@ == "[mimalloc-metrics] allocated="@ + text::decimal(
                (answered(allocated) / 1048576) as nat,
            ) + "MB peak_allocated="@ + text::decimal((after.allocated / 1048576) as nat)
                + "MB resident="@ + text::decimal((answered(resident) / 1048576) as nat)
                + "MB peak_resident="@ + text::decimal((after.resident / 1048576) as nat) + "MB"@
        })),
{
    let (advanced, allocated, resident) = choose|
        advanced: Result<u64, String>,
        allocated: Result<usize, String>,
        resident: Result<usize, String>,
    |
        steps == tick_steps(advanced, allocated, resident) && #[trigger] ticked(
            advanced,
            allocated,
            resident,
            before,
            after,
            line,
        );
    assert(steps[0] == Exchange::Advance(advanced));
    if advanced is Ok {
        assert(steps[1] == Exchange::ReadAllocated(allocated));
        assert(steps[2] == Exchange::ReadResident(resident));
        assert(or_zero(allocated) == answered(allocated));
        assert(or_zero(resident) == answered(resident));
    }
}

/// A peak is a number that was reported, or what it was at the start.
pub proof fn law_peaks_are_reached(peaks: Peaks, numbers: Seq<(u64, u64)>)
    ensures
        peaks_after(peaks, numbers).allocated == peaks.allocated || exists|i: int|
            0 <= i < numbers.len() && (#[trigger] numbers[i]).0 == peaks_after(
                peaks,
                numbers,
            ).allocated,
        peaks_after(peaks, numbers).resident == peaks.resident || exists|i: int|
            0 <= i < numbers.len() && (#[trigger] numbers[i]).1 == peaks_after(
                peaks,
                numbers,
            ).resident,
    decreases numbers.len(),
{
    if numbers.len() > 0 {
        let earlier = numbers.drop_last();
        law_peaks_are_reached(peaks, earlier);
        let before = peaks_after(peaks, earlier);
        let after = peaks_after(peaks, numbers);
        assert(numbers[numbers.len() - 1] == numbers.last());
        if after.allocated == before.allocated && after.allocated != peaks.allocated {
            let i = choose|i: int|
                0 <= i < earlier.len() && (#[trigger] earlier[i]).0 == before.allocated;
            assert(numbers[i] == earlier[i]);
        }
        if after.resident == before.resident && after.resident != peaks.resident {
            let i = choose|i: int|
                0 <= i < earlier.len() && (#[trigger] earlier[i]).1 == before.resident;
            assert(numbers[i] == earlier[i]);
        }
    }
}

} // verus!
