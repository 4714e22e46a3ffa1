//! A budget of memory that writers and sorts reserve before they use it.
//!
//! The limit is set once, at startup. What needs much memory calls
//! [`try_reserve`] first and [`release`] when it is done.
use crate::numeric;
use crate::text;
use vstd::prelude::*;
use vstd::string::*;

verus! {

/// The limit, what is reserved, and the most that was reserved.
pub struct MemoryBudget {
    /// The limit in bytes, once it is set.
    pub limit: Option<usize>,
    /// Bytes that are reserved.
    pub reserved: usize,
    /// The most bytes that were reserved.
    pub peak: usize,
}

impl MemoryBudget {
    /// The most bytes that can be reserved.
    pub open spec fn bound(self) -> usize {
        match self.limit {
            Some(limit) => limit,
            None => usize::MAX,
        }
    }

    /// No more is reserved than the limit admits, and the peak is not behind.
    pub open spec fn wf(self) -> bool {
        self.reserved <= self.bound() && self.reserved <= self.peak
    }

    /// No limit is set and nothing is reserved.
    pub fn new() -> (budget: MemoryBudget)
        ensures
            budget == (MemoryBudget { limit: None, reserved: 0, peak: 0 }),
            budget.wf(),
    {
        MemoryBudget { limit: None, reserved: 0, peak: 0 }
    }
}

/// The budget once a limit is set. A limit that is set already stays.
pub open spec fn limited_to(budget: MemoryBudget, limit: usize) -> MemoryBudget {
    match budget.limit {
        Some(_) => budget,
        None => MemoryBudget { limit: Some(limit), ..budget },
    }
}

/// Sets the limit, unless it is set already.
pub fn set_memory_limit(budget: &mut MemoryBudget, limit: usize)
    ensures
        *final(budget) == limited_to(*old(budget), limit),
{
    if budget.limit.is_none() {
        budget.limit = Some(limit);
    }
}

/// Says what goes to the log before the limit is set: nothing if it is set already.
pub fn limit_log(budget: &MemoryBudget, limit: usize) -> (line: Option<String>)
    ensures
        line is Some <==> budget.limit is None,
        line is Some ==> line->Some_0@ == "Parquet plugin memory limit set to "@ + text::decimal(
            (limit / 1048576) as nat,
        ) + "MB"@,
{
    if budget.limit.is_some() {
        return None;
    }
    let mut line = "Parquet plugin memory limit set to ".to_owned();
    text::push_decimal(&mut line, (limit / 1048576) as u64);
    line.append("MB");
    Some(line)
}

/// Returns the limit, or `usize::MAX` if none is set.
pub fn memory_limit(budget: &MemoryBudget) -> (limit: usize)
    ensures
        limit == budget.bound(),
{
    match budget.limit {
        Some(limit) => limit,
        None => usize::MAX,
    }
}

/// What is reserved after `bytes` more. It does not grow past `usize::MAX`.
pub open spec fn total_after(current: usize, bytes: usize) -> usize {
    if current + bytes > usize::MAX {
        usize::MAX
    } else {
        (current + bytes) as usize
    }
}

/// The message for a reservation that does not fit.
pub open spec fn exceeded_text(bytes: usize, current: usize, limit: usize) -> Seq<char> {
    "Parquet plugin memory limit exceeded: requested "@ + text::decimal(bytes as nat)
        + "B, current "@ + text::decimal(current as nat) + "B, limit "@ + text::decimal(
        limit as nat,
    ) + "B"@
}

/// Says what would be reserved after `bytes` more, or that they do not fit.
///
/// One attempt at a reservation, from the bytes that are reserved now.
pub fn reserve_total(current: usize, bytes: usize, limit: usize) -> (total: Result<usize, String>)
    ensures
        total_after(current, bytes) <= limit ==> total == Ok::<usize, String>(
            total_after(current, bytes),
        ),
        total_after(current, bytes) > limit ==> total is Err && total->Err_0@ == exceeded_text(
            bytes,
            current,
            limit,
        ),
{
    let total: usize = current.saturating_add(bytes);
    if total > limit {
        let mut message = "Parquet plugin memory limit exceeded: requested ".to_owned();
        text::push_decimal(&mut message, bytes as u64);
        message.append("B, current ");
        text::push_decimal(&mut message, current as u64);
        message.append("B, limit ");
        text::push_decimal(&mut message, limit as u64);
        message.append("B");
        return Err(message);
    }
    Ok(total)
}

/// The larger of two counts.
pub open spec fn larger(x: usize, y: usize) -> usize {
    if x < y {
        y
    } else {
        x
    }
}

/// The budget once `total` bytes are reserved.
pub open spec fn raised_to(budget: MemoryBudget, total: usize) -> MemoryBudget {
    MemoryBudget { reserved: total, peak: larger(budget.peak, total), ..budget }
}

/// The reservation of `bytes` fits.
pub open spec fn fits(budget: MemoryBudget, bytes: usize) -> bool {
    total_after(budget.reserved, bytes) <= budget.bound()
}

/// What an attempt at a reservation comes to.
pub enum Attempt {
    /// The bytes are reserved.
    Granted,
    /// They do not fit, with the message.
    Refused(String),
    /// Something else was reserved or given back in between.
    Retry,
}

/// An attempt that is made with `current` bytes in mind is refused.
pub open spec fn refuses(budget: MemoryBudget, current: usize, bytes: usize) -> bool {
    total_after(current, bytes) > budget.bound()
}

/// An attempt that is made with `current` bytes in mind is granted.
pub open spec fn grants(budget: MemoryBudget, current: usize, bytes: usize) -> bool {
    !refuses(budget, current, bytes) && current == budget.reserved
}

/// Makes one attempt at a reservation with `current` bytes in mind, which may no
/// longer be what is reserved.
pub fn attempt_reserve(budget: &mut MemoryBudget, current: usize, bytes: usize) -> (attempt:
    Attempt)
    ensures
        attempt is Granted <==> grants(*old(budget), current, bytes),
        attempt is Refused <==> refuses(*old(budget), current, bytes),
        attempt is Refused ==> attempt->Refused_0@ == exceeded_text(
            bytes,
            current,
            old(budget).bound(),
        ),
        *final(budget) == (if attempt is Granted {
            raised_to(*old(budget), total_after(current, bytes))
        } else {
            *old(budget)
        }),
{
    match reserve_total(current, bytes, memory_limit(budget)) {
        Err(message) => Attempt::Refused(message),
        Ok(total) => {
            if budget.reserved != current {
                return Attempt::Retry;
            }
            budget.reserved = total;
            if budget.peak < total {
                budget.peak = total;
            }
            Attempt::Granted
        },
    }
}

/// Reserves `bytes`, or says that the limit would be exceeded.
pub fn try_reserve(budget: &mut MemoryBudget, bytes: usize) -> (done: Result<(), String>)
    ensures
        fits(*old(budget), bytes) ==> done is Ok && *final(budget) == raised_to(
            *old(budget),
            total_after(old(budget).reserved, bytes),
        ),
        !fits(*old(budget), bytes) ==> *final(budget) == *old(budget) && done is Err
            && done->Err_0@ == exceeded_text(bytes, old(budget).reserved, old(budget).bound()),
{
    let current: usize = budget.reserved;
    match attempt_reserve(budget, current, bytes) {
        Attempt::Refused(message) => Err(message),
        _ => Ok(()),
    }
}

/// The budget once `bytes` are given back.
pub open spec fn lowered_by(budget: MemoryBudget, bytes: usize) -> MemoryBudget {
    MemoryBudget {
        reserved: ((budget.reserved - bytes) % numeric::usize_modulus()) as usize,
        ..budget
    }
}

/// Gives `bytes` back. The count wraps if they were not reserved.
pub fn release(budget: &mut MemoryBudget, bytes: usize)
    ensures
        *final(budget) == lowered_by(*old(budget), bytes),
        bytes <= old(budget).reserved ==> final(budget).reserved == old(budget).reserved - bytes,
{
    proof {
        numeric::lemma_wrapping_sub(budget.reserved, bytes);
        if bytes <= budget.reserved {
            lemma_release(*budget, bytes);
        }
    }
    budget.reserved = budget.reserved.wrapping_sub(bytes);
}

/// Giving back what was reserved does not wrap.
proof fn lemma_release(budget: MemoryBudget, bytes: usize)
    requires
        bytes <= budget.reserved,
    ensures
        lowered_by(budget, bytes).reserved == budget.reserved - bytes,
{
    vstd::arithmetic::div_mod::lemma_small_mod(
        (budget.reserved - bytes) as nat,
        numeric::usize_modulus() as nat,
    );
}

/// Returns the bytes that are reserved.
pub fn reserved(budget: &MemoryBudget) -> (bytes: usize)
    ensures
        bytes == budget.reserved,
{
    budget.reserved
}

/// Returns the most bytes that were reserved.
pub fn peak(budget: &MemoryBudget) -> (bytes: usize)
    ensures
        bytes == budget.peak,
{
    budget.peak
}

/// Starts the peak anew from what is reserved.
pub fn reset_peak(budget: &mut MemoryBudget)
    ensures
        *final(budget) == (MemoryBudget { peak: old(budget).reserved, ..*old(budget) }),
{
    budget.peak = budget.reserved;
}

/// A use of a budget.
pub enum BudgetStep {
    /// [`set_memory_limit`]
    SetLimit(usize),
    /// [`try_reserve`]
    Reserve(usize),
    /// [`release`]
    Release(usize),
    /// [`reset_peak`]
    ResetPeak,
}

/// The budget after a use of it.
pub open spec fn stepped(budget: MemoryBudget, step: BudgetStep) -> MemoryBudget {
    match step {
        BudgetStep::SetLimit(limit) => limited_to(budget, limit),
        BudgetStep::Reserve(bytes) => if fits(budget, bytes) {
            raised_to(budget, total_after(budget.reserved, bytes))
        } else {
            budget
        },
        BudgetStep::Release(bytes) => lowered_by(budget, bytes),
        BudgetStep::ResetPeak => MemoryBudget { peak: budget.reserved, ..budget },
    }
}

/// The budget after several uses of it.
pub open spec fn after_steps(budget: MemoryBudget, steps: Seq<BudgetStep>) -> MemoryBudget
    decreases steps.len(),
{
    if steps.len() == 0 {
        budget
    } else {
        stepped(after_steps(budget, steps.drop_last()), steps.last())
    }
}

/// No more is given back than is reserved, and no limit is set below what is
/// reserved.
pub open spec fn orderly_step(budget: MemoryBudget, step: BudgetStep) -> bool {
    match step {
        BudgetStep::Release(bytes) => bytes <= budget.reserved,
        BudgetStep::SetLimit(limit) => budget.limit is Some || budget.reserved <= limit,
        _ => true,
    }
}

/// Each use is orderly at its time.
pub open spec fn orderly(budget: MemoryBudget, steps: Seq<BudgetStep>) -> bool {
    forall|i: int|
        0 <= i < steps.len() ==> orderly_step(
            after_steps(budget, steps.take(i)),
            #[trigger] steps[i],
        )
}

/// The uses but the last of an orderly sequence are orderly.
proof fn lemma_orderly_before(budget: MemoryBudget, steps: Seq<BudgetStep>)
    requires
        orderly(budget, steps),
        steps.len() > 0,
    ensures
        orderly(budget, steps.drop_last()),
        orderly_step(after_steps(budget, steps.drop_last()), steps.last()),
{
    let earlier = steps.drop_last();
    assert forall|i: int| 0 <= i < earlier.len() implies orderly_step(
        after_steps(budget, earlier.take(i)),
        #[trigger] earlier[i],
    ) by {
        assert(earlier[i] == steps[i]);
        assert(earlier.take(i) =~= steps.take(i));
    }
    let last = steps.len() - 1;
    assert(steps[last] == steps.last());
    assert(steps.take(last) =~= earlier);
}

/// As long as the budget is used in an orderly way, the limit is kept and the
/// peak is not behind.
pub proof fn law_limit_is_kept(budget: MemoryBudget, steps: Seq<BudgetStep>)
    requires
        budget.wf(),
        orderly(budget, steps),
    ensures
        after_steps(budget, steps).wf(),
    decreases steps.len(),
{
    if steps.len() > 0 {
        let earlier = steps.drop_last();
        lemma_orderly_before(budget, steps);
        law_limit_is_kept(budget, earlier);
        if let BudgetStep::Release(bytes) = steps.last() {
            lemma_release(after_steps(budget, earlier), bytes);
        }
    }
}

/// Without a reset, the peak is the most that was reserved at any time, counted
/// from the peak at the start.
pub proof fn law_peak_is_the_maximum(budget: MemoryBudget, steps: Seq<BudgetStep>)
    requires
        budget.wf(),
        orderly(budget, steps),
        forall|i: int| 0 <= i < steps.len() ==> (#[trigger] steps[i]) !is ResetPeak,
    ensures
        forall|i: int|
            0 <= i <= steps.len() ==> #[trigger] after_steps(budget, steps.take(i)).reserved
                <= after_steps(budget, steps).peak,
        budget.peak <= after_steps(budget, steps).peak,
        after_steps(budget, steps).peak == budget.peak || exists|i: int|
            0 <= i <= steps.len() && #[trigger] after_steps(budget, steps.take(i)).reserved
                == after_steps(budget, steps).peak,
    decreases steps.len(),
{
    assert(steps.take(steps.len() as int) =~= steps);
    law_limit_is_kept(budget, steps);
    if steps.len() > 0 {
        let earlier = steps.drop_last();
        let last = steps.len() - 1;
        assert(steps.take(last) =~= earlier);
        assert(steps[last] == steps.last());
        lemma_orderly_before(budget, steps);
        assert forall|i: int| 0 <= i < earlier.len() implies (#[trigger] earlier[i]) !is ResetPeak by {
            assert(earlier[i] == steps[i]);
        }
        law_peak_is_the_maximum(budget, earlier);
        let middle = after_steps(budget, earlier);
        let end = after_steps(budget, steps);
        assert(end == stepped(middle, steps.last()));
        assert forall|i: int| 0 <= i <= steps.len() implies #[trigger] after_steps(
            budget,
            steps.take(i),
        ).reserved <= end.peak by {
            if i < steps.len() {
                assert(earlier.take(i) =~= steps.take(i));
                assert(after_steps(budget, earlier.take(i)).reserved <= middle.peak);
            }
        }
        if end.peak != budget.peak {
            if end.peak == middle.peak {
                let i = choose|i: int|
                    0 <= i <= earlier.len() && #[trigger] after_steps(
                        budget,
                        earlier.take(i),
                    ).reserved == middle.peak;
                assert(earlier.take(i) =~= steps.take(i));
                assert(after_steps(budget, steps.take(i)).reserved == end.peak);
            } else {
                assert(after_steps(budget, steps.take(steps.len() as int)).reserved == end.peak);
            }
        }
    } else {
        assert(after_steps(budget, steps.take(0)) == budget);
        assert forall|i: int| 0 <= i <= steps.len() implies #[trigger] after_steps(
            budget,
            steps.take(i),
        ).reserved <= after_steps(budget, steps).peak by {
            assert(steps.take(i) =~= steps);
        }
    }
}

/// Giving back what was just reserved restores what was reserved, as long as
/// the reservation did not run into the largest count.
pub proof fn law_release_undoes_reserve(budget: MemoryBudget, bytes: usize)
    requires
        fits(budget, bytes),
        budget.reserved + bytes <= usize::MAX,
    ensures
        stepped(stepped(budget, BudgetStep::Reserve(bytes)), BudgetStep::Release(bytes)).reserved
            == budget.reserved,
{
    lemma_release(stepped(budget, BudgetStep::Reserve(bytes)), bytes);
}

/// What was refused is not reserved, and once enough is given back the same
/// reservation is granted.
pub proof fn law_refusal_changes_nothing(budget: MemoryBudget, bytes: usize, given_back: usize)
    requires
        budget.wf(),
        !fits(budget, bytes),
        bytes <= budget.bound(),
        budget.reserved + bytes <= budget.bound() + given_back,
        given_back <= budget.reserved,
    ensures
        stepped(budget, BudgetStep::Reserve(bytes)) == budget,
        fits(stepped(budget, BudgetStep::Release(given_back)), bytes),
{
    lemma_release(budget, given_back);
}

/// The first limit that is set stays, whatever follows.
pub proof fn law_first_limit_stays(budget: MemoryBudget, limit: usize, steps: Seq<BudgetStep>)
    requires
        budget.limit is None,
    ensures
        after_steps(stepped(budget, BudgetStep::SetLimit(limit)), steps).limit == Some(limit),
    decreases steps.len(),
{
    if steps.len() > 0 {
        law_first_limit_stays(budget, limit, steps.drop_last());
    }
}

/// The bytes of the requests that are granted when they are made one after the
/// other.
pub open spec fn granted(budget: MemoryBudget, requests: Seq<usize>) -> int
    decreases requests.len(),
{
    if requests.len() == 0 {
        0
    } else {
        let earlier = requests.drop_last();
        granted(budget, earlier) + if fits(after_requests(budget, earlier), requests.last()) {
            requests.last() as int
        } else {
            0
        }
    }
}

/// The budget after requests that are made one after the other.
pub open spec fn after_requests(budget: MemoryBudget, requests: Seq<usize>) -> MemoryBudget {
    after_steps(budget, requests.map_values(|bytes: usize| BudgetStep::Reserve(bytes)))
}

/// What is reserved is the sum of what was granted, and within the limit: no grant
/// is lost and nothing that was refused is counted. Only without a limit below
/// `usize::MAX` can the count stop there.
pub proof fn law_reserved_is_what_was_granted(budget: MemoryBudget, requests: Seq<usize>)
    requires
        budget.wf(),
    ensures
        after_requests(budget, requests).reserved == capped(
            budget.reserved + granted(budget, requests),
        ),
        budget.bound() < usize::MAX ==> after_requests(budget, requests).reserved
            == budget.reserved + granted(budget, requests),
        after_requests(budget, requests).reserved <= budget.bound(),
        after_requests(budget, requests).limit == budget.limit,
    decreases requests.len(),
{
    let steps = requests.map_values(|bytes: usize| BudgetStep::Reserve(bytes));
    if requests.len() > 0 {
        let earlier = requests.drop_last();
        law_reserved_is_what_was_granted(budget, earlier);
        assert(steps.drop_last() =~= earlier.map_values(
            |bytes: usize| BudgetStep::Reserve(bytes),
        ));
        assert(steps.last() == BudgetStep::Reserve(requests.last()));
    }
}

/// A count that does not grow past `usize::MAX`.
pub open spec fn capped(count: int) -> int {
    if count > usize::MAX {
        usize::MAX as int
    } else {
        count
    }
}

/// One of several callers makes an attempt, with the bytes in mind that it took
/// to be reserved when it looked.
pub struct Turn {
    pub caller: int,
    pub current: usize,
}

/// The budget that several callers share, and how the call of each ended, for
/// those that have returned.
pub struct Callers {
    pub budget: MemoryBudget,
    pub outcomes: Seq<Option<bool>>,
}

/// What callers that ask for `requests` at the same time have come to after some
/// turns. A caller takes turns until its call is granted or refused.
pub open spec fn after_turns(
    budget: MemoryBudget,
    requests: Seq<usize>,
    turns: Seq<Turn>,
) -> Callers
    decreases turns.len(),
{
    if turns.len() == 0 {
        Callers { budget, outcomes: Seq::new(requests.len(), |i: int| None) }
    } else {
        let before = after_turns(budget, requests, turns.drop_last());
        let Turn { caller, current } = turns.last();
        if !(0 <= caller < requests.len()) || before.outcomes[caller] is Some {
            before
        } else if refuses(before.budget, current, requests[caller]) {
            Callers { outcomes: before.outcomes.update(caller, Some(false)), ..before }
        } else if grants(before.budget, current, requests[caller]) {
            Callers {
                budget: raised_to(before.budget, total_after(current, requests[caller])),
                outcomes: before.outcomes.update(caller, Some(true)),
            }
        } else {
            before
        }
    }
}

/// The bytes of the calls that were granted.
pub open spec fn granted_calls(requests: Seq<usize>, outcomes: Seq<Option<bool>>) -> int
    decreases requests.len(),
{
    if requests.len() == 0 {
        0
    } else {
        granted_calls(requests.drop_last(), outcomes) + if outcomes[requests.len() - 1] == Some(
            true,
        ) {
            requests.last() as int
        } else {
            0
        }
    }
}

proof fn lemma_none_granted(requests: Seq<usize>, outcomes: Seq<Option<bool>>)
    requires
        forall|i: int| 0 <= i < requests.len() ==> outcomes[i] is None,
    ensures
        granted_calls(requests, outcomes) == 0,
    decreases requests.len(),
{
    if requests.len() > 0 {
        lemma_none_granted(requests.drop_last(), outcomes);
    }
}

proof fn lemma_call_returns(
    requests: Seq<usize>,
    outcomes: Seq<Option<bool>>,
    caller: int,
    granted: bool,
)
    requires
        requests.len() <= outcomes.len(),
        0 <= caller < outcomes.len(),
        outcomes[caller] is None,
    ensures
        granted_calls(requests, outcomes.update(caller, Some(granted))) == granted_calls(
            requests,
            outcomes,
        ) + if granted && caller < requests.len() {
            requests[caller] as int
        } else {
            0
        },
    decreases requests.len(),
{
    if requests.len() > 0 {
        lemma_call_returns(requests.drop_last(), outcomes, caller, granted);
    }
}

/// However the turns of callers are interleaved, and however stale what they took
/// to be reserved, what is reserved is the sum of the requests whose calls were
/// granted, and within the limit. Only without a limit below `usize::MAX` can the
/// count stop there.
pub proof fn law_no_interleaving_over_commits(
    budget: MemoryBudget,
    requests: Seq<usize>,
    turns: Seq<Turn>,
)
    requires
        budget.wf(),
    ensures
        ({
            let after = after_turns(budget, requests, turns);
            let total = budget.reserved + granted_calls(requests, after.outcomes);
            &&& after.outcomes.len() == requests.len()
            &&& after.budget.limit == budget.limit
            &&& after.budget.reserved == capped(total)
            &&& budget.bound() < usize::MAX ==> after.budget.reserved == total
            &&& after.budget.reserved <= budget.bound()
        }),
    decreases turns.len(),
{
    let after = after_turns(budget, requests, turns);
    if turns.len() == 0 {
        lemma_none_granted(requests, after.outcomes);
    } else {
        law_no_interleaving_over_commits(budget, requests, turns.drop_last());
        let before = after_turns(budget, requests, turns.drop_last());
        let Turn { caller, current } = turns.last();
        if 0 <= caller < requests.len() && before.outcomes[caller] is None {
            lemma_call_returns(requests, before.outcomes, caller, true);
            lemma_call_returns(requests, before.outcomes, caller, false);
        }
    }
}

/// A reservation is granted exactly if it and what is reserved are within the
/// limit together. Without a limit below `usize::MAX` it always is.
pub proof fn law_what_fits_is_granted(budget: MemoryBudget, bytes: usize)
    ensures
        budget.limit matches Some(limit) && limit < usize::MAX ==> (fits(budget, bytes)
            <==> budget.reserved + bytes <= budget.limit->Some_0),
        budget.limit is None ==> fits(budget, bytes),
        fits(budget, bytes) && budget.reserved + bytes <= usize::MAX ==> stepped(
            budget,
            BudgetStep::Reserve(bytes),
        ).reserved == budget.reserved + bytes,
        !fits(budget, bytes) ==> stepped(budget, BudgetStep::Reserve(bytes)) == budget,
        stepped(budget, BudgetStep::Reserve(bytes)).limit == budget.limit,
        stepped(budget, BudgetStep::Reserve(bytes)).peak >= budget.peak,
{
}

/// An attempt is granted or refused as the reservation is, if nothing happened in
/// between; if something did, it is never granted.
pub proof fn law_fresh_attempt_decides(budget: MemoryBudget, current: usize, bytes: usize)
    ensures
        current == budget.reserved ==> grants(budget, current, bytes) == fits(budget, bytes)
            && refuses(budget, current, bytes) == !fits(budget, bytes),
        current != budget.reserved ==> !grants(budget, current, bytes),
{
}

/// Giving back takes off what is given back and nothing else.
pub proof fn law_release_takes_off(budget: MemoryBudget, bytes: usize)
    requires
        bytes <= budget.reserved,
    ensures
        stepped(budget, BudgetStep::Release(bytes)).reserved == budget.reserved - bytes,
        stepped(budget, BudgetStep::Release(bytes)).peak == budget.peak,
        stepped(budget, BudgetStep::Release(bytes)).limit == budget.limit,
{
    lemma_release(budget, bytes);
}

/// Starting the peak anew makes it what is reserved and leaves the rest.
pub proof fn law_reset_starts_from_what_is_reserved(budget: MemoryBudget)
    ensures
        stepped(budget, BudgetStep::ResetPeak).peak == budget.reserved,
        stepped(budget, BudgetStep::ResetPeak).reserved == budget.reserved,
        stepped(budget, BudgetStep::ResetPeak).limit == budget.limit,
{
}

} // verus!
