//! Ways to count the bytes of plugins without a counter that all threads share.
//!
//! A thread counts in a slot of its own, or keeps counters of its own, which are
//! added up when they are read or handed over now and again.
use crate::allocator::MAX_PLUGINS;
use crate::layout::BlockLayout;
use crate::numeric;
use vstd::prelude::*;

verus! {

/// Slots that threads count in.
pub const SLOTS: usize = 64;

/// Changes after which a thread hands its counters over.
pub const FLUSH_INTERVAL: usize = 256;

/// Gives threads their slots.
pub struct SlotCounter {
    pub assigned: usize,
}

/// Gives out the next slot. The slots go round.
pub fn assign_slot(counter: &mut SlotCounter) -> (slot: usize)
    ensures
        slot == old(counter).assigned as int % SLOTS as int,
        final(counter).assigned == (old(counter).assigned + 1) % numeric::usize_modulus(),
{
    let slot: usize = counter.assigned % SLOTS;
    proof {
        numeric::lemma_wrapping_add(counter.assigned, 1);
    }
    counter.assigned = counter.assigned.wrapping_add(1);
    slot
}

/// Returns the slot of a thread, which gets one, not 0, if it has none.
pub fn thread_slot(own: &mut usize, counter: &mut SlotCounter) -> (slot: usize)
    ensures
        slot == *final(own),
        *old(own) != 0 ==> slot == *old(own) && final(counter).assigned == old(counter).assigned,
        *old(own) == 0 ==> ({
            let next = old(counter).assigned as int % SLOTS as int;
            slot == if next == 0 {
                1
            } else {
                next
            }
        }) && final(counter).assigned == (old(counter).assigned + 1) % numeric::usize_modulus(),
{
    if *own == 0 {
        let next: usize = assign_slot(counter);
        *own = if next < 1 {
            1
        } else {
            next
        };
    }
    *own
}

/// The layout of a block with a byte for the plugin behind it.
pub fn trailer_layout(layout: BlockLayout) -> (wrapped: BlockLayout)
    requires
        layout.size < usize::MAX,
    ensures
        wrapped == (BlockLayout { size: (layout.size + 1) as usize, align: layout.align }),
{
    BlockLayout { size: layout.size + 1, align: layout.align }
}

/// The counters of a thread, one for each plugin.
pub struct ThreadCounters {
    pub deltas: [i64; MAX_PLUGINS],
}

/// The counters of all threads for a plugin, added up.
pub open spec fn delta_sum(threads: Seq<ThreadCounters>, plugin_id: int) -> int
    decreases threads.len(),
{
    if threads.len() == 0 {
        0
    } else {
        delta_sum(threads.drop_last(), plugin_id) + threads.last().deltas@[plugin_id]
    }
}

/// Reads the bytes of a plugin from the counters of all threads.
pub fn read_live_bytes_registry(threads: &Vec<ThreadCounters>, plugin_id: usize) -> (bytes: i64)
    requires
        plugin_id < MAX_PLUGINS,
    ensures
        bytes == numeric::wrap_i64(delta_sum(threads@, plugin_id as int)),
{
    let mut bytes: i64 = 0;
    let mut i: usize = 0;
    while i < threads.len()
        invariant
            i <= threads@.len(),
            plugin_id < MAX_PLUGINS,
            bytes == numeric::wrap_i64(delta_sum(threads@.take(i as int), plugin_id as int)),
        decreases threads@.len() - i,
    {
        bytes = bytes.wrapping_add(threads[i].deltas[plugin_id]);
        i += 1;
        assert(threads@.take(i as int).drop_last() =~= threads@.take(i - 1));
    }
    assert(threads@.take(i as int) =~= threads@);
    bytes
}

/// Counters of a thread that are handed over now and again.
pub struct LocalCounters {
    /// What was counted since the last time, for each plugin.
    pub deltas: [i64; MAX_PLUGINS],
    /// Changes since the last time.
    pub count: usize,
}

impl LocalCounters {
    /// The counters were handed over in time.
    pub open spec fn wf(self) -> bool {
        self.count < FLUSH_INTERVAL
    }

    /// Nothing was counted.
    pub fn new() -> (local: LocalCounters)
        ensures
            local.wf(),
            local.count == 0,
            local.deltas@ == Seq::new(MAX_PLUGINS as nat, |i: int| 0i64),
    {
        let local = LocalCounters { deltas: [0i64; 16], count: 0 };
        assert(local.deltas@ =~= Seq::new(MAX_PLUGINS as nat, |i: int| 0i64));
        local
    }
}

/// Counters that threads hand theirs over to.
pub struct GlobalCounters {
    pub bytes: [i64; MAX_PLUGINS],
}

/// Counts a change of a plugin's bytes.
pub fn count_change(local: &mut LocalCounters, plugin_id: usize, change: i64)
    requires
        plugin_id < MAX_PLUGINS,
    ensures
        final(local).count == old(local).count,
        forall|i: int|
            0 <= i < MAX_PLUGINS && i != plugin_id ==> #[trigger] final(local).deltas@[i] == old(
                local,
            ).deltas@[i],
        final(local).deltas@[plugin_id as int] == numeric::wrap_i64(
            old(local).deltas@[plugin_id as int] + change,
        ),
{
    local.deltas[plugin_id] = local.deltas[plugin_id].wrapping_add(change);
}

/// The changes are enough for the counters to be handed over with the next one.
pub open spec fn due(count: usize) -> bool {
    count + 1 >= FLUSH_INTERVAL
}

/// The counters of a thread after a change.
pub open spec fn kept(count: usize, deltas: Seq<i64>) -> Seq<i64> {
    if due(count) {
        Seq::new(deltas.len(), |i: int| 0i64)
    } else {
        deltas
    }
}

/// The counters that the thread hands over to, after a change.
pub open spec fn handed_over(count: usize, deltas: Seq<i64>, global: Seq<i64>) -> Seq<i64> {
    if due(count) {
        Seq::new(global.len(), |i: int| numeric::wrap_i64(global[i] + deltas[i]) as i64)
    } else {
        global
    }
}

/// Hands the counters of a thread over if there were enough changes.
pub fn flush_if_needed(local: &mut LocalCounters, global: &mut GlobalCounters)
    requires
        old(local).wf(),
    ensures
        final(local).wf(),
        final(local).count == (if due(old(local).count) {
            0
        } else {
            old(local).count + 1
        }),
        final(local).deltas@ == kept(old(local).count, old(local).deltas@),
        final(global).bytes@ == handed_over(
            old(local).count,
            old(local).deltas@,
            old(global).bytes@,
        ),
{
    let count: usize = local.count + 1;
    if count < FLUSH_INTERVAL {
        local.count = count;
        return;
    }
    let mut i: usize = 0;
    while i < MAX_PLUGINS
        invariant
            i <= MAX_PLUGINS,
            local.count == old(local).count,
            forall|k: int| 0 <= k < i ==> #[trigger] local.deltas@[k] == 0,
            forall|k: int|
                0 <= k < i ==> #[trigger] global.bytes@[k] == numeric::wrap_i64(
                    old(global).bytes@[k] + old(local).deltas@[k],
                ),
            forall|k: int|
                i <= k < MAX_PLUGINS ==> #[trigger] local.deltas@[k] == old(local).deltas@[k],
            forall|k: int|
                i <= k < MAX_PLUGINS ==> #[trigger] global.bytes@[k] == old(global).bytes@[k],
        decreases MAX_PLUGINS - i,
    {
        let ghost deltas = local.deltas@;
        let ghost bytes = global.bytes@;
        let change: i64 = local.deltas[i];
        if change != 0 {
            global.bytes[i] = global.bytes[i].wrapping_add(change);
            local.deltas[i] = 0;
        }
        proof {
            let total = numeric::wrap_i64(bytes[i as int] + change) as i64;
            assert(local.deltas@ =~= deltas.update(i as int, 0));
            assert(global.bytes@ =~= bytes.update(i as int, total));
        }
        i += 1;
    }
    local.count = 0;
    assert(local.deltas@ =~= kept(old(local).count, old(local).deltas@));
    assert(global.bytes@ =~= handed_over(
        old(local).count,
        old(local).deltas@,
        old(global).bytes@,
    ));
}

/// Handing counters over loses nothing: what is counted for a plugin, by the
/// thread and where it hands over to, stays the same.
pub proof fn law_flush_loses_nothing(
    count: usize,
    deltas: Seq<i64>,
    global: Seq<i64>,
    plugin_id: int,
)
    requires
        deltas.len() == global.len(),
        0 <= plugin_id < global.len(),
    ensures
        numeric::wrap_i64(
            handed_over(count, deltas, global)[plugin_id] + kept(count, deltas)[plugin_id],
        ) == numeric::wrap_i64(global[plugin_id] + deltas[plugin_id]),
{
}

/// What one thread counts and another takes back adds up to nothing.
pub proof fn law_threads_balance(threads: Seq<ThreadCounters>, other: ThreadCounters, plugin_id: int)
    requires
        0 <= plugin_id < MAX_PLUGINS,
        threads.len() > 0,
        other.deltas@[plugin_id] == -threads.last().deltas@[plugin_id],
    ensures
        delta_sum(threads.push(other), plugin_id) == delta_sum(threads.drop_last(), plugin_id),
{
    reveal_with_fuel(delta_sum, 2);
    assert(threads.push(other).drop_last() =~= threads);
}

/// With the 256th change the counters are handed over in full, and the thread
/// starts again from nothing. Before that nothing is handed over.
pub proof fn law_flush_hands_over_in_time(count: usize, deltas: Seq<i64>, global: Seq<i64>)
    requires
        deltas.len() == global.len(),
    ensures
        due(count) <==> count >= 255,
        kept(count, deltas).len() == deltas.len(),
        handed_over(count, deltas, global).len() == global.len(),
        forall|i: int|
            0 <= i < deltas.len() ==> #[trigger] kept(count, deltas)[i] == (if count >= 255 {
                0
            } else {
                deltas[i]
            }),
        forall|i: int|
            0 <= i < global.len() && count < 255 ==> #[trigger] handed_over(
                count,
                deltas,
                global,
            )[i] == global[i],
        forall|i: int|
            0 <= i < global.len() && count >= 255 && i64::MIN <= global[i] + deltas[i] <= i64::MAX
                ==> #[trigger] handed_over(count, deltas, global)[i] == global[i] + deltas[i],
{
}

/// Each thread adds what it counted to the sum.
pub proof fn law_each_thread_counts(threads: Seq<ThreadCounters>, more: ThreadCounters, plugin_id: int)
    ensures
        threads.len() == 0 ==> delta_sum(threads, plugin_id) == 0,
        delta_sum(threads.push(more), plugin_id) == delta_sum(threads, plugin_id)
            + more.deltas@[plugin_id],
{
    assert(threads.push(more).drop_last() =~= threads);
}

} // verus!
