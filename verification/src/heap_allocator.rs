//! Per-plugin memory by heaps of mimalloc.
//!
//! Each plugin has a heap of its own, registered by [`create_heap`]. A thread
//! that works for a plugin takes its memory from the plugin's heap. What a heap
//! holds is counted area by area.
use crate::numeric;
use crate::text;
use vstd::prelude::*;
use vstd::string::*;

verus! {

/// A heap of mimalloc, by its address. The address 0 stands for no heap.
#[derive(Clone, Copy, Debug, PartialEq, Eq, Structural)]
pub struct PluginHeap {
    pub address: usize,
}

/// What a visitor sees of a heap: an area, and a block in it or, with no block,
/// the area as a whole.
#[derive(Clone, Copy, Debug)]
pub struct HeapVisit {
    /// Blocks of the area that are in use.
    pub used: usize,
    /// Bytes in a block of the area.
    pub block_size: usize,
    /// Bytes of the area that are committed.
    pub committed: usize,
    /// The address of the block, or 0 for the area as a whole.
    pub block: usize,
}

/// Memory of a plugin.
#[derive(Clone, Copy, Debug)]
pub struct HeapStats {
    /// Bytes in blocks that are in use.
    pub used: usize,
    /// Bytes that are committed.
    pub committed: usize,
}

impl Default for HeapStats {
    /// No memory.
    fn default() -> (stats: HeapStats)
        ensures
            stats == (HeapStats { used: 0, committed: 0 }),
    {
        HeapStats { used: 0, committed: 0 }
    }
}

/// Memory of a plugin, by name.
#[derive(Clone, Debug)]
pub struct PluginStats {
    pub name: &'static str,
    pub stats: HeapStats,
}

/// Bytes in used blocks that the visits report. A visit to a block reports
/// nothing: the visit to its area did.
pub open spec fn used_total(visits: Seq<HeapVisit>) -> int
    decreases visits.len(),
{
    if visits.len() == 0 {
        0
    } else {
        let last = visits.last();
        used_total(visits.drop_last()) + if last.block == 0 {
            last.used * last.block_size
        } else {
            0
        }
    }
}

/// Committed bytes that the visits report.
pub open spec fn committed_total(visits: Seq<HeapVisit>) -> int
    decreases visits.len(),
{
    if visits.len() == 0 {
        0
    } else {
        let last = visits.last();
        committed_total(visits.drop_last()) + if last.block == 0 {
            last.committed as int
        } else {
            0
        }
    }
}

/// The memory of a heap whose visitor saw this. Counts wrap.
pub open spec fn stats_of(heap: PluginHeap, visits: Seq<HeapVisit>) -> HeapStats {
    if heap.address == 0 {
        HeapStats { used: 0, committed: 0 }
    } else {
        HeapStats {
            used: (used_total(visits) % numeric::usize_modulus()) as usize,
            committed: (committed_total(visits) % numeric::usize_modulus()) as usize,
        }
    }
}

/// Counts what a visit reports.
pub fn count_visit(stats: HeapStats, visit: &HeapVisit) -> (counted: HeapStats)
    ensures
        visit.block != 0 ==> counted == stats,
        visit.block == 0 ==> counted.used == (stats.used + visit.used * visit.block_size)
            % numeric::usize_modulus() && counted.committed == (stats.committed + visit.committed)
            % numeric::usize_modulus(),
{
    if visit.block != 0 {
        return stats;
    }
    let bytes: usize = visit.used.wrapping_mul(visit.block_size);
    proof {
        numeric::lemma_wrapping_mul(visit.used, visit.block_size);
        numeric::lemma_wrapping_add(stats.used, bytes);
        numeric::lemma_wrapping_add(stats.committed, visit.committed);
        vstd::arithmetic::div_mod::lemma_add_mod_noop_right(
            stats.used as int,
            visit.used * visit.block_size,
            numeric::usize_modulus(),
        );
    }
    HeapStats {
        used: stats.used.wrapping_add(bytes),
        committed: stats.committed.wrapping_add(visit.committed),
    }
}

/// Counts the memory of a heap from what a visitor of it saw.
pub fn heap_stats(heap: PluginHeap, visits: &Vec<HeapVisit>) -> (stats: HeapStats)
    ensures
        stats == stats_of(heap, visits@),
{
    if heap.address == 0 {
        return HeapStats::default();
    }
    let mut stats = HeapStats::default();
    let mut i: usize = 0;
    proof {
        lemma_wrapped_zero();
    }
    while i < visits.len()
        invariant
            i <= visits@.len(),
            heap.address != 0,
            stats == stats_of(heap, visits@.take(i as int)),
            stats.used == used_total(visits@.take(i as int)) % numeric::usize_modulus(),
            stats.committed == committed_total(visits@.take(i as int)) % numeric::usize_modulus(),
        decreases visits@.len() - i,
    {
        let ghost before = visits@.take(i as int);
        let visit = visits[i];
        stats = count_visit(stats, &visit);
        i += 1;
        proof {
            assert(visits@.take(i as int).drop_last() =~= before);
            lemma_wrapped_step(used_total(before), visit.used * visit.block_size);
            lemma_wrapped_step(committed_total(before), visit.committed as int);
        }
    }
    assert(visits@.take(i as int) =~= visits@);
    stats
}

/// Nothing is counted of no visits.
proof fn lemma_wrapped_zero()
    ensures
        0int % numeric::usize_modulus() == 0,
{
    vstd::arithmetic::div_mod::lemma_small_mod(0, numeric::usize_modulus() as nat);
}

/// A wrapped count, counted on, is the wrapped count of all.
proof fn lemma_wrapped_step(total: int, more: int)
    ensures
        (total % numeric::usize_modulus() + more) % numeric::usize_modulus() == (total + more)
            % numeric::usize_modulus(),
        0 <= (total + more) % numeric::usize_modulus() <= usize::MAX,
{
    vstd::arithmetic::div_mod::lemma_add_mod_noop_right(more, total, numeric::usize_modulus());
    vstd::arithmetic::div_mod::lemma_mod_bound(total + more, numeric::usize_modulus());
}

/// The heaps of the plugins, in the order of registration.
pub struct HeapRegistry {
    heaps: Vec<(&'static str, PluginHeap)>,
    monitored: bool,
}

impl HeapRegistry {
    /// The names and heaps.
    pub closed spec fn heaps(self) -> Seq<(&'static str, PluginHeap)> {
        self.heaps@
    }

    /// The monitor has been started.
    pub closed spec fn monitored(self) -> bool {
        self.monitored
    }

    /// No plugin is registered.
    pub fn new() -> (registry: HeapRegistry)
        ensures
            registry.heaps() == Seq::<(&'static str, PluginHeap)>::empty(),
            !registry.monitored(),
    {
        HeapRegistry { heaps: Vec::new(), monitored: false }
    }

    /// Returns how many plugins are registered.
    pub fn len(&self) -> (count: usize)
        ensures
            count == self.heaps().len(),
    {
        self.heaps.len()
    }

    /// Returns a heap, by the order of registration.
    pub fn heap(&self, index: usize) -> (heap: PluginHeap)
        requires
            index < self.heaps().len(),
        ensures
            heap == self.heaps()[index as int].1,
    {
        self.heaps[index].1
    }
}

/// Registers a new heap for a plugin.
///
/// Says also whether the monitor has to be started, which the first
/// registration asks for.
pub fn create_heap(registry: &mut HeapRegistry, name: &'static str, address: usize) -> (created: (
    PluginHeap,
    bool,
))
    requires
        address != 0,
    ensures
        created.0 == (PluginHeap { address }),
        final(registry).heaps() == old(registry).heaps().push((name, created.0)),
        created.1 == !old(registry).monitored(),
        final(registry).monitored(),
{
    let heap = PluginHeap { address };
    registry.heaps.push((name, heap));
    let start = !registry.monitored;
    registry.monitored = true;
    (heap, start)
}

/// The heap that a thread takes its memory from.
#[derive(Clone, Copy, Debug)]
pub struct ThreadHeap {
    pub heap: PluginHeap,
}

/// Lets a thread take its memory from a heap from now on.
pub fn set_thread_heap(thread: &mut ThreadHeap, heap: PluginHeap)
    ensures
        final(thread).heap == heap,
{
    thread.heap = heap;
}

/// The heap that a thread goes back to.
pub struct HeapGuard {
    pub prev: PluginHeap,
}

/// Lets a thread take its memory from a heap until the guard is given up.
pub fn scoped_thread_heap(thread: &mut ThreadHeap, heap: PluginHeap) -> (guard: HeapGuard)
    ensures
        final(thread).heap == heap,
        guard.prev == old(thread).heap,
{
    let prev = thread.heap;
    thread.heap = heap;
    HeapGuard { prev }
}

impl HeapGuard {
    /// Lets the thread go back to the heap it had before.
    pub fn restore(self, thread: &mut ThreadHeap)
        ensures
            final(thread).heap == self.prev,
    {
        thread.heap = self.prev;
    }
}

/// The memory of every plugin, from what visitors of their heaps saw.
pub open spec fn all_stats(
    heaps: Seq<(&'static str, PluginHeap)>,
    visits: Seq<Vec<HeapVisit>>,
) -> Seq<PluginStats> {
    Seq::new(
        heaps.len(),
        |i: int| PluginStats { name: heaps[i].0, stats: stats_of(heaps[i].1, visits[i]@) },
    )
}

/// Counts the memory of every plugin, from what visitors of their heaps saw.
pub fn all_plugin_stats(registry: &HeapRegistry, visits: &Vec<Vec<HeapVisit>>) -> (stats: Vec<
    PluginStats,
>)
    requires
        visits@.len() == registry.heaps().len(),
    ensures
        stats@ == all_stats(registry.heaps(), visits@),
{
    let mut stats: Vec<PluginStats> = Vec::new();
    while stats.len() < registry.heaps.len()
        invariant
            visits@.len() == registry.heaps().len(),
            stats@.len() <= registry.heaps().len(),
            stats@ == all_stats(registry.heaps(), visits@).take(stats@.len() as int),
        decreases registry.heaps().len() - stats@.len(),
    {
        let i: usize = stats.len();
        let (name, heap) = registry.heaps[i];
        stats.push(PluginStats { name, stats: heap_stats(heap, &visits[i]) });
        assert(stats@ =~= all_stats(registry.heaps(), visits@).take(stats@.len() as int));
    }
    assert(stats@ =~= all_stats(registry.heaps(), visits@));
    stats
}

/// What the monitor says of a plugin, in whole kibibytes.
pub open spec fn monitor_text(plugin: PluginStats) -> Seq<char> {
    "[heap-monitor] plugin='"@ + plugin.name@ + "' used="@ + text::decimal(
        (plugin.stats.used / 1024) as nat,
    ) + "KB committed="@ + text::decimal((plugin.stats.committed / 1024) as nat) + "KB"@
}

/// Spells what the monitor says of a plugin.
pub fn monitor_line(plugin: &PluginStats) -> (line: String)
    ensures
        line@ == monitor_text(*plugin),
{
    let mut line = "[heap-monitor] plugin='".to_owned();
    line.append(plugin.name);
    line.append("' used=");
    text::push_decimal(&mut line, (plugin.stats.used / 1024) as u64);
    line.append("KB committed=");
    text::push_decimal(&mut line, (plugin.stats.committed / 1024) as u64);
    line.append("KB");
    line
}

/// A plugin's memory as a JSON object.
pub open spec fn plugin_json(plugin: PluginStats) -> Seq<char> {
    "{\"name\":\""@ + plugin.name@ + "\",\"used\":"@ + text::decimal(plugin.stats.used as nat)
        + ",\"committed\":"@ + text::decimal(plugin.stats.committed as nat) + "}"@
}

/// The memory of plugins as JSON objects with commas between them.
pub open spec fn plugins_json(stats: Seq<PluginStats>) -> Seq<char>
    decreases stats.len(),
{
    if stats.len() == 0 {
        seq![]
    } else if stats.len() == 1 {
        plugin_json(stats[0])
    } else {
        plugins_json(stats.drop_last()) + ","@ + plugin_json(stats.last())
    }
}

/// Spells the memory of plugins as a JSON array.
pub fn heap_stats_json(stats: &Vec<PluginStats>) -> (json: String)
    ensures
        json@ == "["@ + plugins_json(stats@) + "]"@,
{
    let mut json = "[".to_owned();
    let mut i: usize = 0;
    assert("["@ + Seq::<char>::empty() =~= "["@);
    while i < stats.len()
        invariant
            i <= stats@.len(),
            json@ == "["@ + plugins_json(stats@.take(i as int)),
        decreases stats@.len() - i,
    {
        let ghost before = stats@.take(i as int);
        let plugin = &stats[i];
        if i > 0 {
            json.append(",");
        }
        let ghost opened = json@;
        json.append("{\"name\":\"");
        json.append(plugin.name);
        json.append("\",\"used\":");
        text::push_decimal(&mut json, plugin.stats.used as u64);
        json.append(",\"committed\":");
        text::push_decimal(&mut json, plugin.stats.committed as u64);
        json.append("}");
        i += 1;
        proof {
            assert(json@ =~= opened + plugin_json(*plugin));
            assert(stats@.take(i as int).drop_last() =~= before);
            assert(stats@.take(i as int).last() == *plugin);
            assert(json@ =~= "["@ + plugins_json(stats@.take(i as int)));
        }
    }
    assert(stats@.take(i as int) =~= stats@);
    json.append("]");
    json
}

/// The unsigned number at `field` of the object at `object` of a JSON text.
/// There is none if the text is not JSON, or has something else there.
pub uninterp spec fn json_number(text: Seq<char>, object: Seq<char>, field: Seq<char>) -> Option<
    u64,
>;

/// Reads a number out of a JSON text: `serde_json::from_str` into a
/// `serde_json::Value`, then `Value::index` twice and `Value::as_u64`.
///
/// The result depends on the text and the two names alone.
#[verifier::external_body]
fn read_json_number(text: &str, object: &str, field: &str) -> (number: Option<u64>)
    ensures
        number == json_number(text@, object@, field@),
{
    serde_json::from_str::<serde_json::Value>(text).unwrap_or_default()[object][field].as_u64()
}

/// A number, or 0 for none.
pub open spec fn or_zero(number: Option<u64>) -> u64 {
    match number {
        Some(n) => n,
        None => 0,
    }
}

/// Committed bytes of the process as a JSON object.
pub open spec fn commit_json(current: Option<u64>, peak: Option<u64>) -> Seq<char> {
    "{\"current_commit\":"@ + text::decimal(or_zero(current) as nat) + ",\"peak_commit\":"@
        + text::decimal(or_zero(peak) as nat) + "}"@
}

/// Spells the committed bytes of the process, now and at the most, as a JSON
/// object.
pub fn commit_stats_json(current: Option<u64>, peak: Option<u64>) -> (json: String)
    ensures
        json@ == commit_json(current, peak),
{
    let current_commit: u64 = match current {
        Some(n) => n,
        None => 0,
    };
    let peak_commit: u64 = match peak {
        Some(n) => n,
        None => 0,
    };
    let mut json = "{\"current_commit\":".to_owned();
    text::push_decimal(&mut json, current_commit);
    json.append(",\"peak_commit\":");
    text::push_decimal(&mut json, peak_commit);
    json.append("}");
    json
}

/// Picks the committed bytes out of the statistics of mimalloc, a JSON text if
/// there are any.
pub fn global_mimalloc_stats_json(raw: Option<&str>) -> (json: String)
    ensures
        json@ == (match raw {
            None => commit_json(None, None),
            Some(stats) => commit_json(
                json_number(stats@, "committed"@, "current"@),
                json_number(stats@, "committed"@, "peak"@),
            ),
        }),
{
    match raw {
        None => commit_stats_json(None, None),
        Some(stats) => {
            let current = read_json_number(stats, "committed", "current");
            let peak = read_json_number(stats, "committed", "peak");
            commit_stats_json(current, peak)
        },
    }
}

/// What two visitors saw of a heap adds up.
pub proof fn law_areas_add_up(first: Seq<HeapVisit>, second: Seq<HeapVisit>)
    ensures
        used_total(first + second) == used_total(first) + used_total(second),
        committed_total(first + second) == committed_total(first) + committed_total(second),
    decreases second.len(),
{
    if second.len() == 0 {
        assert(first + second =~= first);
    } else {
        law_areas_add_up(first, second.drop_last());
        assert((first + second).drop_last() =~= first + second.drop_last());
        assert((first + second).last() == second.last());
    }
}

/// Counts do not wrap as long as the totals are counts. So a heap with one more
/// area that is in use uses more.
pub proof fn law_another_area_counts(heap: PluginHeap, visits: Seq<HeapVisit>, area: HeapVisit)
    requires
        heap.address != 0,
        area.block == 0,
        used_total(visits.push(area)) <= usize::MAX,
        committed_total(visits.push(area)) <= usize::MAX,
    ensures
        stats_of(heap, visits.push(area)).used == stats_of(heap, visits).used + area.used
            * area.block_size,
        stats_of(heap, visits.push(area)).committed == stats_of(heap, visits).committed
            + area.committed,
{
    assert(visits.push(area).drop_last() =~= visits);
    lemma_totals_are_counts(visits);
    assert(0 <= area.used * area.block_size) by (nonlinear_arith)
        requires
            0 <= area.used,
            0 <= area.block_size,
    ;
    let modulus = numeric::usize_modulus() as nat;
    vstd::arithmetic::div_mod::lemma_small_mod(used_total(visits) as nat, modulus);
    vstd::arithmetic::div_mod::lemma_small_mod(committed_total(visits) as nat, modulus);
    vstd::arithmetic::div_mod::lemma_small_mod(used_total(visits.push(area)) as nat, modulus);
    vstd::arithmetic::div_mod::lemma_small_mod(committed_total(visits.push(area)) as nat, modulus);
}

/// Totals are not negative.
proof fn lemma_totals_are_counts(visits: Seq<HeapVisit>)
    ensures
        0 <= used_total(visits),
        0 <= committed_total(visits),
    decreases visits.len(),
{
    if visits.len() > 0 {
        lemma_totals_are_counts(visits.drop_last());
        let last = visits.last();
        assert(0 <= last.used * last.block_size) by (nonlinear_arith)
            requires
                0 <= last.used,
                0 <= last.block_size,
        ;
    }
}

/// Visits to single blocks change nothing.
pub proof fn law_blocks_are_not_counted_twice(heap: PluginHeap, visits: Seq<HeapVisit>, block: HeapVisit)
    requires
        block.block != 0,
    ensures
        stats_of(heap, visits.push(block)) == stats_of(heap, visits),
{
    assert(visits.push(block).drop_last() =~= visits);
}

/// The memory of a plugin is counted from its own heap alone: what visitors saw
/// of other heaps does not matter.
pub proof fn law_plugins_are_counted_apart(
    heaps: Seq<(&'static str, PluginHeap)>,
    visits: Seq<Vec<HeapVisit>>,
    other_visits: Seq<Vec<HeapVisit>>,
    plugin: int,
)
    requires
        0 <= plugin < heaps.len(),
        visits.len() == heaps.len(),
        other_visits.len() == heaps.len(),
        visits[plugin]@ == other_visits[plugin]@,
    ensures
        all_stats(heaps, visits)[plugin] == all_stats(heaps, other_visits)[plugin],
{
}

/// Every registered plugin is among the statistics, under its name.
pub proof fn law_registered_plugin_is_reported(
    heaps: Seq<(&'static str, PluginHeap)>,
    name: &'static str,
    heap: PluginHeap,
    later: Seq<(&'static str, PluginHeap)>,
    visits: Seq<Vec<HeapVisit>>,
)
    requires
        visits.len() == (heaps.push((name, heap)) + later).len(),
    ensures
        exists|i: int|
            0 <= i < visits.len() && #[trigger] all_stats(heaps.push((name, heap)) + later, visits)[i]
                == (PluginStats { name, stats: stats_of(heap, visits[i]@) }),
{
    let all = heaps.push((name, heap)) + later;
    let i = heaps.len() as int;
    assert(all[i] == (name, heap));
    assert(all_stats(all, visits)[i] == (PluginStats { name, stats: stats_of(heap, visits[i]@) }));
}

/// What can happen to the heap of a thread.
pub enum ScopeStep {
    /// [`scoped_thread_heap`]
    Enter(PluginHeap),
    /// [`HeapGuard::restore`] of the guard that was handed out last
    Leave,
    /// [`set_thread_heap`]
    Keep(PluginHeap),
}

/// The heap of a thread, and the heaps its guards go back to, the last one
/// handed out at the end.
pub struct ScopeState {
    pub heap: PluginHeap,
    pub guards: Seq<PluginHeap>,
}

/// The thread after a step.
pub open spec fn scope_step(state: ScopeState, step: ScopeStep) -> ScopeState {
    match step {
        ScopeStep::Enter(heap) => ScopeState { heap, guards: state.guards.push(state.heap) },
        ScopeStep::Leave => ScopeState {
            heap: state.guards.last(),
            guards: state.guards.drop_last(),
        },
        ScopeStep::Keep(heap) => ScopeState { heap, ..state },
    }
}

/// The thread after several steps.
pub open spec fn after_scopes(state: ScopeState, steps: Seq<ScopeStep>) -> ScopeState
    decreases steps.len(),
{
    if steps.len() == 0 {
        state
    } else {
        scope_step(after_scopes(state, steps.drop_last()), steps.last())
    }
}

/// Only a scope that was entered is left, and outside of all scopes the heap is
/// not set.
pub open spec fn scoped(state: ScopeState, steps: Seq<ScopeStep>) -> bool {
    forall|i: int|
        0 <= i < steps.len() && #[trigger] steps[i] !is Enter ==> after_scopes(
            state,
            steps.take(i),
        ).guards.len() > 0
}

/// However scopes are nested, and whatever heap is set within them, a thread
/// that has left them all is back at the heap it had.
pub proof fn law_scopes_restore_the_heap(start: PluginHeap, steps: Seq<ScopeStep>)
    requires
        scoped(ScopeState { heap: start, guards: seq![] }, steps),
        after_scopes(ScopeState { heap: start, guards: seq![] }, steps).guards.len() == 0,
    ensures
        after_scopes(ScopeState { heap: start, guards: seq![] }, steps).heap == start,
{
    lemma_first_guard_stays(start, steps);
}

/// The first guard goes back to the heap at the start.
proof fn lemma_first_guard_stays(start: PluginHeap, steps: Seq<ScopeStep>)
    requires
        scoped(ScopeState { heap: start, guards: seq![] }, steps),
    ensures
        ({
            let end = after_scopes(ScopeState { heap: start, guards: seq![] }, steps);
            end.guards.push(end.heap)[0] == start
        }),
    decreases steps.len(),
{
    let state = ScopeState { heap: start, guards: seq![] };
    if steps.len() > 0 {
        let earlier = steps.drop_last();
        let last = steps.len() - 1;
        assert forall|i: int| 0 <= i < earlier.len() && #[trigger] earlier[i] !is Enter implies
            after_scopes(state, earlier.take(i)).guards.len() > 0 by {
            assert(earlier[i] == steps[i]);
            assert(earlier.take(i) =~= steps.take(i));
        }
        lemma_first_guard_stays(start, earlier);
        assert(steps[last] == steps.last());
        assert(steps.take(last) =~= earlier);
    }
}

/// Nothing is counted of a heap without areas, or where there is no heap.
pub proof fn law_nothing_is_counted_of_nothing(heap: PluginHeap, visits: Seq<HeapVisit>)
    requires
        heap.address == 0 || visits.len() == 0,
    ensures
        stats_of(heap, visits).used == 0,
        stats_of(heap, visits).committed == 0,
{
    lemma_wrapped_zero();
}

/// What is used and what is committed does not depend on the order in which areas
/// are visited.
pub proof fn law_order_of_visits_does_not_matter(
    heap: PluginHeap,
    first: Seq<HeapVisit>,
    second: Seq<HeapVisit>,
)
    ensures
        stats_of(heap, first + second) == stats_of(heap, second + first),
{
    law_areas_add_up(first, second);
    law_areas_add_up(second, first);
}

/// There are statistics for each plugin in the order of registration, under its
/// name, as if its heap were the only one.
pub proof fn law_every_plugin_has_its_statistics(
    heaps: Seq<(&'static str, PluginHeap)>,
    visits: Seq<Vec<HeapVisit>>,
    plugin: int,
)
    requires
        visits.len() == heaps.len(),
        0 <= plugin < heaps.len(),
    ensures
        all_stats(heaps, visits).len() == heaps.len(),
        all_stats(heaps, visits)[plugin].name == heaps[plugin].0,
        all_stats(heaps, visits)[plugin] == all_stats(seq![heaps[plugin]], seq![visits[plugin]])[0],
{
}

/// The JSON text of plugins lists one after the other, with a comma in front of
/// each but the first.
pub proof fn law_json_lists_every_plugin(stats: Seq<PluginStats>, plugin: PluginStats)
    ensures
        stats.len() == 0 ==> plugins_json(stats) == Seq::<char>::empty(),
        stats.len() == 0 ==> plugins_json(stats.push(plugin)) == plugin_json(plugin),
        stats.len() > 0 ==> plugins_json(stats.push(plugin)) == plugins_json(stats) + ","@
            + plugin_json(plugin),
        plugin_json(plugin) == "{\"name\":\""@ + plugin.name@ + "\",\"used\":"@ + text::decimal(
            plugin.stats.used as nat,
        ) + ",\"committed\":"@ + text::decimal(plugin.stats.committed as nat) + "}"@,
{
    assert(stats.push(plugin).drop_last() =~= stats);
}

} // verus!
