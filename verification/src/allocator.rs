//! Plugins, the threads that work for them, and the bytes they hold.
use crate::mallctl;
use crate::mallctl::{Exchange, Mallctl};
use crate::numeric;
use crate::text;
use crate::tracking::TrackingAllocator;
use tikv_jemalloc_ctl::epoch_mib;
use tikv_jemalloc_ctl::stats::{allocated_mib, resident_mib};
use vstd::arithmetic::div_mod;
use vstd::prelude::*;
use vstd::string::*;

verus! {

/// Number of plugins that can be told apart, counting plugin 0.
///
/// Plugin 0 stands for memory that no plugin asked for: startup, system and
/// callback threads.
pub const MAX_PLUGINS: usize = 16;

/// Handle to a registered plugin, obtained from [`register_plugin`].
#[derive(Clone, Copy, Debug)]
pub struct PluginHandle {
    plugin: u8,
}

impl PluginHandle {
    #[verifier::type_invariant]
    spec fn registered(self) -> bool {
        1 <= self.plugin < MAX_PLUGINS
    }

    /// The number of the plugin.
    pub closed spec fn plugin(self) -> u8 {
        self.plugin
    }

    /// Returns the number of the plugin, for reports.
    pub fn id(&self) -> (id: u8)
        ensures
            id == self.plugin(),
            1 <= id < MAX_PLUGINS,
    {
        proof {
            use_type_invariant(self);
        }
        self.plugin
    }
}

/// The plugin that a thread works for.
#[derive(Clone, Copy, Debug)]
pub struct ThreadBinding {
    plugin: u8,
}

impl ThreadBinding {
    #[verifier::type_invariant]
    spec fn in_range(self) -> bool {
        self.plugin < MAX_PLUGINS
    }

    /// The number of the plugin.
    pub closed spec fn plugin(self) -> u8 {
        self.plugin
    }

    /// A thread that works for no plugin yet.
    pub fn new() -> (thread: ThreadBinding)
        ensures
            thread.plugin() == 0,
    {
        ThreadBinding { plugin: 0 }
    }
}

/// The names of the registered plugins, in the order of registration.
pub struct PluginRegistry {
    names: Vec<&'static str>,
}

impl View for PluginRegistry {
    type V = Seq<Seq<char>>;

    closed spec fn view(&self) -> Seq<Seq<char>> {
        self.names@.map_values(|name: &'static str| name@)
    }
}

impl PluginRegistry {
    /// Every registered plugin has a number below [`MAX_PLUGINS`].
    pub open spec fn wf(&self) -> bool {
        self@.len() < MAX_PLUGINS
    }

    /// No plugin is registered.
    pub fn new() -> (registry: PluginRegistry)
        ensures
            registry.wf(),
            registry@ == Seq::<Seq<char>>::empty(),
    {
        let registry = PluginRegistry { names: Vec::new() };
        assert(registry@ =~= Seq::<Seq<char>>::empty());
        registry
    }
}

/// Registers a plugin by name, once per plugin at startup.
///
/// Plugins are numbered from 1. Number 0 is not given away.
pub fn register_plugin(registry: &mut PluginRegistry, name: &'static str) -> (handle: PluginHandle)
    requires
        old(registry)@.len() + 1 < MAX_PLUGINS,
    ensures
        handle.plugin() == old(registry)@.len() + 1,
        final(registry).wf(),
        final(registry)@ == old(registry)@.push(name@),
{
    registry.names.push(name);
    let plugin: u8 = registry.names.len() as u8;
    assert(registry@ =~= old(registry)@.push(name@));
    PluginHandle { plugin }
}

/// The name of plugin 0, which stands for no plugin.
pub open spec fn untagged() -> Seq<char> {
    "untagged"@
}

/// Returns the name of a plugin. Number 0 has a name from the start.
pub fn plugin_name(registry: &PluginRegistry, plugin_id: u8) -> (name: Option<&'static str>)
    ensures
        name is Some <==> plugin_id <= registry@.len(),
        plugin_id == 0 ==> name is Some && name->Some_0@ == untagged(),
        1 <= plugin_id <= registry@.len() ==> name is Some && name->Some_0@ == registry@[plugin_id
            - 1],
{
    if plugin_id == 0 {
        Some("untagged")
    } else if plugin_id as usize > registry.names.len() {
        None
    } else {
        Some(registry.names[plugin_id as usize - 1])
    }
}

/// Returns how many plugins are registered.
pub fn registered_plugin_count(registry: &PluginRegistry) -> (count: u8)
    requires
        registry.wf(),
    ensures
        count == registry@.len(),
{
    registry.names.len() as u8
}

/// Binds a thread to a plugin: what it allocates from now on belongs to it.
pub fn bind_thread(thread: &mut ThreadBinding, handle: &PluginHandle)
    ensures
        final(thread).plugin() == handle.plugin(),
{
    let id: u8 = handle.id();
    *thread = ThreadBinding { plugin: id };
}

/// Binds a thread to a plugin by number.
pub fn bind_thread_to_plugin(thread: &mut ThreadBinding, plugin_id: u8)
    requires
        plugin_id < MAX_PLUGINS,
    ensures
        final(thread).plugin() == plugin_id,
{
    *thread = ThreadBinding { plugin: plugin_id };
}

/// Returns the plugin that a thread is bound to.
pub fn current_plugin_id(thread: &ThreadBinding) -> (id: u8)
    ensures
        id == thread.plugin(),
        id < MAX_PLUGINS,
{
    proof {
        use_type_invariant(thread);
    }
    thread.plugin
}

/// Reads the live bytes of a plugin.
pub fn plugin_live_bytes(allocator: &TrackingAllocator, handle: &PluginHandle) -> (bytes: usize)
    ensures
        allocator@.len() == MAX_PLUGINS,
        bytes == allocator@[handle.plugin() as int],
{
    allocator.live_bytes_of(handle.id())
}

/// Reads the live bytes of a plugin by number, 0 if there is no such number.
pub fn plugin_live_bytes_by_id(allocator: &TrackingAllocator, plugin_id: u8) -> (bytes: usize)
    ensures
        allocator@.len() == MAX_PLUGINS,
        bytes == (if plugin_id < MAX_PLUGINS {
            allocator@[plugin_id as int]
        } else {
            0
        }),
{
    proof {
        allocator.lemma_counter_for_each_plugin();
    }
    if plugin_id as usize >= MAX_PLUGINS {
        return 0;
    }
    allocator.live_bytes_of(plugin_id)
}

/// The live bytes of a plugin by number, as a signed count.
pub fn native_plugin_live_bytes(allocator: &TrackingAllocator, plugin_id: u8) -> (bytes: i64)
    ensures
        bytes == (if plugin_id < MAX_PLUGINS {
            numeric::wrap_i64(allocator@[plugin_id as int] as int)
        } else {
            0
        }),
{
    numeric::signed_count(plugin_live_bytes_by_id(allocator, plugin_id))
}

/// Binds a thread to a plugin by number, which may be out of range.
pub fn native_bind_thread_to_plugin(thread: &mut ThreadBinding, plugin_id: u8) -> (status: Result<
    i64,
    String,
>)
    ensures
        plugin_id < MAX_PLUGINS ==> status == Ok::<i64, String>(0) && final(thread).plugin()
            == plugin_id,
        plugin_id >= MAX_PLUGINS ==> *final(thread) == *old(thread) && status is Err
            && status->Err_0@ == "plugin_id "@ + text::decimal(plugin_id as nat)
            + " exceeds MAX_PLUGINS "@ + text::decimal(MAX_PLUGINS as nat),
{
    if plugin_id as usize >= MAX_PLUGINS {
        let mut message = "plugin_id ".to_owned();
        text::push_decimal(&mut message, plugin_id as u64);
        message.append(" exceeds MAX_PLUGINS ");
        text::push_decimal(&mut message, MAX_PLUGINS as u64);
        return Err(message);
    }
    bind_thread_to_plugin(thread, plugin_id);
    Ok(0)
}

/// The resolved keys of the global statistics.
pub struct StatsMib {
    pub(crate) epoch: epoch_mib,
    pub(crate) allocated: allocated_mib,
    pub(crate) resident: resident_mib,
}

/// The message of the first step that failed in reading the statistics.
pub open spec fn stats_failure(
    advanced: Result<u64, String>,
    allocated: Result<usize, String>,
    resident: Result<usize, String>,
) -> Option<Seq<char>> {
    match (advanced, allocated, resident) {
        (Err(e), _, _) => Some("jemalloc epoch advance failed: "@ + e@),
        (_, Err(e), _) => Some("jemalloc allocated read failed: "@ + e@),
        (_, _, Err(e)) => Some("jemalloc resident read failed: "@ + e@),
        _ => None,
    }
}

/// `stats` is what reading the statistics comes to when the steps give these
/// results.
pub open spec fn stats_of(
    advanced: Result<u64, String>,
    allocated: Result<usize, String>,
    resident: Result<usize, String>,
    stats: Result<(i64, i64), String>,
) -> bool {
    match stats_failure(advanced, allocated, resident) {
        Some(message) => stats is Err && stats->Err_0@ == message,
        None => stats is Ok && stats->Ok_0.0 == numeric::wrap_i64(allocated->Ok_0 as int)
            && stats->Ok_0.1 == numeric::wrap_i64(resident->Ok_0 as int),
    }
}

/// The failure of a step, with what the allocator said.
fn step_failed<T>(step: &str, reason: &String) -> (failure: Result<T, String>)
    ensures
        failure is Err,
        failure->Err_0@ == step@ + reason@,
{
    let mut message = step.to_owned();
    message.append(reason.as_str());
    Err(message)
}

/// Puts allocated and resident bytes together, or says which step failed.
pub fn collect_stats(
    advanced: &Result<u64, String>,
    allocated: &Result<usize, String>,
    resident: &Result<usize, String>,
) -> (stats: Result<(i64, i64), String>)
    ensures
        stats_of(*advanced, *allocated, *resident, stats),
{
    match (advanced, allocated, resident) {
        (Err(e), _, _) => step_failed("jemalloc epoch advance failed: ", e),
        (_, Err(e), _) => step_failed("jemalloc allocated read failed: ", e),
        (_, _, Err(e)) => step_failed("jemalloc resident read failed: ", e),
        (Ok(_), Ok(allocated_bytes), Ok(resident_bytes)) => Ok(
            (numeric::signed_count(*allocated_bytes), numeric::signed_count(*resident_bytes)),
        ),
    }
}

/// What is exchanged with jemalloc in resolving the keys. A step is not taken
/// once an earlier one has failed.
pub open spec fn resolve_steps(
    epoch: Result<(), String>,
    allocated: Result<(), String>,
    resident: Result<(), String>,
) -> Seq<Exchange> {
    match (epoch, allocated) {
        (Err(_), _) => seq![Exchange::Resolve("epoch"@, epoch)],
        (_, Err(_)) => seq![
            Exchange::Resolve("epoch"@, epoch),
            Exchange::Resolve("stats.allocated"@, allocated),
        ],
        _ => seq![
            Exchange::Resolve("epoch"@, epoch),
            Exchange::Resolve("stats.allocated"@, allocated),
            Exchange::Resolve("stats.resident"@, resident),
        ],
    }
}

/// What resolving the keys comes to: the first failure, if there is one.
pub open spec fn resolve_result(
    epoch: Result<(), String>,
    allocated: Result<(), String>,
    resident: Result<(), String>,
) -> Result<(), String> {
    match (epoch, allocated) {
        (Err(_), _) => epoch,
        (_, Err(_)) => allocated,
        _ => resident,
    }
}

/// `result` is what the exchange `steps` comes to.
pub open spec fn resolved(steps: Seq<Exchange>, result: Result<(), String>) -> bool {
    exists|epoch: Result<(), String>, allocated: Result<(), String>, resident: Result<(), String>|
        steps == #[trigger] resolve_steps(epoch, allocated, resident) && result == resolve_result(
            epoch,
            allocated,
            resident,
        )
}

impl StatsMib {
    /// Resolves the keys, once per process.
    pub fn resolve(ctl: &mut Mallctl) -> (mib: Result<StatsMib, String>)
        ensures
            old(ctl)@.is_prefix_of(final(ctl)@),
            resolved(final(ctl)@.skip(old(ctl)@.len() as int), mallctl::without_value(mib)),
    {
        let ghost before = ctl@;
        let ghost fine = Ok::<(), String>(());
        let epoch = match mallctl::resolve_epoch(ctl) {
            Ok(epoch) => epoch,
            Err(reason) => {
                assert(ctl@.skip(before.len() as int) =~= resolve_steps(Err(reason), fine, fine));
                return Err(reason);
            },
        };
        let allocated = match mallctl::resolve_allocated(ctl) {
            Ok(allocated) => allocated,
            Err(reason) => {
                assert(ctl@.skip(before.len() as int) =~= resolve_steps(fine, Err(reason), fine));
                return Err(reason);
            },
        };
        match mallctl::resolve_resident(ctl) {
            Ok(resident) => {
                assert(ctl@.skip(before.len() as int) =~= resolve_steps(fine, fine, fine));
                Ok(StatsMib { epoch, allocated, resident })
            },
            Err(reason) => {
                assert(ctl@.skip(before.len() as int) =~= resolve_steps(fine, fine, Err(reason)));
                Err(reason)
            },
        }
    }
}

/// What is exchanged with jemalloc in reading the statistics. A step is not
/// taken once an earlier one has failed.
pub open spec fn stats_steps(
    advanced: Result<u64, String>,
    allocated: Result<usize, String>,
    resident: Result<usize, String>,
) -> Seq<Exchange> {
    match (advanced, allocated) {
        (Err(_), _) => seq![Exchange::Advance(advanced)],
        (_, Err(_)) => seq![Exchange::Advance(advanced), Exchange::ReadAllocated(allocated)],
        _ => seq![
            Exchange::Advance(advanced),
            Exchange::ReadAllocated(allocated),
            Exchange::ReadResident(resident),
        ],
    }
}

/// `stats` is what the exchange `steps` comes to.
pub open spec fn stats_read(steps: Seq<Exchange>, stats: Result<(i64, i64), String>) -> bool {
    exists|
        advanced: Result<u64, String>,
        allocated: Result<usize, String>,
        resident: Result<usize, String>,
    |
        steps == stats_steps(advanced, allocated, resident) && #[trigger] stats_of(
            advanced,
            allocated,
            resident,
            stats,
        )
}

/// Refreshes the statistics and reads the allocated and the resident bytes.
pub fn refresh_stats(ctl: &mut Mallctl, mib: &StatsMib) -> (stats: Result<(i64, i64), String>)
    ensures
        old(ctl)@.is_prefix_of(final(ctl)@),
        stats_read(final(ctl)@.skip(old(ctl)@.len() as int), stats),
{
    let ghost before = ctl@;
    let advanced = mallctl::advance_epoch(ctl, &mib.epoch);
    let allocated = if advanced.is_ok() {
        mallctl::read_allocated(ctl, &mib.allocated)
    } else {
        Ok(0)
    };
    let resident = if advanced.is_ok() && allocated.is_ok() {
        mallctl::read_resident(ctl, &mib.resident)
    } else {
        Ok(0)
    };
    let stats = collect_stats(&advanced, &allocated, &resident);
    assert(ctl@.skip(before.len() as int) =~= stats_steps(advanced, allocated, resident));
    assert(stats_of(advanced, allocated, resident, stats));
    stats
}

/// The allocated bytes among the statistics.
pub open spec fn allocated_of(stats: Result<(i64, i64), String>) -> Result<i64, String> {
    match stats {
        Ok(pair) => Ok(pair.0),
        Err(message) => Err(message),
    }
}

/// The resident bytes among the statistics.
pub open spec fn resident_of(stats: Result<(i64, i64), String>) -> Result<i64, String> {
    match stats {
        Ok(pair) => Ok(pair.1),
        Err(message) => Err(message),
    }
}

/// Says what goes to the log when the statistics were read in so many
/// microseconds, and whether that is slow.
pub fn refresh_log(elapsed_us: u64) -> (log: (bool, String))
    ensures
        log.0 == (elapsed_us > 100),
        log.1@ == "[jemalloc-stats] refresh_stats took "@ + text::decimal(elapsed_us as nat)
            + " µs"@ + (if elapsed_us > 100 {
            " (SLOW)"@
        } else {
            seq![]
        }),
{
    let slow = elapsed_us > 100;
    let mut line = "[jemalloc-stats] refresh_stats took ".to_owned();
    text::push_decimal(&mut line, elapsed_us);
    line.append(" µs");
    if slow {
        line.append(" (SLOW)");
    }
    (slow, line)
}

/// Returns the bytes in live allocations of the whole process.
pub fn allocated_bytes(ctl: &mut Mallctl, mib: &StatsMib) -> (bytes: Result<i64, String>)
    ensures
        old(ctl)@.is_prefix_of(final(ctl)@),
        exists|stats: Result<(i64, i64), String>|
            #[trigger] stats_read(final(ctl)@.skip(old(ctl)@.len() as int), stats) && bytes
                == allocated_of(stats),
{
    let stats = refresh_stats(ctl, mib);
    let ghost answer = stats;
    assert(stats_read(ctl@.skip(old(ctl)@.len() as int), answer));
    match stats {
        Ok((allocated, _)) => Ok(allocated),
        Err(message) => Err(message),
    }
}

/// Returns the bytes of physical memory that the allocator keeps.
pub fn resident_bytes(ctl: &mut Mallctl, mib: &StatsMib) -> (bytes: Result<i64, String>)
    ensures
        old(ctl)@.is_prefix_of(final(ctl)@),
        exists|stats: Result<(i64, i64), String>|
            #[trigger] stats_read(final(ctl)@.skip(old(ctl)@.len() as int), stats) && bytes
                == resident_of(stats),
{
    let stats = refresh_stats(ctl, mib);
    let ghost answer = stats;
    assert(stats_read(ctl@.skip(old(ctl)@.len() as int), answer));
    match stats {
        Ok((_, resident)) => Ok(resident),
        Err(message) => Err(message),
    }
}

/// [`allocated_bytes`], for callers outside the language.
pub fn native_jemalloc_allocated_bytes(ctl: &mut Mallctl, mib: &StatsMib) -> (bytes: Result<
    i64,
    String,
>)
    ensures
        old(ctl)@.is_prefix_of(final(ctl)@),
        exists|stats: Result<(i64, i64), String>|
            #[trigger] stats_read(final(ctl)@.skip(old(ctl)@.len() as int), stats) && bytes
                == allocated_of(stats),
{
    allocated_bytes(ctl, mib)
}

/// [`resident_bytes`], for callers outside the language.
pub fn native_jemalloc_resident_bytes(ctl: &mut Mallctl, mib: &StatsMib) -> (bytes: Result<
    i64,
    String,
>)
    ensures
        old(ctl)@.is_prefix_of(final(ctl)@),
        exists|stats: Result<(i64, i64), String>|
            #[trigger] stats_read(final(ctl)@.skip(old(ctl)@.len() as int), stats) && bytes
                == resident_of(stats),
{
    resident_bytes(ctl, mib)
}

/// Spells the key of a setting of an arena.
pub fn arena_key(arena: u32, setting: &str) -> (key: String)
    ensures
        key@ == mallctl::arena_key_text(arena, setting@),
{
    let mut key = "arena.".to_owned();
    text::push_decimal(&mut key, arena as u64);
    key.append(".");
    key.append(setting);
    key.append("\0");
    key
}

/// At least one arena took the setting.
pub open spec fn any_taken(answers: Seq<Result<(), String>>) -> bool {
    exists|arena: int| 0 <= arena < answers.len() && (#[trigger] answers[arena]) is Ok
}

/// `status` is what changing a setting comes to when the arenas answer so.
pub open spec fn setting_status(
    setting: Seq<char>,
    answers: Seq<Result<(), String>>,
    status: Result<i64, String>,
) -> bool {
    if any_taken(answers) {
        status == Ok::<i64, String>(0)
    } else {
        status is Err && status->Err_0@ == "failed to set "@ + setting + " on any arena"@
    }
}

/// What is exchanged with jemalloc in changing a setting of every arena: the
/// number of arenas is read, then each of them gets the value.
pub open spec fn setting_steps(
    setting: Seq<char>,
    value: isize,
    narenas: Result<u32, String>,
    answers: Seq<Result<(), String>>,
) -> Seq<Exchange> {
    seq![Exchange::ReadU32("arenas.narenas\0"@, narenas)] + Seq::new(
        answers.len(),
        |arena: int|
            Exchange::WriteIsize(mallctl::arena_key_text(arena as u32, setting), value, answers[arena]),
    )
}

/// How many arenas are set when jemalloc says that it has so many: as many, as
/// far as there can be.
pub open spec fn settable(narenas: u32) -> u32 {
    if narenas < mallctl::ARENA_LIMIT {
        narenas
    } else {
        mallctl::ARENA_LIMIT
    }
}

/// `status` is what changing a setting of every arena comes to when jemalloc
/// answers `narenas` to how many there are, and the arenas answer `answers`.
pub open spec fn setting_outcome(
    setting: Seq<char>,
    narenas: Result<u32, String>,
    answers: Seq<Result<(), String>>,
    status: Result<i64, String>,
) -> bool {
    match narenas {
        Err(reason) => answers.len() == 0 && status is Err && status->Err_0@
            == "failed to read arenas.narenas: "@ + reason@,
        Ok(n) => answers.len() == settable(n) && setting_status(setting, answers, status),
    }
}

/// `status` is what the exchange `steps` comes to, in which a setting of every
/// arena is changed to `value`.
pub open spec fn setting_changed(
    setting: Seq<char>,
    value: isize,
    steps: Seq<Exchange>,
    status: Result<i64, String>,
) -> bool {
    exists|narenas: Result<u32, String>, answers: Seq<Result<(), String>>|
        steps == setting_steps(setting, value, narenas, answers) && #[trigger] setting_outcome(
            setting,
            narenas,
            answers,
            status,
        )
}

/// Decides whether a setting was changed.
pub fn settle_setting(setting: &str, answers: &Vec<Result<(), String>>) -> (status: Result<
    i64,
    String,
>)
    ensures
        setting_status(setting@, answers@, status),
{
    let mut arena: usize = 0;
    while arena < answers.len()
        invariant
            arena <= answers@.len(),
            forall|k: int| 0 <= k < arena ==> (#[trigger] answers@[k]) is Err,
        decreases answers@.len() - arena,
    {
        if answers[arena].is_ok() {
            return Ok(0);
        }
        arena += 1;
    }
    let mut message = "failed to set ".to_owned();
    message.append(setting);
    message.append(" on any arena");
    Err(message)
}

/// Changes a setting of every arena. It is enough if one arena takes it.
fn set_all_arenas(ctl: &mut Mallctl, setting: &str, ms: i64) -> (status: Result<i64, String>)
    requires
        setting@ == "dirty_decay_ms"@ || setting@ == "muzzy_decay_ms"@,
    ensures
        old(ctl)@.is_prefix_of(final(ctl)@),
        setting_changed(
            setting@,
            ms as isize,
            final(ctl)@.skip(old(ctl)@.len() as int),
            status,
        ),
{
    let ghost before = ctl@;
    let value: isize = ms as isize;
    let narenas = mallctl::read_u32(ctl, "arenas.narenas\0");
    let ghost answer = narenas;
    match narenas {
        Err(reason) => {
            let status = step_failed("failed to read arenas.narenas: ", &reason);
            assert(ctl@.skip(before.len() as int) =~= setting_steps(
                setting@,
                value,
                answer,
                Seq::empty(),
            ));
            assert(setting_outcome(setting@, answer, Seq::empty(), status));
            status
        },
        Ok(narenas) => {
            let mut answers: Vec<Result<(), String>> = Vec::new();
            let mut arena: u32 = 0;
            assert(ctl@ =~= before + setting_steps(setting@, value, answer, answers@));
            while arena < narenas && arena < mallctl::ARENA_LIMIT
                invariant
                    arena <= settable(narenas),
                    answers@.len() == arena,
                    ctl@ == before + setting_steps(setting@, value, answer, answers@),
                    setting@ == "dirty_decay_ms"@ || setting@ == "muzzy_decay_ms"@,
                decreases narenas - arena,
            {
                let key = arena_key(arena, setting);
                assert(mallctl::is_decay_key(arena, key@));
                answers.push(mallctl::write_isize(ctl, key.as_str(), value));
                assert(ctl@ =~= before + setting_steps(setting@, value, answer, answers@));
                arena += 1;
            }
            let status = settle_setting(setting, &answers);
            assert(ctl@.skip(before.len() as int) =~= setting_steps(
                setting@,
                value,
                answer,
                answers@,
            ));
            assert(setting_outcome(setting@, answer, answers@, status));
            status
        },
    }
}

/// Sets, for all arenas, after how many milliseconds unused dirty pages are
/// purged.
pub fn native_jemalloc_set_dirty_decay_ms(ctl: &mut Mallctl, ms: i64) -> (status: Result<
    i64,
    String,
>)
    ensures
        old(ctl)@.is_prefix_of(final(ctl)@),
        setting_changed(
            "dirty_decay_ms"@,
            ms as isize,
            final(ctl)@.skip(old(ctl)@.len() as int),
            status,
        ),
{
    set_all_arenas(ctl, "dirty_decay_ms", ms)
}

/// Sets, for all arenas, after how many milliseconds unused muzzy pages are
/// purged.
pub fn native_jemalloc_set_muzzy_decay_ms(ctl: &mut Mallctl, ms: i64) -> (status: Result<
    i64,
    String,
>)
    ensures
        old(ctl)@.is_prefix_of(final(ctl)@),
        setting_changed(
            "muzzy_decay_ms"@,
            ms as isize,
            final(ctl)@.skip(old(ctl)@.len() as int),
            status,
        ),
{
    set_all_arenas(ctl, "muzzy_decay_ms", ms)
}

/// Live bytes of plugins 1 to `n` together.
pub open spec fn tagged_total(counters: Seq<usize>, n: int) -> int
    decreases n,
{
    if n <= 0 {
        0
    } else {
        tagged_total(counters, n - 1) + counters[n]
    }
}

/// Live bytes of a plugin, by name.
pub struct PluginUsage {
    pub name: &'static str,
    pub bytes: usize,
}

/// Live bytes of all plugins at one time.
pub struct UsageReport {
    /// The registered plugins, in the order of registration.
    pub plugins: Vec<PluginUsage>,
    /// Memory that no plugin asked for.
    pub untagged: usize,
    /// All of the above.
    pub tracked_total: usize,
}

/// `report` is the live bytes of every registered plugin, and in all. The total
/// wraps.
pub open spec fn usage_of(names: Seq<Seq<char>>, counters: Seq<usize>, report: UsageReport) -> bool {
    &&& report.plugins@.len() == names.len()
    &&& forall|i: int|
        0 <= i < names.len() ==> (#[trigger] report.plugins@[i]).name@ == names[i]
            && report.plugins@[i].bytes == counters[i + 1]
    &&& report.untagged == counters[0]
    &&& report.tracked_total == (tagged_total(counters, names.len() as int) + counters[0])
        % numeric::usize_modulus()
}

/// Reports the live bytes of every registered plugin, and in all.
pub fn report_usage(registry: &PluginRegistry, allocator: &TrackingAllocator) -> (report:
    UsageReport)
    requires
        registry.wf(),
    ensures
        usage_of(registry@, allocator@, report),
{
    let count: u8 = registered_plugin_count(registry);
    let mut plugins: Vec<PluginUsage> = Vec::new();
    let mut total: usize = 0;
    let mut id: u8 = 1;
    proof {
        div_mod::lemma_small_mod(0, numeric::usize_modulus() as nat);
    }
    while id <= count
        invariant
            registry.wf(),
            count == registry@.len(),
            1 <= id <= count + 1,
            count < MAX_PLUGINS,
            plugins@.len() == id - 1,
            forall|i: int|
                0 <= i < id - 1 ==> (#[trigger] plugins@[i]).name@ == registry@[i]
                    && plugins@[i].bytes == allocator@[i + 1],
            total == tagged_total(allocator@, id - 1) % numeric::usize_modulus(),
        decreases count + 1 - id,
    {
        let name = match plugin_name(registry, id) {
            Some(name) => name,
            None => "?",
        };
        let bytes: usize = plugin_live_bytes_by_id(allocator, id);
        proof {
            numeric::lemma_wrapping_add(total, bytes);
            div_mod::lemma_add_mod_noop_right(
                bytes as int,
                tagged_total(allocator@, id - 1),
                numeric::usize_modulus(),
            );
        }
        total = total.wrapping_add(bytes);
        plugins.push(PluginUsage { name, bytes });
        id += 1;
    }
    let untagged: usize = plugin_live_bytes_by_id(allocator, 0);
    proof {
        numeric::lemma_wrapping_add(total, untagged);
        div_mod::lemma_add_mod_noop_right(
            untagged as int,
            tagged_total(allocator@, count as int),
            numeric::usize_modulus(),
        );
    }
    UsageReport { plugins, untagged, tracked_total: total.wrapping_add(untagged) }
}

/// What the monitor reports at one time.
pub struct MonitorReport {
    /// Live bytes of all plugins.
    pub usage: UsageReport,
    /// Allocated and resident bytes of the process.
    pub totals: Result<(i64, i64), String>,
}

/// Makes a report of the monitor.
pub fn monitor_report(
    registry: &PluginRegistry,
    allocator: &TrackingAllocator,
    ctl: &mut Mallctl,
    mib: &StatsMib,
) -> (report: MonitorReport)
    requires
        registry.wf(),
    ensures
        usage_of(registry@, allocator@, report.usage),
        old(ctl)@.is_prefix_of(final(ctl)@),
        stats_read(final(ctl)@.skip(old(ctl)@.len() as int), report.totals),
{
    let usage = report_usage(registry, allocator);
    let totals = refresh_stats(ctl, mib);
    MonitorReport { usage, totals }
}

/// Spells what the monitor says if the totals cannot be read.
pub fn totals_failure_line(reason: &str) -> (line: String)
    ensures
        line@ == "[jemalloc-total] stats read failed: "@ + reason@,
{
    let mut line = "[jemalloc-total] stats read failed: ".to_owned();
    line.append(reason);
    line
}

/// Whether usage is reported periodically, and by which monitor. Each monitor that
/// is started gets the next number.
pub struct PluginMonitor {
    pub running: bool,
    pub generation: u64,
}

/// The next number of a monitor. The numbers wrap.
pub open spec fn next_generation(generation: u64) -> u64 {
    if generation == u64::MAX {
        0
    } else {
        (generation + 1) as u64
    }
}

/// The state after a start. Nothing changes if a monitor is running.
pub open spec fn started(monitor: PluginMonitor) -> PluginMonitor {
    if monitor.running {
        monitor
    } else {
        PluginMonitor { running: true, generation: next_generation(monitor.generation) }
    }
}

/// The state after a stop.
pub open spec fn stopped(monitor: PluginMonitor) -> PluginMonitor {
    PluginMonitor { running: false, ..monitor }
}

/// The monitor of this number goes on.
pub open spec fn goes_on(monitor: PluginMonitor, generation: u64) -> bool {
    monitor.running && monitor.generation == generation
}

/// Starts the reports; gives the number of the monitor if one has to be started,
/// that is, if none is running already.
pub fn start_plugin_monitor(monitor: &mut PluginMonitor) -> (start: Option<u64>)
    ensures
        *final(monitor) == started(*old(monitor)),
        start == (if old(monitor).running {
            None
        } else {
            Some(final(monitor).generation)
        }),
{
    if monitor.running {
        return None;
    }
    monitor.running = true;
    monitor.generation = if monitor.generation == u64::MAX {
        0
    } else {
        monitor.generation + 1
    };
    Some(monitor.generation)
}

/// Stops the reports.
pub fn stop_plugin_monitor(monitor: &mut PluginMonitor)
    ensures
        *final(monitor) == stopped(*old(monitor)),
{
    monitor.running = false;
}

/// Says whether the monitor of this number goes on.
pub fn monitor_goes_on(monitor: &PluginMonitor, generation: u64) -> (going: bool)
    ensures
        going == goes_on(*monitor, generation),
{
    monitor.running && monitor.generation == generation
}

/// A monitor that has to be started.
pub struct MonitorStart {
    /// Seconds between two reports.
    pub interval: u64,
    /// The number of the monitor.
    pub generation: u64,
}

/// Starts the reports at an interval in seconds.
///
/// Gives back the monitor that has to be started, if any.
pub fn native_start_plugin_monitor(monitor: &mut PluginMonitor, interval_secs: i64) -> (start:
    Result<Option<MonitorStart>, String>)
    ensures
        interval_secs <= 0 ==> *final(monitor) == *old(monitor) && start is Err && start->Err_0@
            == "interval must be positive"@,
        interval_secs > 0 ==> *final(monitor) == started(*old(monitor)) && start == Ok::<
            Option<MonitorStart>,
            String,
        >(
            if old(monitor).running {
                None
            } else {
                Some(
                    MonitorStart {
                        interval: interval_secs as u64,
                        generation: final(monitor).generation,
                    },
                )
            },
        ),
{
    if interval_secs <= 0 {
        return Err("interval must be positive".to_owned());
    }
    match start_plugin_monitor(monitor) {
        Some(generation) => Ok(Some(MonitorStart { interval: interval_secs as u64, generation })),
        None => Ok(None),
    }
}

/// Stops the reports.
pub fn native_stop_plugin_monitor(monitor: &mut PluginMonitor) -> (status: i64)
    ensures
        status == 0,
        *final(monitor) == stopped(*old(monitor)),
{
    stop_plugin_monitor(monitor);
    0
}

/// What can be done to the monitor.
pub enum MonitorStep {
    /// [`start_plugin_monitor`]
    Start,
    /// [`stop_plugin_monitor`]
    Stop,
}

/// The state after several starts and stops.
pub open spec fn after_monitor_steps(monitor: PluginMonitor, steps: Seq<MonitorStep>) -> PluginMonitor
    decreases steps.len(),
{
    if steps.len() == 0 {
        monitor
    } else {
        let before = after_monitor_steps(monitor, steps.drop_last());
        match steps.last() {
            MonitorStep::Start => started(before),
            MonitorStep::Stop => stopped(before),
        }
    }
}

/// At no time do two monitors go on.
pub proof fn law_one_monitor_goes_on(monitor: PluginMonitor, one: u64, other: u64)
    requires
        goes_on(monitor, one),
        goes_on(monitor, other),
    ensures
        one == other,
{
}

/// How many of the steps start a monitor.
pub open spec fn monitors_started(monitor: PluginMonitor, steps: Seq<MonitorStep>) -> nat
    decreases steps.len(),
{
    if steps.len() == 0 {
        0
    } else {
        let earlier = steps.drop_last();
        let running = after_monitor_steps(monitor, earlier).running;
        monitors_started(monitor, earlier) + if steps.last() is Start && !running {
            1nat
        } else {
            0
        }
    }
}

/// Each monitor that is started gets the next number.
proof fn lemma_generations_count_up(monitor: PluginMonitor, steps: Seq<MonitorStep>)
    requires
        !monitor.running,
    ensures
        ({
            let after = after_monitor_steps(monitor, steps);
            let count = monitors_started(monitor, steps);
            &&& after.generation == (monitor.generation + count) % 0x1_0000_0000_0000_0000
            &&& after.running ==> count > 0
        }),
    decreases steps.len(),
{
    if steps.len() > 0 {
        lemma_generations_count_up(monitor, steps.drop_last());
    }
}

/// A monitor that was stopped does not go on, whatever is started and stopped
/// after it, as long as the numbers have not gone round.
pub proof fn law_stopped_monitor_exits(monitor: PluginMonitor, steps: Seq<MonitorStep>)
    requires
        monitors_started(stopped(monitor), steps) < 0x1_0000_0000_0000_0000,
    ensures
        !goes_on(after_monitor_steps(stopped(monitor), steps), monitor.generation),
{
    lemma_generations_count_up(stopped(monitor), steps);
}

/// The write of a setting to an arena.
pub open spec fn sets_arena(step: Exchange, setting: Seq<char>, value: isize, arena: int) -> bool {
    step matches Exchange::WriteIsize(key, written, _) && written == value && key == "arena."@
        + text::decimal(arena as nat) + "."@ + setting + "\0"@
}

/// The write of a setting to an arena was taken.
pub open spec fn takes_setting(step: Exchange) -> bool {
    step matches Exchange::WriteIsize(_, _, answer) && answer is Ok
}

/// Changing a setting asks how many arenas there are, and then writes the value to
/// each of them, up to the last one that there can be, in order and once.
pub proof fn law_every_arena_gets_the_setting(
    setting: Seq<char>,
    value: isize,
    steps: Seq<Exchange>,
    status: Result<i64, String>,
)
    requires
        setting_changed(setting, value, steps, status),
    ensures
        steps.len() > 0,
        steps[0] matches Exchange::ReadU32(key, answer) && key == "arenas.narenas\0"@
            && steps.len() == 1 + (match answer {
            Ok(narenas) => if narenas < 4095 {
                narenas as int
            } else {
                4095
            },
            Err(_) => 0,
        }),
        forall|i: int|
            1 <= i < steps.len() ==> sets_arena(#[trigger] steps[i], setting, value, i - 1),
{
    let (narenas, answers) = choose|
        narenas: Result<u32, String>,
        answers: Seq<Result<(), String>>,
    |
        steps == setting_steps(setting, value, narenas, answers) && #[trigger] setting_outcome(
            setting,
            narenas,
            answers,
            status,
        );
    assert(steps[0] == Exchange::ReadU32("arenas.narenas\0"@, narenas));
    assert forall|i: int| 1 <= i < steps.len() implies sets_arena(
        #[trigger] steps[i],
        setting,
        value,
        i - 1,
    ) by {
        let arena = i - 1;
        assert(steps[i] == Exchange::WriteIsize(
            mallctl::arena_key_text(arena as u32, setting),
            value,
            answers[arena],
        ));
    }
}

/// Two arenas have keys of their own.
pub proof fn law_arenas_have_keys_of_their_own(setting: Seq<char>, first: u32, second: u32)
    requires
        mallctl::arena_key_text(first, setting) == mallctl::arena_key_text(second, setting),
    ensures
        first == second,
{
    let start = "arena."@.len() as int;
    let end = ("."@ + setting + "\0"@).len() as int;
    let one = mallctl::arena_key_text(first, setting);
    let other = mallctl::arena_key_text(second, setting);
    assert(one.subrange(start, one.len() - end) =~= text::decimal(first as nat));
    assert(other.subrange(start, other.len() - end) =~= text::decimal(second as nat));
    text::law_decimal_tells_numbers_apart(first as nat, second as nat);
}

/// A setting was changed exactly if some arena took it. If it was not, the message
/// says so, or why the number of arenas could not be read.
pub proof fn law_setting_is_changed_if_some_arena_takes_it(
    setting: Seq<char>,
    value: isize,
    steps: Seq<Exchange>,
    status: Result<i64, String>,
)
    requires
        setting_changed(setting, value, steps, status),
    ensures
        status is Ok <==> exists|i: int|
            1 <= i < steps.len() && takes_setting(#[trigger] steps[i]),
        status is Ok ==> status == Ok::<i64, String>(0),
        status matches Err(message) ==> (steps[0] matches Exchange::ReadU32(_, answer)
            && match answer {
            Ok(_) => message@ == "failed to set "@ + setting + " on any arena"@,
            Err(reason) => message@ == "failed to read arenas.narenas: "@ + reason@,
        }),
{
    let (narenas, answers) = choose|
        narenas: Result<u32, String>,
        answers: Seq<Result<(), String>>,
    |
        steps == setting_steps(setting, value, narenas, answers) && #[trigger] setting_outcome(
            setting,
            narenas,
            answers,
            status,
        );
    assert(steps[0] == Exchange::ReadU32("arenas.narenas\0"@, narenas));
    assert forall|arena: int| 0 <= arena < answers.len() implies #[trigger] steps[arena + 1]
        == Exchange::WriteIsize(
        mallctl::arena_key_text(arena as u32, setting),
        value,
        answers[arena],
    ) by {}
    if any_taken(answers) {
        let arena = choose|arena: int| 0 <= arena < answers.len() && (#[trigger] answers[arena]) is Ok;
        assert(takes_setting(steps[arena + 1]));
    }
    if exists|i: int| 1 <= i < steps.len() && takes_setting(#[trigger] steps[i]) {
        let i = choose|i: int| 1 <= i < steps.len() && takes_setting(#[trigger] steps[i]);
        let arena = i - 1;
        assert(steps[arena + 1] == steps[i]);
        assert(answers[arena] is Ok);
    }
}

/// Statistics that are read are what jemalloc answers, refreshed first: allocated
/// bytes first, resident bytes second.
pub proof fn law_statistics_are_what_is_answered(steps: Seq<Exchange>, stats: (i64, i64))
    requires
        stats_read(steps, Ok(stats)),
    ensures
        steps.len() == 3,
        steps[0] matches Exchange::Advance(answer) && answer is Ok,
        steps[1] matches Exchange::ReadAllocated(answer) && (answer matches Ok(bytes) && (bytes
            <= i64::MAX ==> stats.0 == bytes) && (bytes - stats.0) % 0x1_0000_0000_0000_0000 == 0),
        steps[2] matches Exchange::ReadResident(answer) && (answer matches Ok(bytes) && (bytes
            <= i64::MAX ==> stats.1 == bytes) && (bytes - stats.1) % 0x1_0000_0000_0000_0000 == 0),
        allocated_of(Ok(stats)) == Ok::<i64, String>(stats.0),
        resident_of(Ok(stats)) == Ok::<i64, String>(stats.1),
{
    let (advanced, allocated, resident) = choose|
        advanced: Result<u64, String>,
        allocated: Result<usize, String>,
        resident: Result<usize, String>,
    |
        steps == stats_steps(advanced, allocated, resident) && #[trigger] stats_of(
            advanced,
            allocated,
            resident,
            Ok(stats),
        );
    numeric::law_signed_words_differ_by_turns(allocated->Ok_0 as int);
    numeric::law_signed_words_differ_by_turns(resident->Ok_0 as int);
    assert(steps[1] == Exchange::ReadAllocated(allocated));
    assert(steps[2] == Exchange::ReadResident(resident));
}

/// The error that a request for a statistic was answered with.
pub open spec fn statistic_failure(step: Exchange) -> Option<Seq<char>> {
    match step {
        Exchange::Advance(Err(reason)) => Some("jemalloc epoch advance failed: "@ + reason@),
        Exchange::ReadAllocated(Err(reason)) => Some(
            "jemalloc allocated read failed: "@ + reason@,
        ),
        Exchange::ReadResident(Err(reason)) => Some("jemalloc resident read failed: "@ + reason@),
        _ => None,
    }
}

/// Statistics that cannot be read failed at the last request, which the message
/// tells, and at none before it.
pub proof fn law_unread_statistics_failed_last(steps: Seq<Exchange>, message: String)
    requires
        stats_read(steps, Err(message)),
    ensures
        1 <= steps.len() <= 3,
        statistic_failure(steps.last()) == Some(message@),
        forall|i: int|
            0 <= i < steps.len() - 1 ==> statistic_failure(#[trigger] steps[i]) is None,
        steps[0] is Advance,
        steps.len() > 1 ==> steps[1] is ReadAllocated,
        steps.len() > 2 ==> steps[2] is ReadResident,
        allocated_of(Err(message)) == Err::<i64, String>(message),
        resident_of(Err(message)) == Err::<i64, String>(message),
{
}

/// The keys of the global statistics are resolved in order, each once, up to the
/// first one that cannot be.
pub proof fn law_keys_are_resolved_in_order(steps: Seq<Exchange>, result: Result<(), String>)
    requires
        resolved(steps, result),
    ensures
        1 <= steps.len() <= 3,
        steps[0] matches Exchange::Resolve(key, _) && key == "epoch"@,
        steps.len() > 1 ==> (steps[1] matches Exchange::Resolve(key, _) && key
            == "stats.allocated"@),
        steps.len() > 2 ==> (steps[2] matches Exchange::Resolve(key, _) && key
            == "stats.resident"@),
        forall|i: int|
            0 <= i < steps.len() - 1 ==> (#[trigger] steps[i] matches Exchange::Resolve(_, answer)
                && answer is Ok),
        steps.last() matches Exchange::Resolve(_, answer) && answer == result,
        result is Ok ==> steps.len() == 3,
{
    let (epoch, allocated, resident) = choose|
        epoch: Result<(), String>,
        allocated: Result<(), String>,
        resident: Result<(), String>,
    |
        steps == #[trigger] resolve_steps(epoch, allocated, resident) && result == resolve_result(
            epoch,
            allocated,
            resident,
        );
    assert(steps[0] == Exchange::Resolve("epoch"@, epoch));
    if epoch is Ok {
        assert(steps[1] == Exchange::Resolve("stats.allocated"@, allocated));
        if allocated is Ok {
            assert(steps[2] == Exchange::Resolve("stats.resident"@, resident));
        }
    }
}

/// Bytes of all plugins that are listed.
pub open spec fn listed_bytes(plugins: Seq<PluginUsage>) -> int
    decreases plugins.len(),
{
    if plugins.len() == 0 {
        0
    } else {
        listed_bytes(plugins.drop_last()) + plugins.last().bytes
    }
}

proof fn lemma_listed(counters: Seq<usize>, plugins: Seq<PluginUsage>)
    requires
        forall|i: int|
            0 <= i < plugins.len() ==> (#[trigger] plugins[i]).bytes == counters[i + 1],
    ensures
        listed_bytes(plugins) == tagged_total(counters, plugins.len() as int),
        listed_bytes(plugins) >= 0,
    decreases plugins.len(),
{
    if plugins.len() > 0 {
        let earlier = plugins.drop_last();
        assert forall|i: int| 0 <= i < earlier.len() implies (#[trigger] earlier[i]).bytes
            == counters[i + 1] by {
            assert(earlier[i] == plugins[i]);
        }
        lemma_listed(counters, earlier);
        assert(plugins.last() == plugins[plugins.len() - 1]);
    }
}

/// A report lists every registered plugin under its name with its own counter, and
/// its total is the sum of what it lists and of what no plugin asked for.
pub proof fn law_usage_adds_up(names: Seq<Seq<char>>, counters: Seq<usize>, report: UsageReport)
    requires
        usage_of(names, counters, report),
    ensures
        report.plugins@.len() == names.len(),
        forall|i: int| 0 <= i < names.len() ==> (#[trigger] report.plugins@[i]).name@ == names[i],
        forall|i: int|
            0 <= i < names.len() ==> (#[trigger] report.plugins@[i]).bytes == counters[i + 1],
        report.untagged == counters[0],
        listed_bytes(report.plugins@) + report.untagged <= usize::MAX ==> report.tracked_total
            == listed_bytes(report.plugins@) + report.untagged,
        (listed_bytes(report.plugins@) + report.untagged) % (usize::MAX + 1)
            == report.tracked_total,
{
    lemma_listed(counters, report.plugins@);
    let total = listed_bytes(report.plugins@) + report.untagged;
    if total <= usize::MAX {
        div_mod::lemma_small_mod(total as nat, numeric::usize_modulus() as nat);
    }
}

/// A monitor that is started goes on, with a number other than that of the last
/// one, until it is stopped; starting once more changes nothing.
pub proof fn law_started_monitor_goes_on(monitor: PluginMonitor)
    ensures
        goes_on(started(monitor), started(monitor).generation),
        started(started(monitor)) == started(monitor),
        !monitor.running ==> started(monitor).generation != monitor.generation,
        monitor.running ==> started(monitor) == monitor,
        forall|generation: u64| !goes_on(stopped(monitor), generation),
{
}

} // verus!
