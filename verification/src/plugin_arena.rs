//! Per-plugin memory by groups of jemalloc arenas.
//!
//! Each plugin gets arenas of its own. A thread that works for a plugin is
//! bound to one of them, so that what it allocates comes from the plugin's
//! arenas. A block goes back to the arena it came from, whichever thread frees
//! it.
use crate::allocator::StatsMib;
use crate::mallctl;
use crate::mallctl::{ArenaStatKey, Exchange, Mallctl};
use crate::numeric;
use crate::text;
use tikv_jemalloc_ctl::epoch_mib;
use vstd::prelude::*;
use vstd::string::*;

verus! {

/// Most arenas that a plugin can have.
pub const MAX_ARENAS_PER_PLUGIN: usize = 64;

/// Most plugins that are supported.
pub const MAX_PLUGINS: usize = 16;

/// Arenas of a plugin that does not say how many it wants.
pub const DEFAULT_ARENAS: usize = 4;

/// The arenas of each plugin. Plugin `i + 1` has the `i`-th group.
pub struct PluginArenas {
    plugins: Vec<Vec<u32>>,
}

impl View for PluginArenas {
    type V = Seq<Seq<u32>>;

    closed spec fn view(&self) -> Seq<Seq<u32>> {
        self.plugins@.map_values(|arenas: Vec<u32>| arenas@)
    }
}

/// The plugin that a thread allocates for, 0 for none.
#[derive(Clone, Copy, Debug)]
pub struct ArenaBinding {
    pub plugin: u8,
}

/// A number of arenas that a plugin can have.
pub open spec fn group_size_ok(n_arenas: int) -> bool {
    1 <= n_arenas <= MAX_ARENAS_PER_PLUGIN
}

/// The answers to requests for `n` arenas: each gives one, but the last request
/// may fail.
pub open spec fn creation(answers: Seq<Result<u32, String>>, n: int) -> bool {
    &&& answers.len() <= n
    &&& forall|i: int| 0 <= i < answers.len() - 1 ==> (#[trigger] answers[i]) is Ok
    &&& answers.len() < n ==> answers.len() > 0 && answers.last() is Err
}

/// What is exchanged with jemalloc in making arenas.
pub open spec fn creation_steps(answers: Seq<Result<u32, String>>) -> Seq<Exchange> {
    answers.map_values(|answer| Exchange::ReadU32("arenas.create\0"@, answer))
}

/// The arenas that were made.
pub open spec fn arenas_made(answers: Seq<Result<u32, String>>) -> Seq<u32> {
    answers.map_values(|answer: Result<u32, String>| answer->Ok_0)
}

/// `status` is what registering a plugin with `n_arenas` arenas comes to when
/// the registry goes from `before` to `after` and jemalloc answers `answers`
/// to the requests for arenas.
pub open spec fn registration(
    before: Seq<Seq<u32>>,
    n_arenas: usize,
    answers: Seq<Result<u32, String>>,
    after: Seq<Seq<u32>>,
    status: Result<i64, String>,
) -> bool {
    if !group_size_ok(n_arenas as int) {
        &&& answers.len() == 0
        &&& after == before
        &&& status is Err
        &&& status->Err_0@ == "n_arenas must be 1.."@ + text::decimal(MAX_ARENAS_PER_PLUGIN as nat)
    } else if before.len() >= MAX_PLUGINS {
        &&& answers.len() == 0
        &&& after == before
        &&& status is Err
        &&& status->Err_0@ == "max plugins ("@ + text::decimal(MAX_PLUGINS as nat) + ") exceeded"@
    } else {
        &&& creation(answers, n_arenas as int)
        &&& match answers.last() {
            Ok(_) => after == before.push(arenas_made(answers)) && status == Ok::<i64, String>(
                (before.len() + 1) as i64,
            ),
            Err(reason) => after == before && status is Err && status->Err_0@
                == "arenas.create failed: "@ + reason@,
        }
    }
}

/// `status` is what registering a plugin comes to in the exchange `steps`.
pub open spec fn registered(
    before: Seq<Seq<u32>>,
    n_arenas: usize,
    steps: Seq<Exchange>,
    after: Seq<Seq<u32>>,
    status: Result<i64, String>,
) -> bool {
    exists|answers: Seq<Result<u32, String>>|
        steps == creation_steps(answers) && #[trigger] registration(
            before,
            n_arenas,
            answers,
            after,
            status,
        )
}

impl PluginArenas {
    /// There are not too many plugins, and each has arenas, not too many.
    pub open spec fn wf(&self) -> bool {
        &&& self@.len() <= MAX_PLUGINS
        &&& forall|i: int| 0 <= i < self@.len() ==> group_size_ok(#[trigger] self@[i].len() as int)
    }

    /// No plugin is registered.
    pub fn new() -> (registry: PluginArenas)
        ensures
            registry.wf(),
            registry@ == Seq::<Seq<u32>>::empty(),
    {
        let registry = PluginArenas { plugins: Vec::new() };
        assert(registry@ =~= Seq::<Seq<u32>>::empty());
        registry
    }

    /// Gives the next plugin these arenas.
    pub fn add_plugin(&mut self, arenas: Vec<u32>) -> (plugin_id: i64)
        requires
            old(self).wf(),
            old(self)@.len() < MAX_PLUGINS,
            group_size_ok(arenas@.len() as int),
        ensures
            final(self).wf(),
            plugin_id == old(self)@.len() + 1,
            final(self)@ == old(self)@.push(arenas@),
    {
        self.plugins.push(arenas);
        let plugin_id: i64 = self.plugins.len() as i64;
        assert(self@ =~= old(self)@.push(arenas@));
        plugin_id
    }
}

/// Makes `n` arenas. The reason is given if one of them cannot be made.
fn create_arenas(ctl: &mut Mallctl, n: usize) -> (created: (
    Result<Vec<u32>, String>,
    Ghost<Seq<Result<u32, String>>>,
))
    requires
        n > 0,
    ensures
        final(ctl)@ == old(ctl)@ + creation_steps(created.1@),
        creation(created.1@, n as int),
        created.1@.len() > 0,
        match created.1@.last() {
            Ok(_) => created.0 is Ok && created.0->Ok_0@ == arenas_made(created.1@)
                && created.1@.len() == n,
            Err(reason) => created.0 is Err && created.0->Err_0@ == "arenas.create failed: "@
                + reason@,
        },
{
    let mut arenas: Vec<u32> = Vec::new();
    let ghost mut answers: Seq<Result<u32, String>> = Seq::empty();
    assert(ctl@ =~= old(ctl)@ + creation_steps(answers));
    while arenas.len() < n
        invariant
            arenas@.len() <= n,
            ctl@ == old(ctl)@ + creation_steps(answers),
            answers.len() == arenas@.len(),
            forall|i: int| 0 <= i < answers.len() ==> (#[trigger] answers[i]) is Ok,
            arenas@ == arenas_made(answers),
        decreases n - arenas@.len(),
    {
        let answer = mallctl::read_u32(ctl, "arenas.create\0");
        proof {
            let earlier = answers;
            answers = answers.push(answer);
            assert(creation_steps(answers) =~= creation_steps(earlier).push(
                Exchange::ReadU32("arenas.create\0"@, answer),
            ));
            assert(ctl@ =~= old(ctl)@ + creation_steps(answers));
        }
        match answer {
            Ok(arena) => {
                arenas.push(arena);
                assert(arenas@ =~= arenas_made(answers));
            },
            Err(reason) => {
                let mut message = "arenas.create failed: ".to_owned();
                message.append(reason.as_str());
                return (Err(message), Ghost(answers));
            },
        }
    }
    (Ok(arenas), Ghost(answers))
}

/// Registers a plugin with `n_arenas` arenas of its own.
pub fn register_plugin_with_arenas(
    registry: &mut PluginArenas,
    ctl: &mut Mallctl,
    n_arenas: usize,
) -> (status: Result<i64, String>)
    requires
        old(registry).wf(),
    ensures
        final(registry).wf(),
        old(ctl)@.is_prefix_of(final(ctl)@),
        registered(
            old(registry)@,
            n_arenas,
            final(ctl)@.skip(old(ctl)@.len() as int),
            final(registry)@,
            status,
        ),
{
    let ghost none = Seq::<Result<u32, String>>::empty();
    assert(ctl@.skip(ctl@.len() as int) =~= creation_steps(none));
    if n_arenas == 0 || n_arenas > MAX_ARENAS_PER_PLUGIN {
        let mut message = "n_arenas must be 1..".to_owned();
        text::push_decimal(&mut message, MAX_ARENAS_PER_PLUGIN as u64);
        assert(registration(registry@, n_arenas, none, registry@, Err(message)));
        return Err(message);
    }
    if registry.plugins.len() >= MAX_PLUGINS {
        let mut message = "max plugins (".to_owned();
        text::push_decimal(&mut message, MAX_PLUGINS as u64);
        message.append(") exceeded");
        assert(registration(registry@, n_arenas, none, registry@, Err(message)));
        return Err(message);
    }
    let (created, Ghost(answers)) = create_arenas(ctl, n_arenas);
    assert(ctl@.skip(old(ctl)@.len() as int) =~= creation_steps(answers));
    match created {
        Err(message) => {
            assert(registration(registry@, n_arenas, answers, registry@, Err(message)));
            Err(message)
        },
        Ok(arenas) => {
            let plugin_id: i64 = registry.add_plugin(arenas);
            assert(registration(old(registry)@, n_arenas, answers, registry@, Ok(plugin_id)));
            Ok(plugin_id)
        },
    }
}

/// Registers a plugin with the default number of arenas.
pub fn register_plugin(registry: &mut PluginArenas, ctl: &mut Mallctl) -> (status: Result<
    i64,
    String,
>)
    requires
        old(registry).wf(),
    ensures
        final(registry).wf(),
        old(ctl)@.is_prefix_of(final(ctl)@),
        registered(
            old(registry)@,
            DEFAULT_ARENAS,
            final(ctl)@.skip(old(ctl)@.len() as int),
            final(registry)@,
            status,
        ),
{
    register_plugin_with_arenas(registry, ctl, DEFAULT_ARENAS)
}

/// Counts the processors that the process may use: `num_cpus::get`.
///
/// It says of itself that this is at least 1.
#[verifier::external_body]
fn available_cpus(ctl: &mut Mallctl) -> (n: usize)
    ensures
        final(ctl)@ == old(ctl)@.push(Exchange::CountCpus(n)),
        n >= 1,
{
    num_cpus::get()
}

/// `status` is what registering a plugin with an arena per processor comes to in
/// the exchange `steps`: the processors are counted first.
pub open spec fn registered_auto(
    before: Seq<Seq<u32>>,
    steps: Seq<Exchange>,
    after: Seq<Seq<u32>>,
    status: Result<i64, String>,
) -> bool {
    &&& steps.len() > 0
    &&& steps[0] matches Exchange::CountCpus(cpus)
    &&& cpus >= 1
    &&& registered(before, arenas_of(cpus), steps.skip(1), after, status)
}

/// Registers a plugin with an arena per processor, as far as it can have them.
pub fn register_plugin_auto(registry: &mut PluginArenas, ctl: &mut Mallctl) -> (status: Result<
    i64,
    String,
>)
    requires
        old(registry).wf(),
    ensures
        final(registry).wf(),
        old(ctl)@.is_prefix_of(final(ctl)@),
        registered_auto(
            old(registry)@,
            final(ctl)@.skip(old(ctl)@.len() as int),
            final(registry)@,
            status,
        ),
{
    let ghost before = ctl@;
    let cpus: usize = available_cpus(ctl);
    let ghost counted = ctl@;
    let n_arenas: usize = arenas_for_cpus(cpus);
    let status = register_plugin_with_arenas(registry, ctl, n_arenas);
    proof {
        let steps = ctl@.skip(before.len() as int);
        assert(ctl@[before.len() as int] == counted[before.len() as int]);
        assert(steps.skip(1) =~= ctl@.skip(counted.len() as int));
        assert(before =~= ctl@.take(before.len() as int));
    }
    status
}

/// How many arenas a plugin gets on a machine with this many processors: one
/// for each, at least one, and no more than it can have.
pub open spec fn arenas_of(cpus: usize) -> usize {
    if cpus < 1 {
        1
    } else if cpus > MAX_ARENAS_PER_PLUGIN {
        MAX_ARENAS_PER_PLUGIN
    } else {
        cpus
    }
}

/// Says how many arenas a plugin gets on a machine with this many processors.
pub fn arenas_for_cpus(cpus: usize) -> (n_arenas: usize)
    ensures
        n_arenas == arenas_of(cpus),
{
    if cpus < 1 {
        1
    } else if cpus > MAX_ARENAS_PER_PLUGIN {
        MAX_ARENAS_PER_PLUGIN
    } else {
        cpus
    }
}

/// The message for a plugin that a thread cannot be bound to.
pub open spec fn unbindable_text(plugin_id: u8, count: int) -> Seq<char> {
    "plugin_id "@ + text::decimal(plugin_id as nat) + " not registered (max="@ + text::decimal(
        count as nat,
    ) + ")"@
}

/// Picks the arena of a registered plugin for a thread, by the thread's hash.
pub fn choose_arena(registry: &PluginArenas, plugin_id: u8, thread_hash: usize) -> (arena: Result<
    u32,
    String,
>)
    requires
        registry.wf(),
        plugin_id >= 1,
    ensures
        plugin_id <= registry@.len() ==> ({
            let group = registry@[plugin_id - 1];
            arena == Ok::<u32, String>(group[thread_hash as int % group.len() as int])
        }),
        plugin_id > registry@.len() ==> arena is Err && arena->Err_0@ == unbindable_text(
            plugin_id,
            registry@.len() as int,
        ),
{
    let count: usize = registry.plugins.len();
    if plugin_id as usize > count {
        let mut message = "plugin_id ".to_owned();
        text::push_decimal(&mut message, plugin_id as u64);
        message.append(" not registered (max=");
        text::push_decimal(&mut message, count as u64);
        message.append(")");
        return Err(message);
    }
    let group = &registry.plugins[plugin_id as usize - 1];
    assert(group@ == registry@[plugin_id - 1]);
    Ok(group[thread_hash % group.len()])
}

/// `status` is what binding a thread comes to when its plugin goes from
/// `before` to `after` and jemalloc answers `written` to the new arena.
pub open spec fn binding(
    count: int,
    plugin_id: u8,
    written: Result<(), String>,
    before: u8,
    after: u8,
    status: Result<i64, String>,
) -> bool {
    if plugin_id == 0 {
        &&& after == 0
        &&& match written {
            Ok(_) => status == Ok::<i64, String>(0),
            Err(reason) => status is Err && status->Err_0@ == "thread.arena reset failed: "@
                + reason@,
        }
    } else if plugin_id > count {
        after == before && status is Err && status->Err_0@ == unbindable_text(plugin_id, count)
    } else {
        match written {
            Ok(_) => after == plugin_id && status == Ok::<i64, String>(0),
            Err(reason) => after == before && status is Err && status->Err_0@
                == "thread.arena write failed: "@ + reason@,
        }
    }
}

/// Settles a binding once jemalloc has answered.
pub fn settle_binding(
    registry: &PluginArenas,
    thread: &mut ArenaBinding,
    plugin_id: u8,
    written: &Result<(), String>,
) -> (status: Result<i64, String>)
    requires
        plugin_id <= registry@.len(),
    ensures
        binding(
            registry@.len() as int,
            plugin_id,
            *written,
            old(thread).plugin,
            final(thread).plugin,
            status,
        ),
{
    match written {
        Ok(_) => {
            thread.plugin = plugin_id;
            Ok(0)
        },
        Err(reason) => {
            let mut message = if plugin_id == 0 {
                thread.plugin = 0;
                "thread.arena reset failed: ".to_owned()
            } else {
                "thread.arena write failed: ".to_owned()
            };
            message.append(reason.as_str());
            Err(message)
        },
    }
}

/// What is exchanged with jemalloc in binding a thread: the thread gets its
/// arena, unless there is no such plugin.
pub open spec fn binding_steps(
    registry: Seq<Seq<u32>>,
    plugin_id: u8,
    thread_hash: usize,
    written: Result<(), String>,
) -> Seq<Exchange> {
    if plugin_id == 0 {
        seq![Exchange::WriteU32("thread.arena\0"@, 0, written)]
    } else if plugin_id > registry.len() {
        seq![]
    } else {
        let group = registry[plugin_id - 1];
        seq![
            Exchange::WriteU32(
                "thread.arena\0"@,
                group[thread_hash as int % group.len() as int],
                written,
            ),
        ]
    }
}

/// `status` is what binding a thread comes to in the exchange `steps`.
pub open spec fn bound(
    registry: Seq<Seq<u32>>,
    plugin_id: u8,
    thread_hash: usize,
    steps: Seq<Exchange>,
    before: u8,
    after: u8,
    status: Result<i64, String>,
) -> bool {
    exists|written: Result<(), String>|
        steps == binding_steps(registry, plugin_id, thread_hash, written) && #[trigger] binding(
            registry.len() as int,
            plugin_id,
            written,
            before,
            after,
            status,
        )
}

/// Binds a thread to the arenas of a plugin, or, by number 0, to none.
///
/// `thread_hash` spreads the threads of a plugin over its arenas.
pub fn bind_thread(
    registry: &PluginArenas,
    ctl: &mut Mallctl,
    thread: &mut ArenaBinding,
    plugin_id: u8,
    thread_hash: usize,
) -> (status: Result<i64, String>)
    requires
        registry.wf(),
    ensures
        old(ctl)@.is_prefix_of(final(ctl)@),
        bound(
            registry@,
            plugin_id,
            thread_hash,
            final(ctl)@.skip(old(ctl)@.len() as int),
            old(thread).plugin,
            final(thread).plugin,
            status,
        ),
{
    let ghost before = ctl@;
    let arena: u32 = if plugin_id == 0 {
        0
    } else {
        match choose_arena(registry, plugin_id, thread_hash) {
            Ok(arena) => arena,
            Err(message) => {
                assert(ctl@.skip(before.len() as int) =~= binding_steps(
                    registry@,
                    plugin_id,
                    thread_hash,
                    Ok(()),
                ));
                assert(binding(
                    registry@.len() as int,
                    plugin_id,
                    Ok(()),
                    thread.plugin,
                    thread.plugin,
                    Err(message),
                ));
                return Err(message);
            },
        }
    };
    let written = mallctl::write_u32(ctl, "thread.arena\0", arena);
    assert(ctl@.skip(before.len() as int) =~= binding_steps(
        registry@,
        plugin_id,
        thread_hash,
        written,
    ));
    settle_binding(registry, thread, plugin_id, &written)
}

/// The resolved keys of the statistics of an arena.
pub struct StatsMibs {
    small_alloc: ArenaStatKey,
    large_alloc: ArenaStatKey,
    epoch: epoch_mib,
}

impl StatsMibs {
    /// The key of the bytes in small allocations of arena 0.
    pub closed spec fn small(self) -> Seq<usize> {
        self.small_alloc@
    }

    /// The key of the bytes in large allocations of arena 0.
    pub closed spec fn large(self) -> Seq<usize> {
        self.large_alloc@
    }

    /// A key has five parts.
    pub proof fn lemma_keys(self)
        ensures
            self.small().len() == 5,
            self.large().len() == 5,
    {
        self.small_alloc.lemma_parts();
        self.large_alloc.lemma_parts();
    }

    /// Resolves the keys, once per process.
    pub fn resolve(ctl: &mut Mallctl) -> (mibs: Result<StatsMibs, String>)
        ensures
            old(ctl)@.is_prefix_of(final(ctl)@),
            match mibs {
                Ok(found) => final(ctl)@ == old(ctl)@ + resolve_steps(
                    Ok(found.small()),
                    Ok(found.large()),
                    Ok(()),
                ),
                Err(reason) => resolving_failed(
                    final(ctl)@.skip(old(ctl)@.len() as int),
                    reason,
                ),
            },
    {
        let ghost before = ctl@;
        let ghost any = Ok::<Seq<usize>, String>(Seq::empty());
        let small_alloc = match mallctl::resolve_arena_stat(
            ctl,
            "stats.arenas.0.small.allocated\0",
        ) {
            Ok(parts) => parts,
            Err(reason) => {
                assert(ctl@.skip(before.len() as int) =~= resolve_steps(Err(reason), any, Ok(())));
                return Err(reason);
            },
        };
        let ghost small = Ok::<Seq<usize>, String>(small_alloc@);
        let large_alloc = match mallctl::resolve_arena_stat(
            ctl,
            "stats.arenas.0.large.allocated\0",
        ) {
            Ok(parts) => parts,
            Err(reason) => {
                assert(ctl@.skip(before.len() as int) =~= resolve_steps(
                    small,
                    Err(reason),
                    Ok(()),
                ));
                return Err(reason);
            },
        };
        let ghost large = Ok::<Seq<usize>, String>(large_alloc@);
        match mallctl::resolve_epoch(ctl) {
            Ok(epoch) => {
                assert(ctl@ =~= before + resolve_steps(small, large, Ok(())));
                Ok(StatsMibs { small_alloc, large_alloc, epoch })
            },
            Err(reason) => {
                assert(ctl@.skip(before.len() as int) =~= resolve_steps(small, large, Err(reason)));
                Err(reason)
            },
        }
    }
}

/// What is exchanged with jemalloc in resolving the keys. A step is not taken
/// once an earlier one has failed.
pub open spec fn resolve_steps(
    small: Result<Seq<usize>, String>,
    large: Result<Seq<usize>, String>,
    epoch: Result<(), String>,
) -> Seq<Exchange> {
    let first = Exchange::ResolveParts("stats.arenas.0.small.allocated\0"@, small);
    let second = Exchange::ResolveParts("stats.arenas.0.large.allocated\0"@, large);
    match (small, large) {
        (Err(_), _) => seq![first],
        (_, Err(_)) => seq![first, second],
        _ => seq![first, second, Exchange::Resolve("epoch"@, epoch)],
    }
}

/// The exchange `steps` resolves the keys up to one that fails for a reason.
pub open spec fn resolving_failed(steps: Seq<Exchange>, reason: String) -> bool {
    exists|
        small: Result<Seq<usize>, String>,
        large: Result<Seq<usize>, String>,
        epoch: Result<(), String>,
    |
        steps == #[trigger] resolve_steps(small, large, epoch) && match (small, large) {
            (Err(e), _) => e == reason,
            (_, Err(e)) => e == reason,
            _ => epoch == Err::<(), String>(reason),
        }
}

/// The bytes in small and in large allocations that jemalloc answers for an
/// arena. A key that cannot be read counts as 0.
pub open spec fn bytes_read(answer: Result<usize, String>) -> usize {
    match answer {
        Ok(bytes) => bytes,
        Err(_) => 0,
    }
}

/// Bytes in small and large allocations of some arenas together.
pub open spec fn total_bytes(reads: Seq<(usize, usize)>) -> int
    decreases reads.len(),
{
    if reads.len() == 0 {
        0
    } else {
        total_bytes(reads.drop_last()) + reads.last().0 + reads.last().1
    }
}

/// Adds up the bytes in small and large allocations of some arenas.
pub fn sum_arena_bytes(reads: &Vec<(usize, usize)>) -> (bytes: i64)
    ensures
        bytes == numeric::wrap_i64(total_bytes(reads@)),
{
    let mut total: u64 = 0;
    let mut i: usize = 0;
    while i < reads.len()
        invariant
            i <= reads@.len(),
            total == total_bytes(reads@.take(i as int)) % 0x1_0000_0000_0000_0000,
        decreases reads@.len() - i,
    {
        let (small, large) = reads[i];
        total = total.wrapping_add(small as u64).wrapping_add(large as u64);
        i += 1;
        assert(reads@.take(i as int).drop_last() =~= reads@.take(i - 1));
    }
    assert(reads@.take(i as int) =~= reads@);
    numeric::signed_word(total)
}

/// What jemalloc answers for the small and the large allocations of an arena.
pub type ArenaAnswer = (Result<usize, String>, Result<usize, String>);

/// What is exchanged with jemalloc in reading the bytes of some arenas: for
/// each the bytes in small, then in large allocations.
pub open spec fn reading_steps(
    small: Seq<usize>,
    large: Seq<usize>,
    arenas: Seq<u32>,
    answers: Seq<ArenaAnswer>,
) -> Seq<Exchange>
    decreases answers.len(),
{
    if answers.len() == 0 {
        seq![]
    } else {
        let last = answers.len() - 1;
        let arena = arenas[last] as usize;
        reading_steps(small, large, arenas, answers.drop_last()) + seq![
            Exchange::ReadStat(small.update(2, arena), answers[last].0),
            Exchange::ReadStat(large.update(2, arena), answers[last].1),
        ]
    }
}

/// The bytes that the answers give.
pub open spec fn reads_of(answers: Seq<ArenaAnswer>) -> Seq<(usize, usize)> {
    answers.map_values(|answer: ArenaAnswer| (bytes_read(answer.0), bytes_read(answer.1)))
}

/// Reads the bytes in small and large allocations of some arenas. A key that
/// cannot be read counts as 0.
fn read_arenas(ctl: &mut Mallctl, mibs: &StatsMibs, arenas: &Vec<u32>) -> (read: (
    Vec<(usize, usize)>,
    Ghost<Seq<ArenaAnswer>>,
))
    ensures
        read.1@.len() == arenas@.len(),
        read.0@ == reads_of(read.1@),
        final(ctl)@ == old(ctl)@ + reading_steps(mibs.small(), mibs.large(), arenas@, read.1@),
{
    let mut reads: Vec<(usize, usize)> = Vec::new();
    let ghost mut answers: Seq<ArenaAnswer> = Seq::empty();
    assert(reads@ =~= reads_of(answers));
    assert(ctl@ =~= old(ctl)@ + reading_steps(mibs.small(), mibs.large(), arenas@, answers));
    while reads.len() < arenas.len()
        invariant
            reads@.len() <= arenas@.len(),
            reads@.len() == answers.len(),
            reads@ == reads_of(answers),
            ctl@ == old(ctl)@ + reading_steps(mibs.small(), mibs.large(), arenas@, answers),
        decreases arenas@.len() - reads@.len(),
    {
        let arena: u32 = arenas[reads.len()];
        let small = mallctl::read_arena_stat(ctl, &mibs.small_alloc.of_arena(arena));
        let large = mallctl::read_arena_stat(ctl, &mibs.large_alloc.of_arena(arena));
        proof {
            let earlier = answers;
            answers = answers.push((small, large));
            assert(answers.drop_last() =~= earlier);
            assert(ctl@ =~= old(ctl)@ + reading_steps(
                mibs.small(),
                mibs.large(),
                arenas@,
                answers,
            ));
        }
        let small_bytes: usize = match small {
            Ok(bytes) => bytes,
            Err(_) => 0,
        };
        let large_bytes: usize = match large {
            Ok(bytes) => bytes,
            Err(_) => 0,
        };
        reads.push((small_bytes, large_bytes));
        assert(reads@ =~= reads_of(answers));
    }
    (reads, Ghost(answers))
}

/// The message for a plugin that has no arenas.
pub open spec fn no_arenas_text(registry: Seq<Seq<u32>>, plugin_id: u8) -> Option<Seq<char>> {
    if plugin_id == 0 {
        Some("plugin_id 0 (untagged) has no dedicated arenas"@)
    } else if plugin_id > registry.len() {
        Some("plugin_id "@ + text::decimal(plugin_id as nat) + " not registered"@)
    } else {
        None
    }
}

/// `bytes` is what reading the bytes of a plugin comes to in the exchange
/// `steps`, when refreshing the statistics, if `advance` asks for it, gives
/// `advanced`, and the arenas of the plugin give `answers`.
pub open spec fn plugin_bytes(
    registry: Seq<Seq<u32>>,
    mibs: StatsMibs,
    plugin_id: u8,
    advance: bool,
    advanced: Result<u64, String>,
    answers: Seq<ArenaAnswer>,
    steps: Seq<Exchange>,
    bytes: Result<i64, String>,
) -> bool {
    let refresh = if advance {
        seq![Exchange::Advance(advanced)]
    } else {
        seq![]
    };
    match no_arenas_text(registry, plugin_id) {
        Some(message) => steps == Seq::<Exchange>::empty() && bytes is Err && bytes->Err_0@
            == message,
        None => if advance && advanced is Err {
            steps == refresh && bytes is Err && bytes->Err_0@ == "epoch advance failed: "@
                + advanced->Err_0@
        } else {
            let arenas = registry[plugin_id - 1];
            &&& answers.len() == arenas.len()
            &&& steps == refresh + reading_steps(mibs.small(), mibs.large(), arenas, answers)
            &&& bytes is Ok
            &&& bytes->Ok_0 == numeric::wrap_i64(total_bytes(reads_of(answers)))
        },
    }
}

/// `bytes` is what reading the bytes of a plugin comes to in the exchange
/// `steps`, which refreshes the statistics if `advance` asks for it.
pub open spec fn plugin_bytes_read(
    registry: Seq<Seq<u32>>,
    mibs: StatsMibs,
    plugin_id: u8,
    advance: bool,
    steps: Seq<Exchange>,
    bytes: Result<i64, String>,
) -> bool {
    exists|advanced: Result<u64, String>, answers: Seq<ArenaAnswer>|
        plugin_bytes(registry, mibs, plugin_id, advance, advanced, answers, steps, bytes)
}

fn plugin_allocated_bytes_inner(
    registry: &PluginArenas,
    ctl: &mut Mallctl,
    mibs: &StatsMibs,
    plugin_id: u8,
    advance: bool,
) -> (bytes: Result<i64, String>)
    requires
        registry.wf(),
    ensures
        old(ctl)@.is_prefix_of(final(ctl)@),
        plugin_bytes_read(
            registry@,
            *mibs,
            plugin_id,
            advance,
            final(ctl)@.skip(old(ctl)@.len() as int),
            bytes,
        ),
{
    let ghost before = ctl@;
    let ghost none = Seq::<ArenaAnswer>::empty();
    let ghost fine = Ok::<u64, String>(0);
    assert(ctl@.skip(before.len() as int) =~= Seq::<Exchange>::empty());
    if plugin_id == 0 {
        let failed = Err("plugin_id 0 (untagged) has no dedicated arenas".to_owned());
        assert(plugin_bytes(registry@, *mibs, plugin_id, advance, fine, none, seq![], failed));
        return failed;
    }
    if plugin_id as usize > registry.plugins.len() {
        let mut message = "plugin_id ".to_owned();
        text::push_decimal(&mut message, plugin_id as u64);
        message.append(" not registered");
        let failed = Err(message);
        assert(plugin_bytes(registry@, *mibs, plugin_id, advance, fine, none, seq![], failed));
        return failed;
    }
    let arenas = &registry.plugins[plugin_id as usize - 1];
    assert(arenas@ == registry@[plugin_id - 1]);
    let ghost mut advanced = fine;
    if advance {
        let done = mallctl::advance_epoch(ctl, &mibs.epoch);
        proof {
            advanced = done;
            assert(ctl@.skip(before.len() as int) =~= seq![Exchange::Advance(done)]);
        }
        match done {
            Ok(_) => {},
            Err(reason) => {
                let mut message = "epoch advance failed: ".to_owned();
                message.append(reason.as_str());
                let failed = Err(message);
                assert(plugin_bytes(
                    registry@,
                    *mibs,
                    plugin_id,
                    advance,
                    advanced,
                    none,
                    ctl@.skip(before.len() as int),
                    failed,
                ));
                return failed;
            },
        }
    }
    let ghost refreshed = ctl@;
    let (reads, Ghost(answers)) = read_arenas(ctl, mibs, arenas);
    let total: i64 = sum_arena_bytes(&reads);
    assert(ctl@.skip(before.len() as int) =~= refreshed.skip(before.len() as int) + reading_steps(
        mibs.small(),
        mibs.large(),
        arenas@,
        answers,
    ));
    assert(plugin_bytes(
        registry@,
        *mibs,
        plugin_id,
        advance,
        advanced,
        answers,
        ctl@.skip(before.len() as int),
        Ok(total),
    ));
    Ok(total)
}

/// Reads the bytes that the arenas of a plugin have allocated.
pub fn plugin_allocated_bytes(
    registry: &PluginArenas,
    ctl: &mut Mallctl,
    mibs: &StatsMibs,
    plugin_id: u8,
) -> (bytes: Result<i64, String>)
    requires
        registry.wf(),
    ensures
        old(ctl)@.is_prefix_of(final(ctl)@),
        plugin_bytes_read(
            registry@,
            *mibs,
            plugin_id,
            true,
            final(ctl)@.skip(old(ctl)@.len() as int),
            bytes,
        ),
{
    plugin_allocated_bytes_inner(registry, ctl, mibs, plugin_id, true)
}

/// Reads the bytes that the arenas of a plugin have allocated, as of the last
/// refresh of the statistics. 0 for a number that is not registered.
pub fn plugin_allocated_bytes_no_epoch(
    registry: &PluginArenas,
    ctl: &mut Mallctl,
    mibs: &StatsMibs,
    plugin_id: u8,
) -> (bytes: i64)
    requires
        registry.wf(),
    ensures
        old(ctl)@.is_prefix_of(final(ctl)@),
        1 <= plugin_id <= registry@.len() ==> plugin_bytes_read(
            registry@,
            *mibs,
            plugin_id,
            false,
            final(ctl)@.skip(old(ctl)@.len() as int),
            Ok(bytes),
        ),
        !(1 <= plugin_id <= registry@.len()) ==> bytes == 0 && final(ctl)@ == old(ctl)@,
{
    match plugin_allocated_bytes_inner(registry, ctl, mibs, plugin_id, false) {
        Ok(bytes) => bytes,
        Err(_) => {
            assert(ctl@.skip(old(ctl)@.len() as int).len() == 0);
            0
        },
    }
}

/// [`register_plugin_with_arenas`] with a signed number of arenas.
pub fn native_plugin_register_with_arenas(
    registry: &mut PluginArenas,
    ctl: &mut Mallctl,
    n_arenas: i64,
) -> (status: Result<i64, String>)
    requires
        old(registry).wf(),
    ensures
        final(registry).wf(),
        old(ctl)@.is_prefix_of(final(ctl)@),
        registered(
            old(registry)@,
            numeric::count_of(n_arenas),
            final(ctl)@.skip(old(ctl)@.len() as int),
            final(registry)@,
            status,
        ),
{
    register_plugin_with_arenas(registry, ctl, numeric::unsigned_count(n_arenas))
}

/// [`register_plugin`], for callers outside the language.
pub fn native_plugin_register(registry: &mut PluginArenas, ctl: &mut Mallctl) -> (status: Result<
    i64,
    String,
>)
    requires
        old(registry).wf(),
    ensures
        final(registry).wf(),
        old(ctl)@.is_prefix_of(final(ctl)@),
        registered(
            old(registry)@,
            DEFAULT_ARENAS,
            final(ctl)@.skip(old(ctl)@.len() as int),
            final(registry)@,
            status,
        ),
{
    register_plugin(registry, ctl)
}

/// [`bind_thread`] by the lowest byte of a signed number.
pub fn native_plugin_bind_thread(
    registry: &PluginArenas,
    ctl: &mut Mallctl,
    thread: &mut ArenaBinding,
    plugin_id: i64,
    thread_hash: usize,
) -> (status: Result<i64, String>)
    requires
        registry.wf(),
    ensures
        old(ctl)@.is_prefix_of(final(ctl)@),
        bound(
            registry@,
            numeric::byte_of(plugin_id),
            thread_hash,
            final(ctl)@.skip(old(ctl)@.len() as int),
            old(thread).plugin,
            final(thread).plugin,
            status,
        ),
{
    bind_thread(registry, ctl, thread, numeric::low_byte(plugin_id), thread_hash)
}

/// [`plugin_allocated_bytes`] by the lowest byte of a signed number.
pub fn native_plugin_allocated_bytes(
    registry: &PluginArenas,
    ctl: &mut Mallctl,
    mibs: &StatsMibs,
    plugin_id: i64,
) -> (bytes: Result<i64, String>)
    requires
        registry.wf(),
    ensures
        old(ctl)@.is_prefix_of(final(ctl)@),
        plugin_bytes_read(
            registry@,
            *mibs,
            numeric::byte_of(plugin_id),
            true,
            final(ctl)@.skip(old(ctl)@.len() as int),
            bytes,
        ),
{
    plugin_allocated_bytes(registry, ctl, mibs, numeric::low_byte(plugin_id))
}

/// Returns how many plugins are registered.
pub fn native_plugin_count(registry: &PluginArenas) -> (count: i64)
    requires
        registry.wf(),
    ensures
        count == registry@.len(),
{
    registry.plugins.len() as i64
}

/// The bytes of all plugins together.
pub open spec fn sum_of(bytes: Seq<i64>) -> int
    decreases bytes.len(),
{
    if bytes.len() == 0 {
        0
    } else {
        sum_of(bytes.drop_last()) + bytes.last()
    }
}

/// Adds up the bytes of all plugins.
pub fn sum_plugin_bytes(bytes: &Vec<i64>) -> (total: i64)
    ensures
        total == numeric::wrap_i64(sum_of(bytes@)),
{
    let mut total: i64 = 0;
    let mut i: usize = 0;
    while i < bytes.len()
        invariant
            i <= bytes@.len(),
            total == numeric::wrap_i64(sum_of(bytes@.take(i as int))),
        decreases bytes@.len() - i,
    {
        total = total.wrapping_add(bytes[i]);
        i += 1;
        assert(bytes@.take(i as int).drop_last() =~= bytes@.take(i - 1));
    }
    assert(bytes@.take(i as int) =~= bytes@);
    total
}

/// The bytes of all plugins at one time, and of the whole process.
pub struct ArenaReport {
    /// The registered plugins, in the order of registration.
    pub plugins: Vec<i64>,
    /// All of the above.
    pub tracked_total: i64,
    /// Bytes in live allocations of the process.
    pub allocated: usize,
    /// Bytes of physical memory that the allocator keeps.
    pub resident: usize,
}

/// What is exchanged with jemalloc in reading the bytes of the first plugins.
pub open spec fn plugins_steps(
    registry: Seq<Seq<u32>>,
    mibs: StatsMibs,
    answers: Seq<Seq<ArenaAnswer>>,
) -> Seq<Exchange>
    decreases answers.len(),
{
    if answers.len() == 0 {
        seq![]
    } else {
        plugins_steps(registry, mibs, answers.drop_last()) + reading_steps(
            mibs.small(),
            mibs.large(),
            registry[answers.len() - 1],
            answers.last(),
        )
    }
}

/// The bytes that the answers give for a plugin.
pub open spec fn plugin_total(answers: Seq<ArenaAnswer>) -> int {
    numeric::wrap_i64(total_bytes(reads_of(answers)))
}

/// There is an answer for each arena of the first plugins.
pub open spec fn answers_for(registry: Seq<Seq<u32>>, answers: Seq<Seq<ArenaAnswer>>) -> bool {
    forall|i: int| 0 <= i < answers.len() ==> (#[trigger] answers[i]).len() == registry[i].len()
}

/// `report` is what jemalloc answers, once the statistics are refreshed.
pub open spec fn report_of(
    registry: Seq<Seq<u32>>,
    answers: Seq<Seq<ArenaAnswer>>,
    allocated: Result<usize, String>,
    resident: Result<usize, String>,
    report: ArenaReport,
) -> bool {
    &&& answers.len() == registry.len()
    &&& answers_for(registry, answers)
    &&& report.plugins@.len() == registry.len()
    &&& forall|i: int|
        0 <= i < registry.len() ==> #[trigger] report.plugins@[i] == plugin_total(answers[i])
    &&& report.tracked_total == numeric::wrap_i64(sum_of(report.plugins@))
    &&& report.allocated == bytes_read(allocated)
    &&& report.resident == bytes_read(resident)
}

/// `report` is what the exchange `steps` comes to. There is no report if the
/// statistics cannot be refreshed.
pub open spec fn report_read(
    registry: Seq<Seq<u32>>,
    mibs: StatsMibs,
    steps: Seq<Exchange>,
    report: Option<ArenaReport>,
) -> bool {
    match report {
        None => steps.len() == 1 && (steps[0] matches Exchange::Advance(answer) && answer is Err),
        Some(report) => exists|
            epoch: u64,
            answers: Seq<Seq<ArenaAnswer>>,
            allocated: Result<usize, String>,
            resident: Result<usize, String>,
        |
            steps == #[trigger] report_steps(
                registry,
                mibs,
                epoch,
                answers,
                allocated,
                resident,
            ) && report_of(registry, answers, allocated, resident, report),
    }
}

/// What is exchanged with jemalloc in making a report.
pub open spec fn report_steps(
    registry: Seq<Seq<u32>>,
    mibs: StatsMibs,
    epoch: u64,
    answers: Seq<Seq<ArenaAnswer>>,
    allocated: Result<usize, String>,
    resident: Result<usize, String>,
) -> Seq<Exchange> {
    seq![Exchange::Advance(Ok(epoch))] + plugins_steps(registry, mibs, answers) + seq![
        Exchange::ReadAllocated(allocated),
        Exchange::ReadResident(resident),
    ]
}

/// Reads the bytes of every plugin, as of the last refresh of the statistics.
fn read_plugins(registry: &PluginArenas, ctl: &mut Mallctl, mibs: &StatsMibs) -> (read: (
    Vec<i64>,
    Ghost<Seq<Seq<ArenaAnswer>>>,
))
    requires
        registry.wf(),
    ensures
        read.0@.len() == registry@.len(),
        read.1@.len() == registry@.len(),
        answers_for(registry@, read.1@),
        forall|i: int| 0 <= i < registry@.len() ==> #[trigger] read.0@[i] == plugin_total(read.1@[i]),
        final(ctl)@ == old(ctl)@ + plugins_steps(registry@, *mibs, read.1@),
{
    let count: usize = registry.plugins.len();
    let mut plugins: Vec<i64> = Vec::new();
    let ghost mut answers: Seq<Seq<ArenaAnswer>> = Seq::empty();
    assert(ctl@ =~= old(ctl)@ + plugins_steps(registry@, *mibs, answers));
    while plugins.len() < count
        invariant
            registry.wf(),
            count == registry@.len(),
            plugins@.len() <= count,
            plugins@.len() == answers.len(),
            answers_for(registry@, answers),
            forall|i: int|
                0 <= i < answers.len() ==> #[trigger] plugins@[i] == plugin_total(answers[i]),
            ctl@ == old(ctl)@ + plugins_steps(registry@, *mibs, answers),
        decreases count - plugins@.len(),
    {
        let plugin_id: u8 = (plugins.len() + 1) as u8;
        let ghost before = ctl@;
        let bytes: i64 = plugin_allocated_bytes_no_epoch(registry, ctl, mibs, plugin_id);
        proof {
            let steps = ctl@.skip(before.len() as int);
            let (advanced, given) = choose|advanced: Result<u64, String>, given: Seq<ArenaAnswer>|
                plugin_bytes(registry@, *mibs, plugin_id, false, advanced, given, steps, Ok(bytes));
            let earlier = answers;
            answers = answers.push(given);
            assert(answers.drop_last() =~= earlier);
            assert(ctl@ =~= before + steps);
            assert(ctl@ =~= old(ctl)@ + plugins_steps(registry@, *mibs, answers));
        }
        plugins.push(bytes);
    }
    (plugins, Ghost(answers))
}

/// Refreshes the statistics and reports the bytes of every plugin.
pub fn report_arenas(
    registry: &PluginArenas,
    ctl: &mut Mallctl,
    mibs: &StatsMibs,
    stats: &StatsMib,
) -> (report: Option<ArenaReport>)
    requires
        registry.wf(),
    ensures
        old(ctl)@.is_prefix_of(final(ctl)@),
        report_read(registry@, *mibs, final(ctl)@.skip(old(ctl)@.len() as int), report),
{
    let ghost before = ctl@;
    match mallctl::advance_epoch(ctl, &mibs.epoch) {
        Err(reason) => {
            assert(ctl@.skip(before.len() as int) =~= seq![
                Exchange::Advance(Err::<u64, String>(reason)),
            ]);
            None
        },
        Ok(epoch) => {
            let (plugins, Ghost(answers)) = read_plugins(registry, ctl, mibs);
            let tracked_total: i64 = sum_plugin_bytes(&plugins);
            let allocated_answer = mallctl::read_allocated(ctl, &stats.allocated);
            let resident_answer = mallctl::read_resident(ctl, &stats.resident);
            let ghost given = (allocated_answer, resident_answer);
            let allocated: usize = match allocated_answer {
                Ok(bytes) => bytes,
                Err(_) => 0,
            };
            let resident: usize = match resident_answer {
                Ok(bytes) => bytes,
                Err(_) => 0,
            };
            let report = ArenaReport { plugins, tracked_total, allocated, resident };
            assert(ctl@.skip(before.len() as int) =~= report_steps(
                registry@,
                *mibs,
                epoch,
                answers,
                given.0,
                given.1,
            ));
            assert(report_of(registry@, answers, given.0, given.1, report));
            Some(report)
        },
    }
}

/// Whether reports are made periodically.
pub struct ArenaMonitor {
    pub running: bool,
}

/// Starts the reports. Only the first call does; it gives back the interval in
/// seconds, at least 1.
pub fn native_start_plugin_monitor(monitor: &mut ArenaMonitor, interval_secs: i64) -> (started:
    Option<u64>)
    ensures
        final(monitor).running,
        started == (if old(monitor).running {
            None
        } else if interval_secs < 1 {
            Some(1u64)
        } else {
            Some(interval_secs as u64)
        }),
{
    if monitor.running {
        return None;
    }
    monitor.running = true;
    if interval_secs < 1 {
        Some(1)
    } else {
        Some(interval_secs as u64)
    }
}

/// A registration gives the next number and leaves the plugins before it as
/// they were.
pub proof fn law_registration_keeps_other_plugins(
    before: Seq<Seq<u32>>,
    n_arenas: usize,
    answers: Seq<Result<u32, String>>,
    after: Seq<Seq<u32>>,
    status: Result<i64, String>,
)
    requires
        registration(before, n_arenas, answers, after, status),
    ensures
        before.is_prefix_of(after),
        status matches Ok(plugin_id) ==> plugin_id == after.len() && after.len() == before.len() + 1
            && after.last().len() == n_arenas,
        status is Err ==> after == before,
{
}

/// The next plugin can be registered, and is if jemalloc makes all its arenas,
/// as long as there are not too many plugins.
pub proof fn law_registration_succeeds(
    before: Seq<Seq<u32>>,
    n_arenas: usize,
    answers: Seq<Result<u32, String>>,
    after: Seq<Seq<u32>>,
    status: Result<i64, String>,
)
    requires
        registration(before, n_arenas, answers, after, status),
    ensures
        status is Ok <==> group_size_ok(n_arenas as int) && before.len() < MAX_PLUGINS
            && answers.len() == n_arenas && forall|i: int|
            0 <= i < answers.len() ==> (#[trigger] answers[i]) is Ok,
{
    if group_size_ok(n_arenas as int) && before.len() < MAX_PLUGINS && answers.last() is Ok {
        assert forall|i: int| 0 <= i < answers.len() implies (#[trigger] answers[i]) is Ok by {
            if i == answers.len() - 1 {
                assert(answers[i] == answers.last());
            }
        }
    }
}

/// The thread of a plugin gets one of the plugin's arenas, whatever its hash.
pub proof fn law_thread_stays_in_its_group(
    registry: Seq<Seq<u32>>,
    plugin_id: u8,
    thread_hash: usize,
    written: Result<(), String>,
)
    requires
        1 <= plugin_id <= registry.len(),
        registry[plugin_id - 1].len() > 0,
    ensures
        exists|arena: u32| #[trigger]
            registry[plugin_id - 1].contains(arena) && binding_steps(
                registry,
                plugin_id,
                thread_hash,
                written,
            ) == seq![Exchange::WriteU32("thread.arena\0"@, arena, written)],
{
    let group = registry[plugin_id - 1];
    let index = thread_hash as int % group.len() as int;
    vstd::arithmetic::div_mod::lemma_mod_bound(thread_hash as int, group.len() as int);
    assert(group.contains(group[index]));
}

/// A thread that could not be bound works for the plugin it worked for before.
/// Only unbinding always takes effect.
pub proof fn law_failed_binding_changes_nothing(
    count: int,
    plugin_id: u8,
    written: Result<(), String>,
    before: u8,
    after: u8,
    status: Result<i64, String>,
)
    requires
        binding(count, plugin_id, written, before, after, status),
    ensures
        plugin_id == 0 ==> after == 0,
        plugin_id != 0 && status is Err ==> after == before,
        status is Ok ==> after == plugin_id,
{
}

/// A plugin can be bound as soon as it is registered.
pub proof fn law_registered_plugin_can_be_bound(
    before: Seq<Seq<u32>>,
    n_arenas: usize,
    answers: Seq<Result<u32, String>>,
    after: Seq<Seq<u32>>,
    plugin_id: i64,
    written: Result<(), String>,
    thread_before: u8,
    thread_after: u8,
    status: Result<i64, String>,
)
    requires
        registration(before, n_arenas, answers, after, Ok(plugin_id)),
        binding(
            after.len() as int,
            plugin_id as u8,
            written,
            thread_before,
            thread_after,
            status,
        ),
    ensures
        status is Ok <==> written is Ok,
        status is Ok ==> thread_after == plugin_id,
{
}

} // verus!
