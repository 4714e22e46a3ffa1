//! What plugins have of their arenas: laws of [`crate::plugin_arena`].
//!
//! The laws speak of the single requests that are made to jemalloc and of the
//! answers to them.
use crate::mallctl::Exchange;
use crate::numeric;
use crate::plugin_arena;
use crate::plugin_arena::{ArenaReport, StatsMibs};
use vstd::prelude::*;

verus! {

/// The request for an arena, answered with this arena.
pub open spec fn gives_arena(step: Exchange, arena: u32) -> bool {
    step == Exchange::ReadU32("arenas.create\0"@, Ok(arena))
}

/// The arenas of a new plugin are the ones that jemalloc made for it: for each
/// there was one request, in order, and the plugin has all of them and no other.
/// The plugins before it keep theirs.
pub proof fn law_new_plugin_has_the_arenas_made_for_it(
    before: Seq<Seq<u32>>,
    n_arenas: usize,
    steps: Seq<Exchange>,
    after: Seq<Seq<u32>>,
    plugin_id: i64,
)
    requires
        plugin_arena::registered(before, n_arenas, steps, after, Ok(plugin_id)),
    ensures
        1 <= n_arenas <= 64,
        before.len() < 16,
        plugin_id == before.len() + 1,
        after.len() == before.len() + 1,
        forall|i: int| 0 <= i < before.len() ==> after[i] == #[trigger] before[i],
        steps.len() == n_arenas,
        after[plugin_id - 1].len() == n_arenas,
        forall|i: int|
            0 <= i < n_arenas ==> gives_arena(#[trigger] steps[i], after[plugin_id - 1][i]),
{
    let answers = choose|answers: Seq<Result<u32, String>>|
        steps == plugin_arena::creation_steps(answers) && #[trigger] plugin_arena::registration(
            before,
            n_arenas,
            answers,
            after,
            Ok(plugin_id),
        );
    plugin_arena::law_registration_succeeds(before, n_arenas, answers, after, Ok(plugin_id));
    assert forall|i: int| 0 <= i < n_arenas implies gives_arena(
        #[trigger] steps[i],
        after[plugin_id - 1][i],
    ) by {
        assert(answers[i] is Ok);
    }
}

/// Arenas that jemalloc tells apart are apart for the plugin: none is listed twice.
pub proof fn law_distinct_arenas_stay_distinct(
    before: Seq<Seq<u32>>,
    n_arenas: usize,
    steps: Seq<Exchange>,
    after: Seq<Seq<u32>>,
    plugin_id: i64,
)
    requires
        plugin_arena::registered(before, n_arenas, steps, after, Ok(plugin_id)),
        forall|i: int, k: int|
            0 <= i < k < steps.len() ==> #[trigger] steps[i] != #[trigger] steps[k],
    ensures
        after[plugin_id - 1].no_duplicates(),
{
    law_new_plugin_has_the_arenas_made_for_it(before, n_arenas, steps, after, plugin_id);
    let arenas = after[plugin_id - 1];
    assert forall|i: int, k: int| 0 <= i < arenas.len() && 0 <= k < arenas.len() && i
        != k implies arenas[i] != arenas[k] by {
        assert(gives_arena(steps[i], arenas[i]));
        assert(gives_arena(steps[k], arenas[k]));
        if i < k {
            assert(steps[i] != steps[k]);
        } else {
            assert(steps[k] != steps[i]);
        }
    }
}

/// A registration that fails leaves the registry alone. Nothing is asked of
/// jemalloc if the number of arenas is out of range or there are too many
/// plugins; otherwise the last request failed, the ones before it did not, and
/// the message gives the reason.
pub proof fn law_failed_registration_has_a_cause(
    before: Seq<Seq<u32>>,
    n_arenas: usize,
    steps: Seq<Exchange>,
    after: Seq<Seq<u32>>,
    message: String,
)
    requires
        plugin_arena::registered(before, n_arenas, steps, after, Err(message)),
    ensures
        after == before,
        steps.len() == 0 <==> !(1 <= n_arenas <= 64) || before.len() >= 16,
        steps.len() <= n_arenas || steps.len() == 0,
        forall|i: int|
            0 <= i < steps.len() - 1 ==> (#[trigger] steps[i] matches Exchange::ReadU32(key, answer)
                && key == "arenas.create\0"@ && answer is Ok),
        steps.len() > 0 ==> (steps.last() matches Exchange::ReadU32(key, answer) && key
            == "arenas.create\0"@ && (answer matches Err(reason) && message@
            == "arenas.create failed: "@ + reason@)),
{
    let answers = choose|answers: Seq<Result<u32, String>>|
        steps == plugin_arena::creation_steps(answers) && #[trigger] plugin_arena::registration(
            before,
            n_arenas,
            answers,
            after,
            Err(message),
        );
    assert forall|i: int| 0 <= i < steps.len() - 1 implies (#[trigger] steps[i] matches Exchange::ReadU32(
        key,
        answer,
    ) && key == "arenas.create\0"@ && answer is Ok) by {
        assert(answers[i] is Ok);
    }
    if steps.len() > 0 {
        assert(steps.last() == Exchange::ReadU32("arenas.create\0"@, answers.last()));
    }
}

/// A plugin that leaves the number to the library gets an arena for each
/// processor that was counted, up to 64 of them, each as jemalloc made it.
pub proof fn law_every_processor_gets_an_arena(
    before: Seq<Seq<u32>>,
    steps: Seq<Exchange>,
    after: Seq<Seq<u32>>,
    plugin_id: i64,
)
    requires
        plugin_arena::registered_auto(before, steps, after, Ok(plugin_id)),
    ensures
        steps.len() > 0,
        plugin_id == after.len() == before.len() + 1,
        steps[0] matches Exchange::CountCpus(cpus) && after[plugin_id - 1].len() == (if cpus > 64 {
            64
        } else {
            cpus as int
        }),
        steps.len() == after[plugin_id - 1].len() + 1,
        forall|i: int|
            1 <= i < steps.len() ==> gives_arena(#[trigger] steps[i], after[plugin_id - 1][i - 1]),
{
    if let Exchange::CountCpus(cpus) = steps[0] {
        let rest = steps.skip(1);
        law_new_plugin_has_the_arenas_made_for_it(
            before,
            plugin_arena::arenas_of(cpus),
            rest,
            after,
            plugin_id,
        );
        assert forall|i: int| 1 <= i < steps.len() implies gives_arena(
            #[trigger] steps[i],
            after[plugin_id - 1][i - 1],
        ) by {
            assert(rest[i - 1] == steps[i]);
            assert(gives_arena(rest[i - 1], after[plugin_id - 1][i - 1]));
        }
    }
}

/// Threads of a plugin are spread over all its arenas: the hashes from 0 on lead
/// to its arenas one after the other, and start again after the last one. Each
/// thread gets its arena by one write.
pub proof fn law_threads_are_spread_over_all_arenas(
    registry: Seq<Seq<u32>>,
    plugin_id: u8,
    thread_hash: usize,
    written: Result<(), String>,
)
    requires
        1 <= plugin_id <= registry.len(),
        registry[plugin_id - 1].len() > 0,
    ensures
        ({
            let group = registry[plugin_id - 1];
            let steps = plugin_arena::binding_steps(registry, plugin_id, thread_hash, written);
            &&& thread_hash < group.len() ==> steps == seq![
                Exchange::WriteU32("thread.arena\0"@, group[thread_hash as int], written),
            ]
            &&& thread_hash + group.len() <= usize::MAX ==> plugin_arena::binding_steps(
                registry,
                plugin_id,
                (thread_hash + group.len()) as usize,
                written,
            ) == steps
        }),
{
    let group = registry[plugin_id - 1];
    let n = group.len() as int;
    if thread_hash < n {
        vstd::arithmetic::div_mod::lemma_small_mod(thread_hash as nat, n as nat);
    }
    vstd::arithmetic::div_mod::lemma_mod_add_multiples_vanish(thread_hash as int, n);
}

/// Binding a thread to a registered plugin makes one request, for one of the
/// plugin's arenas, and succeeds exactly if jemalloc takes it; the thread works
/// for the plugin only then. Binding it to plugin 0 gives it arena 0, and to a
/// number that is not registered changes and asks nothing.
pub proof fn law_binding_goes_to_the_plugins_arenas(
    registry: Seq<Seq<u32>>,
    plugin_id: u8,
    thread_hash: usize,
    steps: Seq<Exchange>,
    before: u8,
    after: u8,
    status: Result<i64, String>,
)
    requires
        plugin_arena::bound(registry, plugin_id, thread_hash, steps, before, after, status),
        forall|i: int| 0 <= i < registry.len() ==> (#[trigger] registry[i]).len() > 0,
    ensures
        plugin_id > registry.len() ==> steps.len() == 0 && status is Err && after == before,
        plugin_id <= registry.len() ==> {
            &&& steps.len() == 1
            &&& steps[0] matches Exchange::WriteU32(key, arena, written) && {
                &&& key == "thread.arena\0"@
                &&& plugin_id == 0 ==> arena == 0 && after == 0
                &&& plugin_id > 0 ==> registry[plugin_id - 1].contains(arena) && after == (
                if written is Ok {
                    plugin_id
                } else {
                    before
                })
                &&& status is Ok <==> written is Ok
                &&& status is Ok ==> status == Ok::<i64, String>(0)
            }
        },
{
    let written = choose|written: Result<(), String>|
        steps == plugin_arena::binding_steps(registry, plugin_id, thread_hash, written)
            && #[trigger] plugin_arena::binding(
            registry.len() as int,
            plugin_id,
            written,
            before,
            after,
            status,
        );
    if 1 <= plugin_id <= registry.len() {
        assert(registry[plugin_id - 1].len() > 0);
        plugin_arena::law_thread_stays_in_its_group(registry, plugin_id, thread_hash, written);
        let arena = choose|arena: u32| #[trigger]
            registry[plugin_id - 1].contains(arena) && plugin_arena::binding_steps(
                registry,
                plugin_id,
                thread_hash,
                written,
            ) == seq![Exchange::WriteU32("thread.arena\0"@, arena, written)];
        assert(steps[0] == Exchange::WriteU32("thread.arena\0"@, arena, written));
    }
}

/// The keys of the statistics are those of what they are kept under: first that
/// of small, then that of large allocations, then that for refreshing.
pub proof fn law_keys_are_what_they_are_kept_under(small: Seq<usize>, large: Seq<usize>)
    ensures
        plugin_arena::resolve_steps(Ok(small), Ok(large), Ok(())) == seq![
            Exchange::ResolveParts("stats.arenas.0.small.allocated\0"@, Ok(small)),
            Exchange::ResolveParts("stats.arenas.0.large.allocated\0"@, Ok(large)),
            Exchange::Resolve("epoch"@, Ok(())),
        ],
{
}

/// If the keys cannot be resolved, the last request failed for the reason that is
/// given, and the ones before it did not.
pub proof fn law_unresolved_key_is_the_last(steps: Seq<Exchange>, reason: String)
    requires
        plugin_arena::resolving_failed(steps, reason),
    ensures
        1 <= steps.len() <= 3,
        match steps.last() {
            Exchange::ResolveParts(_, answer) => answer == Err::<Seq<usize>, String>(reason),
            Exchange::Resolve(_, answer) => answer == Err::<(), String>(reason),
            _ => false,
        },
        forall|i: int|
            0 <= i < steps.len() - 1 ==> (#[trigger] steps[i] matches Exchange::ResolveParts(
                _,
                answer,
            ) && answer is Ok),
{
}

/// What a request for a statistic of an arena was answered, in bytes. Other
/// requests, and requests that failed, count for nothing.
pub open spec fn bytes_answered(step: Exchange) -> int {
    match step {
        Exchange::ReadStat(_, Ok(bytes)) => bytes as int,
        _ => 0,
    }
}

/// Two integers are the same in their lowest 64 bits.
pub open spec fn same_word(x: int, y: int) -> bool {
    (x - y) % 0x1_0000_0000_0000_0000 == 0
}

/// What all requests for statistics of arenas were answered, in bytes.
pub open spec fn all_bytes_answered(steps: Seq<Exchange>) -> int
    decreases steps.len(),
{
    if steps.len() == 0 {
        0
    } else {
        all_bytes_answered(steps.drop_last()) + bytes_answered(steps.last())
    }
}

/// What is answered in two exchanges one after the other adds up.
pub proof fn law_answers_add_up(first: Seq<Exchange>, second: Seq<Exchange>)
    ensures
        all_bytes_answered(first + second) == all_bytes_answered(first) + all_bytes_answered(
            second,
        ),
    decreases second.len(),
{
    if second.len() == 0 {
        assert(first + second =~= first);
    } else {
        law_answers_add_up(first, second.drop_last());
        assert((first + second).drop_last() =~= first + second.drop_last());
        assert((first + second).last() == second.last());
    }
}

/// If one request is answered otherwise, the sum changes by as much.
pub proof fn law_each_answer_counts(steps: Seq<Exchange>, place: int, step: Exchange)
    requires
        0 <= place < steps.len(),
    ensures
        all_bytes_answered(steps.update(place, step)) == all_bytes_answered(steps)
            - bytes_answered(steps[place]) + bytes_answered(step),
    decreases steps.len(),
{
    let changed = steps.update(place, step);
    if place == steps.len() - 1 {
        assert(changed.drop_last() =~= steps.drop_last());
    } else {
        law_each_answer_counts(steps.drop_last(), place, step);
        assert(changed.drop_last() =~= steps.drop_last().update(place, step));
    }
}

/// The key is that of a statistic, for this arena.
pub open spec fn key_of_arena(key: Seq<usize>, general: Seq<usize>, arena: u32) -> bool {
    &&& key.len() == general.len()
    &&& key[2] == arena
    &&& forall|i: int| 0 <= i < key.len() && i != 2 ==> #[trigger] key[i] == general[i]
}

/// The requests for an arena ask for its bytes in small and then in large
/// allocations.
pub open spec fn asks_for_arena(
    one: Exchange,
    other: Exchange,
    small: Seq<usize>,
    large: Seq<usize>,
    arena: u32,
) -> bool {
    match (one, other) {
        (Exchange::ReadStat(key, _), Exchange::ReadStat(other_key, _)) => key_of_arena(
            key,
            small,
            arena,
        ) && key_of_arena(other_key, large, arena),
        _ => false,
    }
}

/// The requests ask for each arena in turn, by two requests each.
pub open spec fn asks_for_arenas(
    steps: Seq<Exchange>,
    small: Seq<usize>,
    large: Seq<usize>,
    arenas: Seq<u32>,
) -> bool {
    &&& steps.len() == 2 * arenas.len()
    &&& forall|i: int|
        0 <= i < arenas.len() ==> asks_for_arena(
            steps[2 * i],
            steps[2 * i + 1],
            small,
            large,
            #[trigger] arenas[i],
        )
}

/// Reading arenas asks for each of them and sums up what is answered.
proof fn lemma_reading(
    small: Seq<usize>,
    large: Seq<usize>,
    arenas: Seq<u32>,
    answers: Seq<plugin_arena::ArenaAnswer>,
)
    requires
        answers.len() <= arenas.len(),
        small.len() == 5,
        large.len() == 5,
    ensures
        ({
            let steps = plugin_arena::reading_steps(small, large, arenas, answers);
            &&& asks_for_arenas(steps, small, large, arenas.take(answers.len() as int))
            &&& all_bytes_answered(steps) == plugin_arena::total_bytes(
                plugin_arena::reads_of(answers),
            )
        }),
    decreases answers.len(),
{
    let steps = plugin_arena::reading_steps(small, large, arenas, answers);
    if answers.len() > 0 {
        let earlier = answers.drop_last();
        let last = answers.len() - 1;
        lemma_reading(small, large, arenas, earlier);
        let head = plugin_arena::reading_steps(small, large, arenas, earlier);
        let arena = arenas[last] as usize;
        let tail = seq![
            Exchange::ReadStat(small.update(2, arena), answers[last].0),
            Exchange::ReadStat(large.update(2, arena), answers[last].1),
        ];
        assert(steps == head + tail);
        law_answers_add_up(head, tail);
        reveal_with_fuel(all_bytes_answered, 3);
        assert(tail.drop_last() =~= seq![tail[0]]);
        assert(tail.drop_last().drop_last() =~= Seq::<Exchange>::empty());
        assert(plugin_arena::reads_of(answers).drop_last() =~= plugin_arena::reads_of(earlier));
        let taken = arenas.take(answers.len() as int);
        assert forall|i: int| 0 <= i < taken.len() implies asks_for_arena(
            steps[2 * i],
            steps[2 * i + 1],
            small,
            large,
            #[trigger] taken[i],
        ) by {
            if i < last {
                assert(arenas.take(earlier.len() as int)[i] == taken[i]);
                assert(steps[2 * i] == head[2 * i]);
                assert(steps[2 * i + 1] == head[2 * i + 1]);
            } else {
                assert(steps[2 * i] == tail[0]);
                assert(steps[2 * i + 1] == tail[1]);
            }
        }
    } else {
        assert(plugin_arena::reads_of(answers) =~= seq![]);
    }
}

/// The bytes of a registered plugin are the sum of all that is answered for its
/// arenas, in small and in large allocations, where each arena is asked about
/// once. Statistics that are to be refreshed are refreshed first.
pub proof fn law_plugin_bytes_are_all_that_is_answered(
    registry: Seq<Seq<u32>>,
    mibs: StatsMibs,
    plugin_id: u8,
    advance: bool,
    steps: Seq<Exchange>,
    bytes: i64,
)
    requires
        plugin_arena::plugin_bytes_read(registry, mibs, plugin_id, advance, steps, Ok(bytes)),
    ensures
        1 <= plugin_id <= registry.len(),
        (all_bytes_answered(steps) - bytes) % 0x1_0000_0000_0000_0000 == 0,
        all_bytes_answered(steps) <= i64::MAX ==> bytes == all_bytes_answered(steps),
        !advance ==> asks_for_arenas(steps, mibs.small(), mibs.large(), registry[plugin_id - 1]),
        advance ==> {
            &&& steps.len() > 0
            &&& steps[0] matches Exchange::Advance(answer) && answer is Ok
            &&& asks_for_arenas(
                steps.skip(1),
                mibs.small(),
                mibs.large(),
                registry[plugin_id - 1],
            )
        },
{
    let (advanced, answers) = choose|
        advanced: Result<u64, String>,
        answers: Seq<plugin_arena::ArenaAnswer>,
    |
        plugin_arena::plugin_bytes(
            registry,
            mibs,
            plugin_id,
            advance,
            advanced,
            answers,
            steps,
            Ok(bytes),
        );
    let arenas = registry[plugin_id - 1];
    let read = plugin_arena::reading_steps(mibs.small(), mibs.large(), arenas, answers);
    mibs.lemma_keys();
    lemma_reading(mibs.small(), mibs.large(), arenas, answers);
    assert(arenas.take(answers.len() as int) =~= arenas);
    lemma_not_negative(read);
    if advance {
        let refresh = seq![Exchange::Advance(advanced)];
        law_answers_add_up(refresh, read);
        reveal_with_fuel(all_bytes_answered, 2);
        assert(refresh.drop_last() =~= Seq::<Exchange>::empty());
        assert(steps.skip(1) =~= read);
    } else {
        assert(steps =~= read);
    }
    numeric::law_signed_words_differ_by_turns(all_bytes_answered(steps));
}

/// What is answered is not negative.
proof fn lemma_not_negative(steps: Seq<Exchange>)
    ensures
        all_bytes_answered(steps) >= 0,
    decreases steps.len(),
{
    if steps.len() > 0 {
        lemma_not_negative(steps.drop_last());
    }
}

/// If a single one of the numbers that jemalloc answers for a plugin is larger by
/// some bytes, the plugin has as many bytes more.
pub proof fn law_one_more_byte_is_one_more_byte(
    registry: Seq<Seq<u32>>,
    mibs: StatsMibs,
    plugin_id: u8,
    advance: bool,
    steps: Seq<Exchange>,
    bytes: i64,
    place: int,
    key: Seq<usize>,
    answered: usize,
    more: usize,
    more_bytes: i64,
)
    requires
        plugin_arena::plugin_bytes_read(registry, mibs, plugin_id, advance, steps, Ok(bytes)),
        0 <= place < steps.len(),
        steps[place] == Exchange::ReadStat(key, Ok(answered)),
        answered + more <= usize::MAX,
        plugin_arena::plugin_bytes_read(
            registry,
            mibs,
            plugin_id,
            advance,
            steps.update(place, Exchange::ReadStat(key, Ok((answered + more) as usize))),
            Ok(more_bytes),
        ),
    ensures
        (more_bytes - bytes - more) % 0x1_0000_0000_0000_0000 == 0,
{
    let step = Exchange::ReadStat(key, Ok((answered + more) as usize));
    law_plugin_bytes_are_all_that_is_answered(registry, mibs, plugin_id, advance, steps, bytes);
    law_plugin_bytes_are_all_that_is_answered(
        registry,
        mibs,
        plugin_id,
        advance,
        steps.update(place, step),
        more_bytes,
    );
    law_each_answer_counts(steps, place, step);
}

/// The bytes of a plugin cannot be read exactly if it has no arenas, and then
/// nothing is asked, or if the statistics are to be refreshed and cannot be, and
/// then nothing else is asked.
pub proof fn law_bytes_are_read_unless_refreshing_fails(
    registry: Seq<Seq<u32>>,
    mibs: StatsMibs,
    plugin_id: u8,
    advance: bool,
    steps: Seq<Exchange>,
    bytes: Result<i64, String>,
)
    requires
        plugin_arena::plugin_bytes_read(registry, mibs, plugin_id, advance, steps, bytes),
    ensures
        !(1 <= plugin_id <= registry.len()) ==> bytes is Err && steps.len() == 0,
        1 <= plugin_id <= registry.len() && !advance ==> bytes is Ok,
        1 <= plugin_id <= registry.len() && advance ==> steps.len() > 0 && (
        steps[0] matches Exchange::Advance(answer) && match answer {
            Ok(_) => bytes is Ok,
            Err(reason) => steps.len() == 1 && bytes is Err && bytes->Err_0@
                == "epoch advance failed: "@ + reason@,
        }),
{
    let (advanced, answers) = choose|
        advanced: Result<u64, String>,
        answers: Seq<plugin_arena::ArenaAnswer>,
    |
        plugin_arena::plugin_bytes(
            registry,
            mibs,
            plugin_id,
            advance,
            advanced,
            answers,
            steps,
            bytes,
        );
    if 1 <= plugin_id <= registry.len() && advance {
        assert(steps[0] == Exchange::Advance(advanced));
    }
}

/// How many arenas the first plugins have together.
pub open spec fn arenas_before(registry: Seq<Seq<u32>>, plugins: int) -> int
    decreases plugins,
{
    if plugins <= 0 {
        0
    } else {
        arenas_before(registry, plugins - 1) + registry[plugins - 1].len()
    }
}

/// The requests about one plugin in a report: two for each arena, behind those
/// about the plugins before it.
pub open spec fn plugin_part(
    registry: Seq<Seq<u32>>,
    steps: Seq<Exchange>,
    plugin: int,
) -> Seq<Exchange> {
    steps.subrange(
        1 + 2 * arenas_before(registry, plugin),
        1 + 2 * arenas_before(registry, plugin + 1),
    )
}

/// The requests about a plugin, in their place among those about all plugins, are
/// those for its arenas.
spec fn reads_plugin(
    registry: Seq<Seq<u32>>,
    mibs: StatsMibs,
    steps: Seq<Exchange>,
    plugin: int,
    answers: Seq<plugin_arena::ArenaAnswer>,
) -> bool {
    let start = 2 * arenas_before(registry, plugin);
    let end = 2 * arenas_before(registry, plugin + 1);
    &&& 0 <= start <= end <= steps.len()
    &&& steps.subrange(start, end) == plugin_arena::reading_steps(
        mibs.small(),
        mibs.large(),
        registry[plugin],
        answers,
    )
}

/// The requests about the first plugins, one plugin after the other.
proof fn lemma_plugins_steps(
    registry: Seq<Seq<u32>>,
    mibs: StatsMibs,
    answers: Seq<Seq<plugin_arena::ArenaAnswer>>,
)
    requires
        answers.len() <= registry.len(),
        plugin_arena::answers_for(registry, answers),
    ensures
        ({
            let steps = plugin_arena::plugins_steps(registry, mibs, answers);
            &&& steps.len() == 2 * arenas_before(registry, answers.len() as int)
            &&& forall|i: int|
                0 <= i < answers.len() ==> reads_plugin(
                    registry,
                    mibs,
                    steps,
                    i,
                    #[trigger] answers[i],
                )
        }),
        arenas_before(registry, answers.len() as int) >= 0,
    decreases answers.len(),
{
    if answers.len() > 0 {
        let earlier = answers.drop_last();
        let last = answers.len() - 1;
        assert forall|i: int| 0 <= i < earlier.len() implies (#[trigger] earlier[i]).len()
            == registry[i].len() by {
            assert(earlier[i] == answers[i]);
        }
        lemma_plugins_steps(registry, mibs, earlier);
        let head = plugin_arena::plugins_steps(registry, mibs, earlier);
        let read = plugin_arena::reading_steps(
            mibs.small(),
            mibs.large(),
            registry[last],
            answers[last],
        );
        let steps = plugin_arena::plugins_steps(registry, mibs, answers);
        assert(answers[last].len() == registry[last].len());
        mibs.lemma_keys();
        lemma_reading(mibs.small(), mibs.large(), registry[last], answers[last]);
        assert(steps == head + read);
        assert forall|i: int| 0 <= i < answers.len() implies reads_plugin(
            registry,
            mibs,
            steps,
            i,
            #[trigger] answers[i],
        ) by {
            if i < last {
                assert(earlier[i] == answers[i]);
                lemma_arenas_before(registry, i, i + 1);
                assert(steps.subrange(
                    2 * arenas_before(registry, i),
                    2 * arenas_before(registry, i + 1),
                ) =~= head.subrange(
                    2 * arenas_before(registry, i),
                    2 * arenas_before(registry, i + 1),
                ));
            } else {
                assert(steps.subrange(
                    2 * arenas_before(registry, i),
                    2 * arenas_before(registry, i + 1),
                ) =~= read);
            }
        }
    }
}

/// In a report the statistics are refreshed first. Each arena of each plugin is
/// asked about once, and the bytes of a plugin are the sum of what is answered
/// for its own arenas. The bytes of the process are asked for at the end, and
/// count as 0 if they cannot be read.
pub proof fn law_report_lists_what_is_answered(
    registry: Seq<Seq<u32>>,
    mibs: StatsMibs,
    steps: Seq<Exchange>,
    report: ArenaReport,
)
    requires
        plugin_arena::report_read(registry, mibs, steps, Some(report)),
    ensures
        steps.len() == 3 + 2 * arenas_before(registry, registry.len() as int),
        steps[0] matches Exchange::Advance(answer) && answer is Ok,
        report.plugins@.len() == registry.len(),
        forall|i: int|
            0 <= i < registry.len() ==> asks_for_arenas(
                plugin_part(registry, steps, i),
                mibs.small(),
                mibs.large(),
                #[trigger] registry[i],
            ),
        forall|i: int|
            0 <= i < registry.len() ==> same_word(
                all_bytes_answered(plugin_part(registry, steps, i)),
                #[trigger] report.plugins@[i] as int,
            ),
        steps[steps.len() - 2] matches Exchange::ReadAllocated(answer) && report.allocated == (
        match answer {
            Ok(bytes) => bytes,
            Err(_) => 0,
        }),
        steps[steps.len() - 1] matches Exchange::ReadResident(answer) && report.resident == (
        match answer {
            Ok(bytes) => bytes,
            Err(_) => 0,
        }),
{
    let (epoch, answers, allocated, resident) = choose|
        epoch: u64,
        answers: Seq<Seq<plugin_arena::ArenaAnswer>>,
        allocated: Result<usize, String>,
        resident: Result<usize, String>,
    |
        steps == #[trigger] plugin_arena::report_steps(
            registry,
            mibs,
            epoch,
            answers,
            allocated,
            resident,
        ) && plugin_arena::report_of(registry, answers, allocated, resident, report);
    let middle = plugin_arena::plugins_steps(registry, mibs, answers);
    lemma_plugins_steps(registry, mibs, answers);
    assert(steps.subrange(1, 1 + middle.len() as int) =~= middle);
    assert(steps[0] == Exchange::Advance(Ok(epoch)));
    assert(steps[steps.len() - 2] == Exchange::ReadAllocated(allocated));
    assert(steps[steps.len() - 1] == Exchange::ReadResident(resident));
    assert forall|i: int| 0 <= i < registry.len() implies asks_for_arenas(
        plugin_part(registry, steps, i),
        mibs.small(),
        mibs.large(),
        #[trigger] registry[i],
    ) by {
        lemma_plugin_part(registry, mibs, steps, middle, answers, i);
    }
    assert forall|i: int| 0 <= i < registry.len() implies same_word(
        all_bytes_answered(plugin_part(registry, steps, i)),
        #[trigger] report.plugins@[i] as int,
    ) by {
        lemma_plugin_part(registry, mibs, steps, middle, answers, i);
        numeric::law_signed_words_differ_by_turns(
            all_bytes_answered(plugin_part(registry, steps, i)),
        );
    }
}

/// The requests about a plugin in a report ask for its arenas, and the answers to
/// them are the plugin's.
proof fn lemma_plugin_part(
    registry: Seq<Seq<u32>>,
    mibs: StatsMibs,
    steps: Seq<Exchange>,
    middle: Seq<Exchange>,
    answers: Seq<Seq<plugin_arena::ArenaAnswer>>,
    plugin: int,
)
    requires
        0 <= plugin < registry.len(),
        answers.len() == registry.len(),
        plugin_arena::answers_for(registry, answers),
        middle.len() + 1 <= steps.len(),
        steps.subrange(1, 1 + middle.len() as int) == middle,
        reads_plugin(registry, mibs, middle, plugin, answers[plugin]),
    ensures
        asks_for_arenas(
            plugin_part(registry, steps, plugin),
            mibs.small(),
            mibs.large(),
            registry[plugin],
        ),
        all_bytes_answered(plugin_part(registry, steps, plugin)) == plugin_arena::total_bytes(
            plugin_arena::reads_of(answers[plugin]),
        ),
{
    let start = 2 * arenas_before(registry, plugin);
    let end = 2 * arenas_before(registry, plugin + 1);
    assert forall|k: int| start <= k < end implies middle[k] == steps[k + 1] by {
        assert(steps.subrange(1, 1 + middle.len() as int)[k] == steps[k + 1]);
    }
    assert(plugin_part(registry, steps, plugin) =~= middle.subrange(start, end));
    assert(answers[plugin].len() == registry[plugin].len());
    mibs.lemma_keys();
    lemma_reading(mibs.small(), mibs.large(), registry[plugin], answers[plugin]);
    assert(registry[plugin].take(answers[plugin].len() as int) =~= registry[plugin]);
}

/// Two numbers that differ from a third by whole turns, added.
proof fn lemma_turns(a: int, b: int, c: int, d: int)
    requires
        (a - b) % 0x1_0000_0000_0000_0000 == 0,
        (c - d) % 0x1_0000_0000_0000_0000 == 0,
    ensures
        ((a + c) - (b + d)) % 0x1_0000_0000_0000_0000 == 0,
{
}

/// The sum over the first plugins is what is answered for their arenas.
proof fn lemma_sum_of_parts(
    registry: Seq<Seq<u32>>,
    steps: Seq<Exchange>,
    plugins: Seq<i64>,
    n: int,
)
    requires
        0 <= n <= plugins.len() == registry.len(),
        steps.len() == 3 + 2 * arenas_before(registry, registry.len() as int),
        forall|i: int|
            0 <= i < registry.len() ==> same_word(
                all_bytes_answered(plugin_part(registry, steps, i)),
                #[trigger] plugins[i] as int,
            ),
    ensures
        0 <= arenas_before(registry, n),
        n < registry.len() ==> arenas_before(registry, n) <= arenas_before(
            registry,
            registry.len() as int,
        ),
        (all_bytes_answered(steps.subrange(1, 1 + 2 * arenas_before(registry, n)))
            - plugin_arena::sum_of(plugins.take(n))) % 0x1_0000_0000_0000_0000 == 0,
    decreases n,
{
    lemma_arenas_before(registry, n, registry.len() as int);
    if n > 0 {
        lemma_sum_of_parts(registry, steps, plugins, n - 1);
        lemma_arenas_before(registry, n - 1, n);
        let head = steps.subrange(1, 1 + 2 * arenas_before(registry, n - 1));
        let part = plugin_part(registry, steps, n - 1);
        assert(steps.subrange(1, 1 + 2 * arenas_before(registry, n)) =~= head + part);
        law_answers_add_up(head, part);
        assert(plugins.take(n).drop_last() =~= plugins.take(n - 1));
        assert(same_word(all_bytes_answered(part), plugins[n - 1] as int));
        lemma_turns(
            all_bytes_answered(head),
            plugin_arena::sum_of(plugins.take(n - 1)),
            all_bytes_answered(part),
            plugins[n - 1] as int,
        );
    } else {
        assert(steps.subrange(1, 1) =~= Seq::<Exchange>::empty());
        assert(plugins.take(0) =~= Seq::<i64>::empty());
    }
}

/// More plugins have no fewer arenas.
proof fn lemma_arenas_before(registry: Seq<Seq<u32>>, n: int, m: int)
    requires
        0 <= n <= m,
    ensures
        0 <= arenas_before(registry, n) <= arenas_before(registry, m),
    decreases m,
{
    if n < m {
        lemma_arenas_before(registry, n, m - 1);
    } else if n > 0 {
        lemma_arenas_before(registry, n - 1, n - 1);
    }
}

/// The total of a report is all that is answered for the arenas of all plugins,
/// and also the sum of what the plugins have.
pub proof fn law_report_totals_what_is_answered(
    registry: Seq<Seq<u32>>,
    mibs: StatsMibs,
    steps: Seq<Exchange>,
    report: ArenaReport,
)
    requires
        plugin_arena::report_read(registry, mibs, steps, Some(report)),
    ensures
        (all_bytes_answered(steps) - report.tracked_total) % 0x1_0000_0000_0000_0000 == 0,
{
    law_report_lists_what_is_answered(registry, mibs, steps, report);
    let n = registry.len() as int;
    lemma_sum_of_parts(registry, steps, report.plugins@, n);
    assert(report.plugins@.take(n) =~= report.plugins@);
    let end = 1 + 2 * arenas_before(registry, n);
    let head = steps.subrange(0, 1);
    let middle = steps.subrange(1, end);
    let tail = steps.subrange(end, steps.len() as int);
    assert(steps =~= head + middle + tail);
    law_answers_add_up(head + middle, tail);
    law_answers_add_up(head, middle);
    reveal_with_fuel(all_bytes_answered, 3);
    assert(head.drop_last() =~= Seq::<Exchange>::empty());
    assert(tail.drop_last().drop_last() =~= Seq::<Exchange>::empty());
    assert(tail.last() == steps[steps.len() - 1]);
    assert(tail.drop_last().last() == steps[steps.len() - 2]);
    numeric::law_signed_words_differ_by_turns(plugin_arena::sum_of(report.plugins@));
    lemma_turns(
        all_bytes_answered(steps),
        plugin_arena::sum_of(report.plugins@),
        plugin_arena::sum_of(report.plugins@),
        report.tracked_total as int,
    );
}

/// There is no report exactly if the statistics cannot be refreshed, and then
/// nothing else is asked.
pub proof fn law_report_needs_fresh_statistics(
    registry: Seq<Seq<u32>>,
    mibs: StatsMibs,
    steps: Seq<Exchange>,
    report: Option<ArenaReport>,
)
    requires
        plugin_arena::report_read(registry, mibs, steps, report),
    ensures
        steps.len() > 0,
        steps[0] matches Exchange::Advance(answer) && (report is Some <==> answer is Ok),
        report is None ==> steps.len() == 1,
{
}

} // verus!
