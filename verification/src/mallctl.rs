//! Access to the control interface of jemalloc.
//!
//! What jemalloc answers depends on the state of the allocator, so nothing is
//! said of the answers here. What is said is what was asked: each function adds
//! the request, with the answer, to the record of the exchange. An error is
//! handed on as the text that `tikv_jemalloc_ctl::Error` displays.
use crate::text;
use tikv_jemalloc_ctl::stats::{allocated_mib, resident_mib};
use tikv_jemalloc_ctl::{epoch_mib, Access, AsName};
use vstd::prelude::*;

verus! {

/// `tikv_jemalloc_ctl::epoch_mib`: the resolved key `epoch`.
#[verifier::external_type_specification]
#[verifier::external_body]
pub struct ExEpochMib(tikv_jemalloc_ctl::epoch_mib);

/// `tikv_jemalloc_ctl::stats::allocated_mib`: the resolved key
/// `stats.allocated`.
#[verifier::external_type_specification]
#[verifier::external_body]
pub struct ExAllocatedMib(tikv_jemalloc_ctl::stats::allocated_mib);

/// `tikv_jemalloc_ctl::stats::resident_mib`: the resolved key
/// `stats.resident`.
#[verifier::external_type_specification]
#[verifier::external_body]
pub struct ExResidentMib(tikv_jemalloc_ctl::stats::resident_mib);

/// A request to jemalloc, or for the number of processors that its arenas are
/// spread over, and the answer to it.
pub enum Exchange {
    /// The processors that the process may use were counted.
    CountCpus(usize),
    /// A key was resolved.
    Resolve(Seq<char>, Result<(), String>),
    /// A key of five parts was resolved to these numbers.
    ResolveParts(Seq<char>, Result<Seq<usize>, String>),
    /// The value of a key was read.
    ReadU32(Seq<char>, Result<u32, String>),
    /// A value was written to a key.
    WriteU32(Seq<char>, u32, Result<(), String>),
    /// A value was written to a key.
    WriteIsize(Seq<char>, isize, Result<(), String>),
    /// The value of a resolved key was read.
    ReadStat(Seq<usize>, Result<usize, String>),
    /// The cached statistics were refreshed.
    Advance(Result<u64, String>),
    /// The bytes in live allocations were read.
    ReadAllocated(Result<usize, String>),
    /// The bytes in resident pages were read.
    ReadResident(Result<usize, String>),
}

/// A user of the control interface, with what it has exchanged with jemalloc.
///
/// The record is for proofs; at run time there is none.
pub struct Mallctl {
    record: Ghost<Seq<Exchange>>,
}

impl View for Mallctl {
    type V = Seq<Exchange>;

    closed spec fn view(&self) -> Seq<Exchange> {
        self.record@
    }
}

impl Mallctl {
    /// Nothing has been exchanged.
    pub fn new() -> (ctl: Mallctl)
        ensures
            ctl@ == Seq::<Exchange>::empty(),
    {
        Mallctl { record: Ghost(Seq::empty()) }
    }
}

/// The key of a setting of an arena.
pub open spec fn arena_key_text(arena: u32, setting: Seq<char>) -> Seq<char> {
    "arena."@ + text::decimal(arena as nat) + "."@ + setting + "\0"@
}

/// Most arenas that jemalloc can have.
pub const ARENA_LIMIT: u32 = 4095;

/// The key is that of a time after which unused pages of an arena are purged.
pub open spec fn is_decay_key(arena: u32, key: Seq<char>) -> bool {
    &&& arena < ARENA_LIMIT
    &&& key == arena_key_text(arena, "dirty_decay_ms"@) || key == arena_key_text(
        arena,
        "muzzy_decay_ms"@,
    )
}

/// Reads a `u32` by name: `AsName::name`, then `<Name as Access<u32>>::read`.
///
/// The keys are those whose value is one.
#[verifier::external_body]
pub(crate) fn read_u32(ctl: &mut Mallctl, key: &str) -> (value: Result<u32, String>)
    requires
        key@ == "arenas.narenas\0"@ || key@ == "arenas.create\0"@,
    ensures
        final(ctl)@ == old(ctl)@.push(Exchange::ReadU32(key@, value)),
{
    key.name().read().map_err(|e| e.to_string())
}

/// Writes a `u32` by name: `AsName::name`, then `<Name as Access<u32>>::write`.
///
/// The key is one whose value is one.
#[verifier::external_body]
pub(crate) fn write_u32(ctl: &mut Mallctl, key: &str, value: u32) -> (done: Result<(), String>)
    requires
        key@ == "thread.arena\0"@,
    ensures
        final(ctl)@ == old(ctl)@.push(Exchange::WriteU32(key@, value, done)),
{
    key.name().write(value).map_err(|e| e.to_string())
}

/// Writes an `isize` by name: `AsName::name`, then
/// `<Name as Access<isize>>::write`.
///
/// The keys are those whose value is one. Behind other keys of an arena jemalloc
/// expects addresses, and behind numbers from [`ARENA_LIMIT`] on there is no
/// arena that could be set.
#[verifier::external_body]
pub(crate) fn write_isize(ctl: &mut Mallctl, key: &str, value: isize) -> (done: Result<(), String>)
    requires
        exists|arena: u32| is_decay_key(arena, key@),
    ensures
        final(ctl)@ == old(ctl)@.push(Exchange::WriteIsize(key@, value, done)),
{
    key.name().write(value).map_err(|e| e.to_string())
}

/// The resolved key of a statistic of an arena. Its third part is the arena.
///
/// It comes from [`resolve_arena_stat`], with another arena at most: jemalloc does
/// not look at what numbers of its own making could not be.
pub struct ArenaStatKey {
    parts: [usize; 5],
}

impl View for ArenaStatKey {
    type V = Seq<usize>;

    closed spec fn view(&self) -> Seq<usize> {
        self.parts@
    }
}

impl ArenaStatKey {
    /// A key has five parts.
    pub proof fn lemma_parts(&self)
        ensures
            self@.len() == 5,
    {
    }

    /// Returns the key of the same statistic of another arena.
    pub fn of_arena(&self, arena: u32) -> (key: ArenaStatKey)
        ensures
            key@ == self@.update(2, arena as usize),
    {
        let mut parts: [usize; 5] = self.parts;
        parts[2] = arena as usize;
        ArenaStatKey { parts }
    }
}

/// An answer with the parts of the key in it.
pub open spec fn parts_of(answer: Result<ArenaStatKey, String>) -> Result<Seq<usize>, String> {
    match answer {
        Ok(key) => Ok(key@),
        Err(reason) => Err(reason),
    }
}

/// Resolves a name of five parts: `tikv_jemalloc_ctl::raw::name_to_mib`.
///
/// That function panics on a name with another number of parts. What numbers a
/// name has is up to the version of jemalloc.
#[verifier::external_body]
pub(crate) fn resolve_arena_stat(ctl: &mut Mallctl, name: &str) -> (key: Result<
    ArenaStatKey,
    String,
>)
    requires
        name@ == "stats.arenas.0.small.allocated\0"@ || name@
            == "stats.arenas.0.large.allocated\0"@,
    ensures
        final(ctl)@ == old(ctl)@.push(Exchange::ResolveParts(name@, parts_of(key))),
{
    let mut parts = [0usize; 5];
    match tikv_jemalloc_ctl::raw::name_to_mib(name.as_bytes(), &mut parts) {
        Ok(()) => Ok(ArenaStatKey { parts }),
        Err(e) => Err(e.to_string()),
    }
}

/// Reads a `usize` by resolved name: `<Mib<[usize; 5]> as Access<usize>>::read`.
///
/// What is at an index without an arena is up to jemalloc: mostly an error, but at
/// the number of arenas there are the sums over all of them.
#[verifier::external_body]
pub(crate) fn read_arena_stat(ctl: &mut Mallctl, key: &ArenaStatKey) -> (value: Result<
    usize,
    String,
>)
    ensures
        final(ctl)@ == old(ctl)@.push(Exchange::ReadStat(key@, value)),
{
    let mut mib: tikv_jemalloc_ctl::Mib<[usize; 5]> = Default::default();
    mib.as_mut().copy_from_slice(&key.parts);
    mib.read().map_err(|e| e.to_string())
}

/// An answer without the value in it.
pub open spec fn without_value<T>(answer: Result<T, String>) -> Result<(), String> {
    match answer {
        Ok(_) => Ok(()),
        Err(reason) => Err(reason),
    }
}

/// Resolves the key `epoch`: `tikv_jemalloc_ctl::epoch::mib`.
#[verifier::external_body]
pub(crate) fn resolve_epoch(ctl: &mut Mallctl) -> (mib: Result<epoch_mib, String>)
    ensures
        final(ctl)@ == old(ctl)@.push(Exchange::Resolve("epoch"@, without_value(mib))),
{
    tikv_jemalloc_ctl::epoch::mib().map_err(|e| e.to_string())
}

/// Resolves the key `stats.allocated`: `tikv_jemalloc_ctl::stats::allocated::mib`.
#[verifier::external_body]
pub(crate) fn resolve_allocated(ctl: &mut Mallctl) -> (mib: Result<allocated_mib, String>)
    ensures
        final(ctl)@ == old(ctl)@.push(Exchange::Resolve("stats.allocated"@, without_value(mib))),
{
    tikv_jemalloc_ctl::stats::allocated::mib().map_err(|e| e.to_string())
}

/// Resolves the key `stats.resident`: `tikv_jemalloc_ctl::stats::resident::mib`.
#[verifier::external_body]
pub(crate) fn resolve_resident(ctl: &mut Mallctl) -> (mib: Result<resident_mib, String>)
    ensures
        final(ctl)@ == old(ctl)@.push(Exchange::Resolve("stats.resident"@, without_value(mib))),
{
    tikv_jemalloc_ctl::stats::resident::mib().map_err(|e| e.to_string())
}

/// Refreshes the cached statistics: `epoch_mib::advance`.
#[verifier::external_body]
pub(crate) fn advance_epoch(ctl: &mut Mallctl, epoch: &epoch_mib) -> (done: Result<u64, String>)
    ensures
        final(ctl)@ == old(ctl)@.push(Exchange::Advance(done)),
{
    epoch.advance().map_err(|e| e.to_string())
}

/// Reads the bytes in live allocations: `allocated_mib::read`.
#[verifier::external_body]
pub(crate) fn read_allocated(ctl: &mut Mallctl, allocated: &allocated_mib) -> (bytes: Result<
    usize,
    String,
>)
    ensures
        final(ctl)@ == old(ctl)@.push(Exchange::ReadAllocated(bytes)),
{
    allocated.read().map_err(|e| e.to_string())
}

/// Reads the bytes in resident pages: `resident_mib::read`.
#[verifier::external_body]
pub(crate) fn read_resident(ctl: &mut Mallctl, resident: &resident_mib) -> (bytes: Result<
    usize,
    String,
>)
    ensures
        final(ctl)@ == old(ctl)@.push(Exchange::ReadResident(bytes)),
{
    resident.read().map_err(|e| e.to_string())
}

/// The keys that are written to are those of arenas that there can be.
pub proof fn law_settings_belong_to_arenas(arena: u32, key: Seq<char>)
    requires
        is_decay_key(arena, key),
    ensures
        arena < 4095,
        key == "arena."@ + text::decimal(arena as nat) + ".dirty_decay_ms\0"@ || key == "arena."@
            + text::decimal(arena as nat) + ".muzzy_decay_ms\0"@,
{
    reveal_strlit(".");
    reveal_strlit("\0");
    reveal_strlit("dirty_decay_ms");
    reveal_strlit("muzzy_decay_ms");
    reveal_strlit(".dirty_decay_ms\0");
    reveal_strlit(".muzzy_decay_ms\0");
    let head = "arena."@ + text::decimal(arena as nat);
    assert(arena_key_text(arena, "dirty_decay_ms"@) =~= head + ".dirty_decay_ms\0"@);
    assert(arena_key_text(arena, "muzzy_decay_ms"@) =~= head + ".muzzy_decay_ms\0"@);
}

} // verus!
