//! Memory accounting for plugins that share one native library.
use vstd::prelude::*;

pub mod accounting;
pub mod allocator;
pub mod arena_laws;
pub mod counters;
pub mod discovery;
pub mod ffm;
pub mod ffm_safe;
pub mod heap_allocator;
pub mod jvm;
pub mod layout;
pub mod mallctl;
pub mod memory_budget;
pub mod metrics;
pub mod native_registry;
pub mod numeric;
pub mod plugin_arena;
pub mod query;
pub mod reflection;
pub mod reflection_laws;
pub mod syntax;
pub mod text;
pub mod tracking;

verus! {

} // verus!
