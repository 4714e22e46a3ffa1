//! Per-plugin accounting of allocations.
//!
//! Every block is preceded by a header byte that names the plugin it was
//! allocated for. Whoever frees the block, the byte says whom to credit.
use crate::allocator::{current_plugin_id, ThreadBinding, MAX_PLUGINS};
use crate::layout;
use crate::layout::{BlockLayout, WrappedLayout};
use crate::numeric;
use vstd::prelude::*;

verus! {

/// A change to the live bytes of one plugin.
#[derive(Clone, Copy, Debug, PartialEq, Eq, Structural)]
pub struct CounterUpdate {
    pub plugin: u8,
    pub added: usize,
    pub removed: usize,
}

/// What an allocation comes to.
#[derive(Clone, Copy, Debug, PartialEq, Eq, Structural)]
pub enum Allocation {
    /// There is no memory.
    Null,
    /// `header` goes to the first byte, `ptr` to the caller.
    Block { header: u8, ptr: usize, update: CounterUpdate },
}

/// What a deallocation comes to.
#[derive(Clone, Copy, Debug, PartialEq, Eq, Structural)]
pub struct Release {
    /// The layout that the block was allocated with, header included.
    pub wrapped: WrappedLayout,
    /// Nothing is credited to a header that names no plugin.
    pub update: Option<CounterUpdate>,
}

/// What has to be done to resize a block.
#[derive(Clone, Copy, Debug, PartialEq, Eq, Structural)]
pub enum Resize {
    /// There is no layout of the new size.
    Refuse,
    /// The underlying allocator resizes the block with its header.
    InPlace { old: WrappedLayout, new: WrappedLayout },
    /// The header names no plugin: a new block is allocated, `copied` bytes
    /// are moved, and the old block is freed.
    Move { old: WrappedLayout, new_layout: BlockLayout, copied: usize },
}

/// Live bytes of each plugin.
pub struct TrackingAllocator {
    live_bytes: [usize; MAX_PLUGINS],
}

/// The counters after a change.
pub open spec fn applied(counters: Seq<usize>, update: CounterUpdate) -> Seq<usize> {
    let plugin = update.plugin as int;
    counters.update(
        plugin,
        ((counters[plugin] + update.added - update.removed) % numeric::usize_modulus()) as usize,
    )
}

/// The counters after a change, if there is one.
pub open spec fn applied_if(counters: Seq<usize>, update: Option<CounterUpdate>) -> Seq<usize> {
    match update {
        Some(u) => applied(counters, u),
        None => counters,
    }
}

/// What an allocation for `plugin` comes to when the underlying allocator
/// answers with `base`.
pub open spec fn allocation(plugin: u8, layout: BlockLayout, base: usize) -> Allocation {
    if layout.wraps() && base != 0 {
        Allocation::Block {
            header: plugin,
            ptr: (base + layout.block_offset()) as usize,
            update: CounterUpdate { plugin, added: layout.size, removed: 0 },
        }
    } else {
        Allocation::Null
    }
}

/// What freeing a block with this header comes to.
pub open spec fn release(layout: BlockLayout, header: u8) -> Release {
    Release {
        wrapped: layout.wrapped(),
        update: if header < MAX_PLUGINS {
            Some(CounterUpdate { plugin: header, added: 0, removed: layout.size })
        } else {
            None
        },
    }
}

/// What has to be done to resize a block with this header.
pub open spec fn resize(layout: BlockLayout, header: u8, new_size: usize) -> Resize {
    let new = BlockLayout { size: new_size, align: layout.align };
    if header >= MAX_PLUGINS {
        Resize::Move {
            old: layout.wrapped(),
            new_layout: new,
            copied: if layout.size <= new_size {
                layout.size
            } else {
                new_size
            },
        }
    } else if new.valid() && new.wraps() {
        Resize::InPlace { old: layout.wrapped(), new: new.wrapped() }
    } else {
        Resize::Refuse
    }
}

/// What resizing in place comes to when the underlying allocator answers with
/// `base`.
pub open spec fn resized(layout: BlockLayout, header: u8, new_size: usize, base: usize) -> Allocation {
    if base == 0 {
        Allocation::Null
    } else {
        Allocation::Block {
            header,
            ptr: (base + layout.block_offset()) as usize,
            update: CounterUpdate { plugin: header, added: new_size, removed: layout.size },
        }
    }
}

impl View for TrackingAllocator {
    type V = Seq<usize>;

    closed spec fn view(&self) -> Seq<usize> {
        self.live_bytes@
    }
}

impl TrackingAllocator {
    /// No plugin holds any memory.
    pub fn new() -> (allocator: TrackingAllocator)
        ensures
            allocator@ == Seq::new(MAX_PLUGINS as nat, |i: int| 0usize),
    {
        let allocator = TrackingAllocator { live_bytes: [0usize; MAX_PLUGINS] };
        assert(allocator@ =~= Seq::new(MAX_PLUGINS as nat, |i: int| 0usize));
        allocator
    }

    /// Allocates: `base` is what the underlying allocator answered to the
    /// wrapped layout, 0 when it has no memory or was not asked.
    pub fn allocate(thread: &ThreadBinding, layout: BlockLayout, base: usize) -> (outcome: Allocation)
        requires
            layout.valid(),
            layout.wraps() ==> base + layout.wrapped_size() <= usize::MAX,
        ensures
            outcome == allocation(thread.plugin(), layout, base),
            thread.plugin() < MAX_PLUGINS,
    {
        let plugin: u8 = current_plugin_id(thread);
        match layout.wrap() {
            None => Allocation::Null,
            Some(wrapped) => {
                if base == 0 {
                    Allocation::Null
                } else {
                    proof {
                        layout::lemma_block_offset(layout);
                        layout::lemma_round_up(layout.block_offset() + layout.size, layout.align as int);
                    }
                    Allocation::Block {
                        header: plugin,
                        ptr: base + wrapped.offset,
                        update: CounterUpdate { plugin, added: layout.size, removed: 0 },
                    }
                }
            },
        }
    }

    /// Finds the header of a block.
    pub fn header_of(layout: BlockLayout, ptr: usize) -> (base: usize)
        requires
            layout.valid(),
            ptr >= layout.block_offset(),
        ensures
            base == ptr - layout.block_offset(),
    {
        proof {
            layout::lemma_block_offset(layout);
        }
        ptr - layout.align
    }

    /// Frees a block whose header byte is `header`.
    pub fn deallocate(layout: BlockLayout, header: u8) -> (outcome: Release)
        requires
            layout.valid(),
            layout.wraps(),
        ensures
            outcome == release(layout, header),
    {
        let wrapped = layout.wrap().unwrap();
        if header as usize >= MAX_PLUGINS {
            return Release { wrapped, update: None };
        }
        Release {
            wrapped,
            update: Some(CounterUpdate { plugin: header, added: 0, removed: layout.size }),
        }
    }

    /// Decides how to resize a block whose header byte is `header`.
    pub fn plan_reallocate(layout: BlockLayout, header: u8, new_size: usize) -> (plan: Resize)
        requires
            layout.valid(),
            layout.wraps(),
        ensures
            plan == resize(layout, header, new_size),
    {
        let old = Self::deallocate(layout, header).wrapped;
        if header as usize >= MAX_PLUGINS {
            return Resize::Move {
                old,
                new_layout: BlockLayout { size: new_size, align: layout.align },
                copied: if layout.size <= new_size {
                    layout.size
                } else {
                    new_size
                },
            };
        }
        match BlockLayout::from_size_align(new_size, layout.align) {
            None => Resize::Refuse,
            Some(new_layout) => match new_layout.wrap() {
                None => Resize::Refuse,
                Some(new) => Resize::InPlace { old, new },
            },
        }
    }

    /// Resizes in place: `base` is what the underlying allocator answered, 0
    /// when it has no memory.
    pub fn reallocate(layout: BlockLayout, header: u8, new_size: usize, base: usize) -> (outcome:
        Allocation)
        requires
            layout.valid(),
            layout.wraps(),
            resize(layout, header, new_size) is InPlace,
            base + resize(layout, header, new_size)->InPlace_new.size <= usize::MAX,
        ensures
            outcome == resized(layout, header, new_size, base),
    {
        if base == 0 {
            return Allocation::Null;
        }
        proof {
            let new = BlockLayout { size: new_size, align: layout.align };
            layout::lemma_block_offset(layout);
            layout::lemma_block_offset(new);
            layout::lemma_round_up(new.block_offset() + new.size, new.align as int);
        }
        Allocation::Block {
            header,
            ptr: base + layout.align,
            update: CounterUpdate { plugin: header, added: new_size, removed: layout.size },
        }
    }

    /// Applies a change.
    pub fn apply(&mut self, update: CounterUpdate)
        requires
            update.plugin < MAX_PLUGINS,
        ensures
            old(self)@.len() == MAX_PLUGINS,
            final(self)@.len() == MAX_PLUGINS,
            final(self)@ == applied(old(self)@, update),
    {
        let plugin: usize = update.plugin as usize;
        let before: usize = self.live_bytes[plugin];
        let grown: usize = before.wrapping_add(update.added);
        let after: usize = grown.wrapping_sub(update.removed);
        proof {
            numeric::lemma_wrapping_add(before, update.added);
            numeric::lemma_wrapping_sub(grown, update.removed);
            vstd::arithmetic::div_mod::lemma_sub_mod_noop(
                before + update.added,
                update.removed as int,
                numeric::usize_modulus(),
            );
            vstd::arithmetic::div_mod::lemma_sub_mod_noop(
                grown as int,
                update.removed as int,
                numeric::usize_modulus(),
            );
            vstd::arithmetic::div_mod::lemma_mod_twice(before + update.added, numeric::usize_modulus());
        }
        self.live_bytes[plugin] = after;
        assert(self@ =~= applied(old(self)@, update));
    }

    /// There is a counter for each plugin.
    pub proof fn lemma_counter_for_each_plugin(&self)
        ensures
            self@.len() == MAX_PLUGINS,
    {
    }

    /// Live bytes of a plugin.
    pub fn live_bytes_of(&self, plugin: u8) -> (bytes: usize)
        requires
            plugin < MAX_PLUGINS,
        ensures
            self@.len() == MAX_PLUGINS,
            bytes == self@[plugin as int],
    {
        self.live_bytes[plugin as usize]
    }
}

} // verus!
