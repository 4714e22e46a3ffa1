//! What the per-plugin counters mean: laws of [`crate::tracking`].
//!
//! A live block is one that was allocated and not freed. The counter of a
//! plugin holds the bytes of the live blocks that carry its number, whichever
//! threads allocated, resized and freed them, and in whichever order.
use crate::allocator::MAX_PLUGINS;
use crate::layout;
use crate::layout::BlockLayout;
use crate::numeric;
use crate::tracking;
use crate::tracking::{Allocation, CounterUpdate, Resize};
use vstd::arithmetic::div_mod;
use vstd::prelude::*;

verus! {

/// A block that was allocated and not freed.
pub struct LiveBlock {
    /// Its header byte.
    pub plugin: u8,
    /// Bytes that its owner asked for.
    pub size: usize,
}

/// Bytes of the live blocks of a plugin.
pub open spec fn live_total(blocks: Seq<LiveBlock>, plugin: int) -> int
    decreases blocks.len(),
{
    if blocks.len() == 0 {
        0
    } else {
        live_total(blocks.drop_last(), plugin) + share(blocks.last(), plugin)
    }
}

/// Bytes that a block contributes to a plugin.
pub open spec fn share(block: LiveBlock, plugin: int) -> int {
    if block.plugin == plugin {
        block.size as int
    } else {
        0
    }
}

/// Every counter holds the bytes of the live blocks of its plugin, as far as
/// a `usize` can.
pub open spec fn accounts_for(counters: Seq<usize>, blocks: Seq<LiveBlock>) -> bool {
    &&& counters.len() == MAX_PLUGINS
    &&& forall|plugin: int|
        0 <= plugin < MAX_PLUGINS ==> #[trigger] counters[plugin] == live_total(blocks, plugin)
            % numeric::usize_modulus()
}

proof fn lemma_push(blocks: Seq<LiveBlock>, block: LiveBlock, plugin: int)
    ensures
        live_total(blocks.push(block), plugin) == live_total(blocks, plugin) + share(
            block,
            plugin,
        ),
{
    assert(blocks.push(block).drop_last() =~= blocks);
}

proof fn lemma_remove(blocks: Seq<LiveBlock>, i: int, plugin: int)
    requires
        0 <= i < blocks.len(),
    ensures
        live_total(blocks.remove(i), plugin) == live_total(blocks, plugin) - share(
            blocks[i],
            plugin,
        ),
    decreases blocks.len(),
{
    if i == blocks.len() - 1 {
        assert(blocks.remove(i) =~= blocks.drop_last());
    } else {
        lemma_remove(blocks.drop_last(), i, plugin);
        assert(blocks.remove(i).drop_last() =~= blocks.drop_last().remove(i));
    }
}

proof fn lemma_replace(blocks: Seq<LiveBlock>, i: int, block: LiveBlock, plugin: int)
    requires
        0 <= i < blocks.len(),
    ensures
        live_total(blocks.update(i, block), plugin) == live_total(blocks, plugin) - share(
            blocks[i],
            plugin,
        ) + share(block, plugin),
    decreases blocks.len(),
{
    if i == blocks.len() - 1 {
        assert(blocks.update(i, block).drop_last() =~= blocks.drop_last());
    } else {
        lemma_replace(blocks.drop_last(), i, block, plugin);
        assert(blocks.update(i, block).drop_last() =~= blocks.drop_last().update(i, block));
    }
}

/// A change that says what happened to the blocks keeps the account.
proof fn lemma_applied(
    counters: Seq<usize>,
    before: Seq<LiveBlock>,
    update: CounterUpdate,
    after: Seq<LiveBlock>,
)
    requires
        accounts_for(counters, before),
        update.plugin < MAX_PLUGINS,
        forall|plugin: int|
            #[trigger] live_total(after, plugin) == live_total(before, plugin) + (if plugin
                == update.plugin {
                update.added - update.removed
            } else {
                0
            }),
    ensures
        accounts_for(tracking::applied(counters, update), after),
{
    let result = tracking::applied(counters, update);
    let m = numeric::usize_modulus();
    assert forall|plugin: int| 0 <= plugin < MAX_PLUGINS implies #[trigger] result[plugin]
        == live_total(after, plugin) % m by {
        assert(counters[plugin] == live_total(before, plugin) % m);
        let t = live_total(after, plugin);
        if plugin == update.plugin {
            div_mod::lemma_add_mod_noop_right(
                update.added - update.removed,
                live_total(before, plugin),
                m,
            );
            div_mod::lemma_mod_bound(counters[plugin] + update.added - update.removed, m);
        }
    }
}

/// When nothing was allocated yet, the counters account for it.
pub proof fn law_nothing_is_live(counters: Seq<usize>)
    requires
        counters == Seq::new(MAX_PLUGINS as nat, |i: int| 0usize),
    ensures
        accounts_for(counters, Seq::empty()),
{
    div_mod::lemma_small_mod(0, numeric::usize_modulus() as nat);
}

/// An allocation adds a live block of the plugin that the thread works for,
/// and the counters account for it.
pub proof fn law_allocation_is_accounted(
    counters: Seq<usize>,
    blocks: Seq<LiveBlock>,
    plugin: u8,
    layout: BlockLayout,
    base: usize,
)
    requires
        accounts_for(counters, blocks),
        plugin < MAX_PLUGINS,
    ensures
        tracking::allocation(plugin, layout, base) matches Allocation::Block {
            header,
            update,
            ..
        } ==> header == plugin && accounts_for(
            tracking::applied(counters, update),
            blocks.push(LiveBlock { plugin: header, size: layout.size }),
        ),
{
    if let Allocation::Block { update, .. } = tracking::allocation(plugin, layout, base) {
        let block = LiveBlock { plugin, size: layout.size };
        assert forall|p: int|
            #[trigger] live_total(blocks.push(block), p) == live_total(blocks, p) + (if p
                == update.plugin {
                update.added - update.removed
            } else {
                0
            }) by {
            lemma_push(blocks, block, p);
        }
        lemma_applied(counters, blocks, update, blocks.push(block));
    }
}

/// Freeing a live block takes it out, and the counters account for it: its
/// header decides who is credited, whichever thread frees it.
pub proof fn law_release_is_accounted(
    counters: Seq<usize>,
    blocks: Seq<LiveBlock>,
    i: int,
    layout: BlockLayout,
)
    requires
        accounts_for(counters, blocks),
        0 <= i < blocks.len(),
        blocks[i].plugin < MAX_PLUGINS,
        layout.size == blocks[i].size,
    ensures
        accounts_for(
            tracking::applied_if(
                counters,
                tracking::release(layout, blocks[i].plugin).update,
            ),
            blocks.remove(i),
        ),
{
    let update = tracking::release(layout, blocks[i].plugin).update.unwrap();
    assert forall|p: int|
        #[trigger] live_total(blocks.remove(i), p) == live_total(blocks, p) + (if p
            == update.plugin {
            update.added - update.removed
        } else {
            0
        }) by {
        lemma_remove(blocks, i, p);
    }
    lemma_applied(counters, blocks, update, blocks.remove(i));
}

/// Resizing a live block in place keeps its owner, and the counters account
/// for its new size.
pub proof fn law_resize_is_accounted(
    counters: Seq<usize>,
    blocks: Seq<LiveBlock>,
    i: int,
    layout: BlockLayout,
    new_size: usize,
    base: usize,
)
    requires
        accounts_for(counters, blocks),
        0 <= i < blocks.len(),
        blocks[i].plugin < MAX_PLUGINS,
        layout.size == blocks[i].size,
    ensures
        tracking::resized(layout, blocks[i].plugin, new_size, base) matches Allocation::Block {
            header,
            update,
            ..
        } ==> header == blocks[i].plugin && accounts_for(
            tracking::applied(counters, update),
            blocks.update(i, LiveBlock { plugin: header, size: new_size }),
        ),
{
    if let Allocation::Block { update, .. } = tracking::resized(
        layout,
        blocks[i].plugin,
        new_size,
        base,
    ) {
        let block = LiveBlock { plugin: blocks[i].plugin, size: new_size };
        assert forall|p: int|
            #[trigger] live_total(blocks.update(i, block), p) == live_total(blocks, p) + (if p
                == update.plugin {
                update.added - update.removed
            } else {
                0
            }) by {
            lemma_replace(blocks, i, block, p);
        }
        lemma_applied(counters, blocks, update, blocks.update(i, block));
    }
}

/// Something that happens to a block. A live block is given by its place among
/// the live blocks, and `base` is what the underlying allocator answers.
pub enum HeapEvent {
    /// A thread that works for a plugin allocates a block.
    Allocate { plugin: u8, layout: BlockLayout, base: usize },
    /// Some thread frees a live block.
    Free { block: int, layout: BlockLayout },
    /// Some thread resizes a live block.
    Reallocate { block: int, layout: BlockLayout, new_size: usize, base: usize },
}

/// The counters and the live blocks at one time.
pub struct History {
    pub counters: Seq<usize>,
    pub blocks: Seq<LiveBlock>,
}

/// The plugin is one, or the block is a live one of this layout.
pub open spec fn possible(blocks: Seq<LiveBlock>, event: HeapEvent) -> bool {
    match event {
        HeapEvent::Allocate { plugin, .. } => plugin < MAX_PLUGINS,
        HeapEvent::Free { block, layout } => 0 <= block < blocks.len() && layout.size
            == blocks[block].size,
        HeapEvent::Reallocate { block, layout, .. } => 0 <= block < blocks.len() && layout.size
            == blocks[block].size,
    }
}

/// The counters and the live blocks after an event.
pub open spec fn happened(at: History, event: HeapEvent) -> History {
    match event {
        HeapEvent::Allocate { plugin, layout, base } => match tracking::allocation(
            plugin,
            layout,
            base,
        ) {
            Allocation::Null => at,
            Allocation::Block { header, update, .. } => History {
                counters: tracking::applied(at.counters, update),
                blocks: at.blocks.push(LiveBlock { plugin: header, size: layout.size }),
            },
        },
        HeapEvent::Free { block, layout } => History {
            counters: tracking::applied_if(
                at.counters,
                tracking::release(layout, at.blocks[block].plugin).update,
            ),
            blocks: at.blocks.remove(block),
        },
        HeapEvent::Reallocate { block, layout, new_size, base } => match tracking::resized(
            layout,
            at.blocks[block].plugin,
            new_size,
            base,
        ) {
            Allocation::Null => at,
            Allocation::Block { header, update, .. } => History {
                counters: tracking::applied(at.counters, update),
                blocks: at.blocks.update(block, LiveBlock { plugin: header, size: new_size }),
            },
        },
    }
}

/// The counters and the live blocks after events, from when there were none.
pub open spec fn history(events: Seq<HeapEvent>) -> History
    decreases events.len(),
{
    if events.len() == 0 {
        History { counters: Seq::new(MAX_PLUGINS as nat, |i: int| 0usize), blocks: seq![] }
    } else {
        happened(history(events.drop_last()), events.last())
    }
}

/// Each event is possible at its time.
pub open spec fn possible_history(events: Seq<HeapEvent>) -> bool
    decreases events.len(),
{
    events.len() > 0 ==> possible_history(events.drop_last()) && possible(
        history(events.drop_last()).blocks,
        events.last(),
    )
}

/// After any allocations, resizes and frees, by whatever threads, the counter of
/// each plugin holds the bytes of the live blocks that were allocated for it.
pub proof fn law_counters_account_for_every_history(events: Seq<HeapEvent>)
    requires
        possible_history(events),
    ensures
        accounts_for(history(events).counters, history(events).blocks),
        forall|i: int|
            0 <= i < history(events).blocks.len() ==> (#[trigger] history(events).blocks[i]).plugin
                < MAX_PLUGINS,
    decreases events.len(),
{
    if events.len() == 0 {
        law_nothing_is_live(history(events).counters);
    } else {
        let at = history(events.drop_last());
        law_counters_account_for_every_history(events.drop_last());
        match events.last() {
            HeapEvent::Allocate { plugin, layout, base } => {
                law_allocation_is_accounted(at.counters, at.blocks, plugin, layout, base);
            },
            HeapEvent::Free { block, layout } => {
                law_release_is_accounted(at.counters, at.blocks, block, layout);
            },
            HeapEvent::Reallocate { block, layout, new_size, base } => {
                law_resize_is_accounted(at.counters, at.blocks, block, layout, new_size, base);
            },
        }
    }
}

/// Changes may be applied in any order: threads need not wait for each other.
pub proof fn law_changes_commute(
    counters: Seq<usize>,
    first: CounterUpdate,
    second: CounterUpdate,
)
    requires
        counters.len() == MAX_PLUGINS,
        first.plugin < MAX_PLUGINS,
        second.plugin < MAX_PLUGINS,
    ensures
        tracking::applied(tracking::applied(counters, first), second) == tracking::applied(
            tracking::applied(counters, second),
            first,
        ),
{
    let m = numeric::usize_modulus();
    let a = tracking::applied(tracking::applied(counters, first), second);
    let b = tracking::applied(tracking::applied(counters, second), first);
    if first.plugin == second.plugin {
        let p = first.plugin as int;
        let x = first.added - first.removed;
        let y = second.added - second.removed;
        div_mod::lemma_add_mod_noop_right(y, counters[p] + x, m);
        div_mod::lemma_add_mod_noop_right(x, counters[p] + y, m);
        div_mod::lemma_mod_bound(counters[p] + x, m);
        div_mod::lemma_mod_bound(counters[p] + y, m);
    }
    assert(a =~= b);
}

/// A block that one plugin allocates and any thread frees leaves every counter
/// as it was.
pub proof fn law_free_credits_the_owner(
    counters: Seq<usize>,
    owner: u8,
    layout: BlockLayout,
    base: usize,
)
    requires
        counters.len() == MAX_PLUGINS,
        owner < MAX_PLUGINS,
    ensures
        tracking::allocation(owner, layout, base) matches Allocation::Block {
            header,
            update,
            ..
        } ==> tracking::applied_if(
            tracking::applied(counters, update),
            tracking::release(layout, header).update,
        ) == counters,
{
    if let Allocation::Block { header, update, .. } = tracking::allocation(owner, layout, base) {
        let m = numeric::usize_modulus();
        let p = owner as int;
        div_mod::lemma_add_mod_noop_right(-layout.size, counters[p] + layout.size, m);
        div_mod::lemma_mod_bound(counters[p] + layout.size, m);
        div_mod::lemma_small_mod(counters[p] as nat, m as nat);
        assert(tracking::applied_if(
            tracking::applied(counters, update),
            tracking::release(layout, header).update,
        ) =~= counters);
    }
}

/// A change touches the plugin that it names and no other.
pub proof fn law_other_plugins_are_untouched(
    counters: Seq<usize>,
    update: CounterUpdate,
    other: int,
)
    requires
        counters.len() == MAX_PLUGINS,
        update.plugin < MAX_PLUGINS,
        0 <= other < MAX_PLUGINS,
        other != update.plugin,
    ensures
        tracking::applied(counters, update)[other] == counters[other],
{
}

/// Resizing a block and then freeing it credits what was allocated at first.
pub proof fn law_resized_block_is_credited_in_full(
    counters: Seq<usize>,
    header: u8,
    layout: BlockLayout,
    new_size: usize,
    base: usize,
)
    requires
        counters.len() == MAX_PLUGINS,
        header < MAX_PLUGINS,
    ensures
        tracking::resized(layout, header, new_size, base) matches Allocation::Block {
            update,
            ..
        } ==> tracking::applied_if(
            tracking::applied(counters, update),
            tracking::release(BlockLayout { size: new_size, align: layout.align }, header).update,
        ) == tracking::applied_if(counters, tracking::release(layout, header).update),
{
    if let Allocation::Block { update, .. } = tracking::resized(layout, header, new_size, base) {
        let m = numeric::usize_modulus();
        let p = header as int;
        let grown = counters[p] + new_size - layout.size;
        div_mod::lemma_add_mod_noop_right(-new_size, grown, m);
        div_mod::lemma_mod_bound(grown, m);
        let freed = tracking::release(
            BlockLayout { size: new_size, align: layout.align },
            header,
        ).update;
        assert(tracking::applied_if(tracking::applied(counters, update), freed)
            =~= tracking::applied_if(counters, tracking::release(layout, header).update));
    }
}

/// The block starts behind the header byte, ends within what was asked for,
/// and is aligned if the underlying allocator aligned what it handed out.
pub proof fn law_block_is_apart_from_header(layout: BlockLayout, base: int)
    requires
        layout.valid(),
        layout.wraps(),
        base >= 0,
        base % layout.align as int == 0,
    ensures
        layout.block_offset() >= layout::HEADER_SIZE,
        layout.block_offset() + layout.size <= layout.wrapped_size(),
        layout.wrapped_size() < layout.block_offset() + layout.size + layout.align,
        layout.wrapped_size() % layout.align as int == 0,
        (base + layout.block_offset()) % layout.align as int == 0,
{
    layout::lemma_block_offset(layout);
    layout::lemma_round_up(layout.block_offset() + layout.size, layout.align as int);
    div_mod::lemma_mod_add_multiples_vanish(base, layout.align as int);
}

/// Resizing leaves the header where it was: the offset depends on the
/// alignment alone.
pub proof fn law_resize_keeps_header_place(layout: BlockLayout, new_size: usize)
    ensures
        (BlockLayout { size: new_size, align: layout.align }).block_offset()
            == layout.block_offset(),
{
}

/// The first place behind a header byte that a block of this alignment can have,
/// where the underlying allocator answered `base`: there is room for the byte, the
/// place is aligned if `base` is, and no place further to the front is both.
pub open spec fn first_place(base: int, align: int, place: int) -> bool {
    &&& base + 1 <= place <= base + align
    &&& base % align == 0 ==> place % align == 0
    &&& (place - base) % align == 0
}

/// An offset that is a multiple of the alignment, at least 1 and at most the
/// alignment, is the alignment.
proof fn lemma_first_place(base: int, align: int)
    requires
        align > 0,
        base >= 0,
    ensures
        first_place(base, align, base + align),
{
    div_mod::lemma_mod_self_0(align);
    div_mod::lemma_mod_add_multiples_vanish(base, align);
}

/// Two first places behind the same answer are the same.
pub proof fn law_there_is_one_first_place(base: int, align: int, one: int, other: int)
    requires
        align > 0,
        first_place(base, align, one),
        first_place(base, align, other),
    ensures
        one == other,
        one == base + align,
{
    lemma_multiple_in_unit(one - base, align);
    lemma_multiple_in_unit(other - base, align);
}

/// The only multiple of a unit from 1 up to it is the unit.
proof fn lemma_multiple_in_unit(n: int, unit: int)
    requires
        1 <= n <= unit,
        n % unit == 0,
    ensures
        n == unit,
{
    if n < unit {
        div_mod::lemma_small_mod(n as nat, unit as nat);
    }
}

/// A layout is valid exactly if its alignment is a power of two and its size ends
/// early enough to be rounded up to the alignment.
pub proof fn law_layouts_are_valid_in_range(layout: BlockLayout)
    ensures
        layout.valid() <==> layout.align > 0 && vstd::arithmetic::power2::is_pow2(
            layout.align as int,
        ) && layout.size + layout.align - 1 <= isize::MAX,
{
    if layout.align > 0 && vstd::arithmetic::power2::is_pow2(layout.align as int) {
        layout::lemma_round_up_bound(layout.size as int, layout.align);
    }
}

/// There is room for header, padding and block exactly if the block ends early
/// enough one alignment unit further on.
proof fn lemma_room(layout: BlockLayout)
    requires
        layout.valid(),
    ensures
        layout.wraps() <==> layout.size + 2 * layout.align - 1 <= isize::MAX,
        layout.block_offset() == layout.align,
        layout.align + layout.size <= layout.wrapped_size() < 2 * layout.align + layout.size,
        layout.wrapped_size() % layout.align as int == 0,
{
    layout::lemma_block_offset(layout);
    layout::lemma_round_up_bound(layout.block_offset() + layout.size, layout.align);
    layout::lemma_round_up(layout.block_offset() + layout.size, layout.align as int);
}

/// An allocation hands out a block exactly if the underlying allocator answered
/// and there is room for the header. The block belongs to the plugin, starts at
/// the first place behind the header byte, ends within what was asked of the
/// underlying allocator, and counts for its size.
pub proof fn law_allocation_hands_out_a_usable_block(
    plugin: u8,
    layout: BlockLayout,
    base: usize,
)
    requires
        layout.valid(),
        layout.wraps() ==> base + layout.wrapped_size() <= usize::MAX,
    ensures
        tracking::allocation(plugin, layout, base) is Block <==> base != 0 && layout.size + 2
            * layout.align - 1 <= isize::MAX,
        tracking::allocation(plugin, layout, base) matches Allocation::Block {
            header,
            ptr,
            update,
        } ==> {
            &&& header == plugin
            &&& first_place(base as int, layout.align as int, ptr as int)
            &&& ptr + layout.size <= base + layout.wrapped().size
            &&& update.plugin == plugin
            &&& update.added - update.removed == layout.size
        },
{
    lemma_room(layout);
    lemma_first_place(base as int, layout.align as int);
}

/// Resizing hands out a block exactly if the underlying allocator answered. Its
/// owner is the same, it starts as far behind the answer as an allocation with
/// this alignment would place it, and so at the first place behind the header
/// byte; it ends within what was asked of the underlying allocator, and the
/// counter changes by what the size does.
pub proof fn law_resize_hands_out_a_usable_block(
    layout: BlockLayout,
    header: u8,
    new_size: usize,
    base: usize,
)
    requires
        layout.valid(),
        layout.wraps(),
        tracking::resize(layout, header, new_size) is InPlace,
        base + tracking::resize(layout, header, new_size)->InPlace_new.size <= usize::MAX,
    ensures
        tracking::resized(layout, header, new_size, base) is Block <==> base != 0,
        tracking::resized(layout, header, new_size, base) matches Allocation::Block {
            header: owner,
            ptr,
            update,
        } ==> {
            let new = BlockLayout { size: new_size, align: layout.align };
            &&& owner == header
            &&& first_place(base as int, layout.align as int, ptr as int)
            &&& ptr - new.block_offset() == base
            &&& tracking::allocation(header, new, base) matches Allocation::Block {
                ptr: fresh,
                ..
            } && fresh == ptr
            &&& ptr + new_size <= base + tracking::resize(
                layout,
                header,
                new_size,
            )->InPlace_new.size
            &&& update.plugin == header
            &&& update.added - update.removed == new_size - layout.size
        },
{
    let new = BlockLayout { size: new_size, align: layout.align };
    lemma_room(layout);
    lemma_room(new);
    lemma_first_place(base as int, layout.align as int);
}

/// Freeing gives the underlying allocator back what an allocation with this
/// layout asked of it: as many bytes, aligned alike, from the same place in front
/// of the block. The plugin in the header is credited with the size of the block;
/// a header that names no plugin credits none.
pub proof fn law_release_gives_back_what_was_asked(layout: BlockLayout, header: u8)
    requires
        layout.valid(),
        layout.wraps(),
    ensures
        ({
            let wrapped = tracking::release(layout, header).wrapped;
            &&& wrapped == layout.wrapped()
            &&& wrapped.align == layout.align
            &&& wrapped.offset == layout.align
            &&& wrapped.size % layout.align == 0
            &&& wrapped.offset + layout.size <= wrapped.size < wrapped.offset + layout.size
                + layout.align
        }),
        tracking::release(layout, header).update is Some <==> header < 16,
        tracking::release(layout, header).update matches Some(update) ==> update.plugin == header
            && update.removed - update.added == layout.size,
{
    lemma_room(layout);
}

/// A block whose header names a plugin is resized in place if there is room for
/// its new size, and not at all otherwise. A block with another header is moved,
/// with as much of its contents as both sizes hold.
pub proof fn law_resize_keeps_what_fits(layout: BlockLayout, header: u8, new_size: usize)
    requires
        layout.valid(),
        layout.wraps(),
    ensures
        tracking::resize(layout, header, new_size) is Move <==> header >= 16,
        tracking::resize(layout, header, new_size) is InPlace <==> header < 16 && new_size + 2
            * layout.align - 1 <= isize::MAX,
        tracking::resize(layout, header, new_size) matches Resize::InPlace { old, new } ==> {
            &&& old == layout.wrapped()
            &&& new.align == old.align == layout.align
            &&& new.offset == old.offset == layout.align
            &&& new.size % layout.align == 0
            &&& new.offset + new_size <= new.size < new.offset + new_size + layout.align
        },
        tracking::resize(layout, header, new_size) matches Resize::Move {
            old,
            new_layout,
            copied,
        } ==> {
            &&& old == layout.wrapped()
            &&& new_layout.size == new_size
            &&& new_layout.align == layout.align
            &&& copied <= layout.size
            &&& copied <= new_size
            &&& copied == layout.size || copied == new_size
        },
{
    let new = BlockLayout { size: new_size, align: layout.align };
    lemma_room(layout);
    law_layouts_are_valid_in_range(new);
    if new.valid() {
        lemma_room(new);
    }
}

/// The header byte of a block is found again: in front of a block that an
/// allocation or a resize handed out is the answer of the underlying allocator.
pub proof fn law_header_is_found_again(
    plugin: u8,
    layout: BlockLayout,
    base: usize,
    new_size: usize,
)
    requires
        layout.valid(),
        layout.wraps(),
        base + layout.wrapped_size() <= usize::MAX,
    ensures
        tracking::allocation(plugin, layout, base) matches Allocation::Block { ptr, .. } ==> ptr
            - layout.block_offset() == base && ptr - layout.align == base,
        tracking::resize(layout, plugin, new_size) is InPlace && base + tracking::resize(
            layout,
            plugin,
            new_size,
        )->InPlace_new.size <= usize::MAX ==> (tracking::resized(
            layout,
            plugin,
            new_size,
            base,
        ) matches Allocation::Block { ptr, .. } ==> ptr - (BlockLayout {
            size: new_size,
            align: layout.align,
        }).block_offset() == base && ptr - layout.align == base),
{
    let new = BlockLayout { size: new_size, align: layout.align };
    lemma_room(layout);
    if tracking::resize(layout, plugin, new_size) is InPlace {
        lemma_room(new);
    }
}

/// A change adds to the counter of its plugin and takes from it, and the counter
/// wraps only where the result is no count.
pub proof fn law_change_is_counted(counters: Seq<usize>, update: CounterUpdate)
    requires
        counters.len() == MAX_PLUGINS,
        update.plugin < MAX_PLUGINS,
        0 <= counters[update.plugin as int] + update.added - update.removed <= usize::MAX,
    ensures
        tracking::applied(counters, update).len() == counters.len(),
        tracking::applied(counters, update)[update.plugin as int] == counters[update.plugin as int]
            + update.added - update.removed,
{
    div_mod::lemma_small_mod(
        (counters[update.plugin as int] + update.added - update.removed) as nat,
        numeric::usize_modulus() as nat,
    );
}

} // verus!
