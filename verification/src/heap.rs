//! Arena allocator following the GameCube OS memory model: the low cursor
//! grows upward, the high cursor grows downward, and an allocation that
//! would make them cross is refused.
use vstd::prelude::*;

verus! {

/// Default low cursor: just past a typical DOL image.
pub const DEFAULT_LO: u32 = 0x8040_0000;

/// Default high cursor: the top of MEM1.
pub const DEFAULT_HI: u32 = 0x817F_FFFF;

/// Abstract state of an arena: the two cursors and where `reset` returns them.
pub struct ArenaState {
    pub lo: u32,
    pub hi: u32,
    pub initial_lo: u32,
    pub initial_hi: u32,
}

/// The alignment actually used: 0 stands for 32.
pub open spec fn effective_align(align: u32) -> u32 {
    if align == 0 {
        32
    } else {
        align
    }
}

/// The low cursor rounded up to the alignment.
pub open spec fn align_up(lo: u32, align: u32) -> u32 {
    ((lo + effective_align(align) - 1) as u32) & !((effective_align(align) - 1) as u32)
}

/// The start of a high allocation: the high cursor less the size, rounded
/// down to the alignment (the subtraction wraps).
pub open spec fn align_down_from(hi: u32, size: u32, align: u32) -> u32 {
    wrapped_sub(hi, size) & !((effective_align(align) - 1) as u32)
}

/// `hi - size` modulo 2^32.
pub open spec fn wrapped_sub(hi: u32, size: u32) -> u32 {
    if hi >= size {
        (hi - size) as u32
    } else {
        (hi - size + 0x1_0000_0000) as u32
    }
}

/// A low allocation can be computed without overflow.
pub open spec fn lo_alloc_fits_u32(lo: u32, size: u32, align: u32) -> bool {
    &&& lo + effective_align(align) <= u32::MAX
    &&& align_up(lo, align) + size <= u32::MAX
}

/// Address and arena after a low allocation (address 0 and no change on refusal).
pub open spec fn lo_alloc(s: ArenaState, size: u32, align: u32) -> (u32, ArenaState) {
    let start = align_up(s.lo, align);
    if start + size > s.hi {
        (0, s)
    } else {
        (start, ArenaState { lo: (start + size) as u32, ..s })
    }
}

/// Address and arena after a high allocation (address 0 and no change on refusal).
pub open spec fn hi_alloc(s: ArenaState, size: u32, align: u32) -> (u32, ArenaState) {
    let start = align_down_from(s.hi, size, align);
    if start < s.lo {
        (0, s)
    } else {
        (start, ArenaState { hi: start, ..s })
    }
}

pub struct ArenaAllocator {
    lo: u32,
    hi: u32,
    initial_lo: u32,
    initial_hi: u32,
}

impl View for ArenaAllocator {
    type V = ArenaState;

    closed spec fn view(&self) -> ArenaState {
        ArenaState {
            lo: self.lo,
            hi: self.hi,
            initial_lo: self.initial_lo,
            initial_hi: self.initial_hi,
        }
    }
}

impl ArenaAllocator {
    /// An arena spanning the default bounds.
    pub fn new() -> (a: ArenaAllocator)
        ensures
            a@ == bounded(DEFAULT_LO, DEFAULT_HI),
    {
        ArenaAllocator { lo: DEFAULT_LO, hi: DEFAULT_HI, initial_lo: DEFAULT_LO, initial_hi: DEFAULT_HI }
    }

    /// Returns both cursors to their initial positions.
    pub fn reset(&mut self)
        ensures
            final(self)@ == reset_state(old(self)@),
    {
        self.lo = self.initial_lo;
        self.hi = self.initial_hi;
    }

    /// Allocates `size` bytes from the low end, aligned up to `align`
    /// (0 meaning 32). Returns the block's address, or 0 when the block would
    /// pass the high cursor (the arena is then unchanged).
    pub fn alloc_lo(&mut self, size: u32, align: u32) -> (addr: u32)
        requires
            lo_alloc_fits_u32(old(self)@.lo, size, align),
        ensures
            (addr, final(self)@) == lo_alloc(old(self)@, size, align),
            final(self)@ == after_call(old(self)@, ArenaCall::AllocLo(size, align)),
    {
        let align = if align == 0 {
            32
        } else {
            align
        };
        let aligned = (self.lo + align - 1) & !(align - 1);
        let end = aligned + size;
        if end > self.hi {
            return 0;
        }
        self.lo = end;
        aligned
    }

    /// Allocates `size` bytes from the high end: the high cursor less `size`,
    /// rounded down to `align` (0 meaning 32). Returns the block's address, or
    /// 0 when it would fall below the low cursor (the arena is then unchanged).
    pub fn alloc_hi(&mut self, size: u32, align: u32) -> (addr: u32)
        ensures
            (addr, final(self)@) == hi_alloc(old(self)@, size, align),
            final(self)@ == after_call(old(self)@, ArenaCall::AllocHi(size, align)),
    {
        let align = if align == 0 {
            32
        } else {
            align
        };
        let end = self.hi.wrapping_sub(size);
        let aligned = end & !(align - 1);
        if aligned < self.lo {
            return 0;
        }
        self.hi = aligned;
        aligned
    }

    pub fn lo_cursor(&self) -> (r: u32)
        ensures
            r == self@.lo,
    {
        self.lo
    }

    pub fn hi_cursor(&self) -> (r: u32)
        ensures
            r == self@.hi,
    {
        self.hi
    }

    pub fn set_lo_cursor(&mut self, addr: u32)
        ensures
            final(self)@ == (ArenaState { lo: addr, ..old(self)@ }),
            final(self)@ == after_call(old(self)@, ArenaCall::SetLoCursor(addr)),
    {
        self.lo = addr;
    }

    pub fn set_hi_cursor(&mut self, addr: u32)
        ensures
            final(self)@ == (ArenaState { hi: addr, ..old(self)@ }),
            final(self)@ == after_call(old(self)@, ArenaCall::SetHiCursor(addr)),
    {
        self.hi = addr;
    }

    /// Sets both the initial bounds and the current cursors.
    pub fn set_bounds(&mut self, lo: u32, hi: u32)
        ensures
            final(self)@ == bounded(lo, hi),
    {
        self.initial_lo = lo;
        self.initial_hi = hi;
        self.lo = lo;
        self.hi = hi;
    }
}

impl Default for ArenaAllocator {
    fn default() -> (a: Self)
        ensures
            a@ == bounded(DEFAULT_LO, DEFAULT_HI),
    {
        Self::new()
    }
}

/// Whether `a` is a power of two.
pub open spec fn is_power_of_two(a: u32) -> bool {
    a != 0 && (a & ((a - 1) as u32)) == 0
}

/// A low allocation starts no lower than the low cursor; with a power-of-two
/// alignment it starts at a multiple of the alignment.
pub proof fn law_alloc_lo_aligned(lo: u32, size: u32, align: u32)
    requires
        lo_alloc_fits_u32(lo, size, align),
    ensures
        align_up(lo, align) >= lo,
        is_power_of_two(effective_align(align)) ==> align_up(lo, align) % effective_align(align)
            == 0,
{
    let a = effective_align(align);
    assert(((lo + a - 1) as u32) & !((a - 1) as u32) >= lo) by (bit_vector)
        requires
            a != 0,
            lo + a <= u32::MAX,
    ;
    if is_power_of_two(a) {
        assert((((lo + a - 1) as u32) & !((a - 1) as u32)) % a == 0) by (bit_vector)
            requires
                a != 0,
                a & ((a - 1) as u32) == 0,
                lo + a <= u32::MAX,
        ;
    }
}

/// With a power-of-two alignment, a high allocation starts at an aligned
/// address, and (when the size does not exceed the high cursor) the block
/// fits below the old high cursor.
pub proof fn law_alloc_hi_aligned(hi: u32, size: u32, align: u32)
    requires
        is_power_of_two(effective_align(align)),
        size <= hi,
    ensures
        align_down_from(hi, size, align) % effective_align(align) == 0,
        align_down_from(hi, size, align) + size <= hi,
{
    let a = effective_align(align);
    assert(wrapped_sub(hi, size) == (hi - size) as u32);
    assert((((hi - size) as u32) & !((a - 1) as u32)) % a == 0 && (((hi - size) as u32) & !((a
        - 1) as u32)) + size <= hi) by (bit_vector)
        requires
            a != 0,
            a & ((a - 1) as u32) == 0,
            size <= hi,
    ;
}

/// Allocating never makes the cursors cross: if the low cursor is at or
/// below the high cursor, it stays so after either kind of allocation.
pub proof fn law_alloc_keeps_order(s: ArenaState, size: u32, align: u32)
    requires
        s.lo <= s.hi,
    ensures
        lo_alloc_fits_u32(s.lo, size, align) ==> lo_alloc(s, size, align).1.lo <= lo_alloc(
            s,
            size,
            align,
        ).1.hi,
        hi_alloc(s, size, align).1.lo <= hi_alloc(s, size, align).1.hi,
{
}

/// Two successful low allocations in a row hand out disjoint blocks: the
/// second starts at or after the end of the first.
pub proof fn law_lo_allocs_disjoint(s: ArenaState, size1: u32, align1: u32, size2: u32, align2: u32)
    requires
        lo_alloc_fits_u32(s.lo, size1, align1),
        lo_alloc(s, size1, align1).0 != 0,
        lo_alloc_fits_u32(lo_alloc(s, size1, align1).1.lo, size2, align2),
    ensures
        lo_alloc(s, size1, align1).0 + size1 <= align_up(lo_alloc(s, size1, align1).1.lo, align2),
{
    let s1 = lo_alloc(s, size1, align1).1;
    law_alloc_lo_aligned(s1.lo, size2, align2);
}

/// Allocations never move the bounds that `reset` returns to.
pub proof fn law_alloc_keeps_initial_bounds(s: ArenaState, size: u32, align: u32)
    requires
        lo_alloc_fits_u32(s.lo, size, align),
    ensures
        lo_alloc(s, size, align).1.initial_lo == s.initial_lo,
        lo_alloc(s, size, align).1.initial_hi == s.initial_hi,
        hi_alloc(s, size, align).1.initial_lo == s.initial_lo,
        hi_alloc(s, size, align).1.initial_hi == s.initial_hi,
{
}

/// One call that moves the cursors of an arena without touching the bounds
/// that `reset` returns to.
pub enum ArenaCall {
    /// `alloc_lo(size, align)`.
    AllocLo(u32, u32),
    /// `alloc_hi(size, align)`.
    AllocHi(u32, u32),
    /// `set_lo_cursor(addr)`.
    SetLoCursor(u32),
    /// `set_hi_cursor(addr)`.
    SetHiCursor(u32),
}

/// The arena after one call.
pub open spec fn after_call(s: ArenaState, call: ArenaCall) -> ArenaState {
    match call {
        ArenaCall::AllocLo(size, align) => lo_alloc(s, size, align).1,
        ArenaCall::AllocHi(size, align) => hi_alloc(s, size, align).1,
        ArenaCall::SetLoCursor(addr) => ArenaState { lo: addr, ..s },
        ArenaCall::SetHiCursor(addr) => ArenaState { hi: addr, ..s },
    }
}

/// The arena after a run of calls, first to last.
pub open spec fn after_calls(s: ArenaState, calls: Seq<ArenaCall>) -> ArenaState
    decreases calls.len(),
{
    if calls.len() == 0 {
        s
    } else {
        after_call(after_calls(s, calls.drop_last()), calls.last())
    }
}

/// The arena that `reset` leaves.
pub open spec fn reset_state(s: ArenaState) -> ArenaState {
    ArenaState { lo: s.initial_lo, hi: s.initial_hi, ..s }
}

/// The arena that `set_bounds(lo, hi)` leaves, whatever came before.
pub open spec fn bounded(lo: u32, hi: u32) -> ArenaState {
    ArenaState { lo, hi, initial_lo: lo, initial_hi: hi }
}

/// No run of allocations or cursor moves changes the bounds that `reset`
/// returns to.
pub proof fn law_calls_keep_bounds(s: ArenaState, calls: Seq<ArenaCall>)
    ensures
        after_calls(s, calls).initial_lo == s.initial_lo,
        after_calls(s, calls).initial_hi == s.initial_hi,
    decreases calls.len(),
{
    if calls.len() > 0 {
        law_calls_keep_bounds(s, calls.drop_last());
    }
}

/// Whatever allocations and cursor moves came since the bounds were last
/// set (by `set_bounds`, or by `new` to the defaults), `reset` puts the low
/// cursor back at the low bound and the high cursor at the high bound, and
/// keeps the bounds.
pub proof fn law_reset_after_calls(s: ArenaState, calls: Seq<ArenaCall>)
    ensures
        reset_state(after_calls(s, calls)) == (ArenaState {
            lo: s.initial_lo,
            hi: s.initial_hi,
            initial_lo: s.initial_lo,
            initial_hi: s.initial_hi,
        }),
{
    law_calls_keep_bounds(s, calls);
}

/// After `set_bounds(lo, hi)` and any allocations and cursor moves, `reset`
/// returns the cursors to `lo` and `hi`: the arena is as `set_bounds` left it.
pub proof fn law_reset_returns_to_bounds(lo: u32, hi: u32, calls: Seq<ArenaCall>)
    ensures
        reset_state(after_calls(bounded(lo, hi), calls)) == bounded(lo, hi),
        bounded(lo, hi).lo == lo && bounded(lo, hi).hi == hi,
{
    law_reset_after_calls(bounded(lo, hi), calls);
}

/// After `new` and any allocations and cursor moves, `reset` returns the
/// cursors to the default bounds.
pub proof fn law_reset_returns_to_defaults(calls: Seq<ArenaCall>)
    ensures
        reset_state(after_calls(bounded(DEFAULT_LO, DEFAULT_HI), calls)).lo == DEFAULT_LO,
        reset_state(after_calls(bounded(DEFAULT_LO, DEFAULT_HI), calls)).hi == DEFAULT_HI,
{
    law_reset_after_calls(bounded(DEFAULT_LO, DEFAULT_HI), calls);
}

/// A second `reset` changes nothing.
pub proof fn law_reset_idempotent(s: ArenaState)
    ensures
        reset_state(reset_state(s)) == reset_state(s),
{
}

} // verus!
