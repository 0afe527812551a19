//! The GameCube interrupt controller: a master enable, a 32-bit enable mask,
//! a 32-bit pending set and one optional handler address per source.
use vstd::prelude::*;

verus! {

/// Number of interrupt sources.
pub const NUM_IRQS: usize = 32;

/// Abstract state of the interrupt controller.
pub struct InterruptState {
    pub master_enable: bool,
    pub mask: u32,
    pub pending: u32,
    pub handlers: Seq<Option<u32>>,
}

/// The bit of interrupt source `irq`.
pub open spec fn irq_bit(irq: u8) -> u32 {
    1u32 << (irq as u32)
}

/// Whether bit `irq` of `x` is set.
pub open spec fn bit_set(x: u32, irq: u8) -> bool {
    (x & irq_bit(irq)) != 0
}

pub open spec fn spec_enable(s: InterruptState, irq: u8) -> InterruptState {
    if irq < 32 {
        InterruptState { mask: s.mask | irq_bit(irq), ..s }
    } else {
        s
    }
}

pub open spec fn spec_disable(s: InterruptState, irq: u8) -> InterruptState {
    if irq < 32 {
        InterruptState { mask: s.mask & !irq_bit(irq), ..s }
    } else {
        s
    }
}

pub open spec fn spec_set_handler(s: InterruptState, irq: u8, h: u32) -> (Option<u32>, InterruptState) {
    if irq < 32 {
        (s.handlers[irq as int], InterruptState { handlers: s.handlers.update(irq as int, Some(h)), ..s })
    } else {
        (None, s)
    }
}

/// Raising marks the source pending and yields its handler when the master
/// enable and the source's enable bit are both on.
pub open spec fn spec_raise(s: InterruptState, irq: u8) -> (Option<u32>, InterruptState) {
    if irq >= 32 {
        (None, s)
    } else {
        let s2 = InterruptState { pending: s.pending | irq_bit(irq), ..s };
        if s.master_enable && bit_set(s.mask, irq) {
            (s.handlers[irq as int], s2)
        } else {
            (None, s2)
        }
    }
}

pub open spec fn spec_acknowledge(s: InterruptState, irq: u8) -> InterruptState {
    if irq < 32 {
        InterruptState { pending: s.pending & !irq_bit(irq), ..s }
    } else {
        s
    }
}

pub struct InterruptSystem {
    master_enable: bool,
    mask: u32,
    pending: u32,
    handlers: [Option<u32>; 32],
}

impl View for InterruptSystem {
    type V = InterruptState;

    closed spec fn view(&self) -> InterruptState {
        InterruptState {
            master_enable: self.master_enable,
            mask: self.mask,
            pending: self.pending,
            handlers: self.handlers@,
        }
    }
}

impl InterruptSystem {
    /// Everything disabled, nothing pending, no handlers.
    pub fn new() -> (s: InterruptSystem)
        ensures
            !s@.master_enable,
            s@.mask == 0,
            s@.pending == 0,
            s@.handlers.len() == NUM_IRQS,
            forall|i: int| 0 <= i < NUM_IRQS ==> s@.handlers[i] is None,
    {
        InterruptSystem { master_enable: false, mask: 0, pending: 0, handlers: [None; 32] }
    }

    pub fn enabled(&self) -> (b: bool)
        ensures
            b == self@.master_enable,
    {
        self.master_enable
    }

    pub fn set_master_enable(&mut self, enable: bool)
        ensures
            final(self)@ == (InterruptState { master_enable: enable, ..old(self)@ }),
    {
        self.master_enable = enable;
    }

    /// Turns the master enable off and clears the enable mask.
    pub fn disable_all(&mut self)
        ensures
            final(self)@ == (InterruptState { master_enable: false, mask: 0, ..old(self)@ }),
    {
        self.master_enable = false;
        self.mask = 0;
    }

    /// Sets the enable bit of a source (sources 32 and above are ignored).
    pub fn enable_interrupt(&mut self, irq: u8)
        ensures
            final(self)@ == spec_enable(old(self)@, irq),
    {
        if (irq as usize) < 32 {
            self.mask = self.mask | (1u32 << irq);
        }
    }

    /// Clears the enable bit of a source (sources 32 and above are ignored).
    pub fn disable_interrupt(&mut self, irq: u8)
        ensures
            final(self)@ == spec_disable(old(self)@, irq),
    {
        if (irq as usize) < 32 {
            self.mask = self.mask & !(1u32 << irq);
        }
    }

    /// Registers a handler address for a source; returns the previous one.
    pub fn set_handler(&mut self, irq: u8, handler: u32) -> (old_handler: Option<u32>)
        requires
            old(self)@.handlers.len() == NUM_IRQS,
        ensures
            (old_handler, final(self)@) == spec_set_handler(old(self)@, irq, handler),
    {
        if (irq as usize) < 32 {
            let prev = self.handlers[irq as usize];
            self.handlers[irq as usize] = Some(handler);
            prev
        } else {
            None
        }
    }

    /// Raises an interrupt: marks it pending and returns its handler when it
    /// is enabled and one is registered.
    pub fn raise(&mut self, irq: u8) -> (h: Option<u32>)
        requires
            old(self)@.handlers.len() == NUM_IRQS,
        ensures
            (h, final(self)@) == spec_raise(old(self)@, irq),
    {
        if (irq as usize) >= 32 {
            return None;
        }
        self.pending = self.pending | (1u32 << irq);
        if self.master_enable && (self.mask & (1u32 << irq)) != 0 {
            self.handlers[irq as usize]
        } else {
            None
        }
    }

    /// Clears the pending bit of a source.
    pub fn acknowledge(&mut self, irq: u8)
        ensures
            final(self)@ == spec_acknowledge(old(self)@, irq),
    {
        if (irq as usize) < 32 {
            self.pending = self.pending & !(1u32 << irq);
        }
    }

    /// Pending sources that are also enabled.
    pub fn get_pending_masked(&self) -> (r: u32)
        ensures
            r == self@.pending & self@.mask,
    {
        self.pending & self.mask
    }
}

impl Default for InterruptSystem {
    fn default() -> (s: Self)
        ensures
            !s@.master_enable,
            s@.mask == 0,
            s@.pending == 0,
            s@.handlers.len() == NUM_IRQS,
            forall|i: int| 0 <= i < NUM_IRQS ==> s@.handlers[i] is None,
    {
        Self::new()
    }
}

/// A source that is enabled under the master enable, with a handler, is
/// dispatched to that handler when raised.
pub proof fn law_enabled_raise_dispatches(s: InterruptState, irq: u8, h: u32)
    requires
        irq < 32,
        s.handlers.len() == NUM_IRQS,
    ensures
        ({
            let s1 = spec_set_handler(spec_enable(InterruptState { master_enable: true, ..s }, irq), irq, h).1;
            spec_raise(s1, irq).0 == Some(h)
        }),
{
    let b = irq_bit(irq);
    let m = s.mask;
    assert((m | b) & b != 0) by (bit_vector)
        requires
            b == 1u32 << (irq as u32),
            irq < 32,
    ;
}

/// A disabled source is never dispatched, though it is still marked pending.
pub proof fn law_disabled_raise_ignored(s: InterruptState, irq: u8)
    requires
        irq < 32,
    ensures
        spec_raise(spec_disable(s, irq), irq).0 is None,
        bit_set(spec_raise(spec_disable(s, irq), irq).1.pending, irq),
{
    let b = irq_bit(irq);
    let m = s.mask;
    let p = s.pending;
    assert((m & !b) & b == 0) by (bit_vector);
    assert((p | b) & b != 0) by (bit_vector)
        requires
            b == 1u32 << (irq as u32),
            irq < 32,
    ;
}

/// Acknowledging a raised interrupt clears its pending bit and leaves the
/// other sources' pending bits as they were.
pub proof fn law_acknowledge_clears(s: InterruptState, irq: u8, other: u8)
    requires
        irq < 32,
        other < 32,
        other != irq,
    ensures
        !bit_set(spec_acknowledge(spec_raise(s, irq).1, irq).pending, irq),
        bit_set(spec_acknowledge(spec_raise(s, irq).1, irq).pending, other) == bit_set(
            s.pending,
            other,
        ),
{
    let b = irq_bit(irq);
    let c = irq_bit(other);
    let p = s.pending;
    assert(((p | b) & !b) & b == 0) by (bit_vector);
    assert((((p | b) & !b) & c != 0) == (p & c != 0)) by (bit_vector)
        requires
            b == 1u32 << (irq as u32),
            c == 1u32 << (other as u32),
            irq < 32,
            other < 32,
            other != irq,
    ;
}

/// Enabling then disabling a source restores its enable bit to off and
/// leaves every other source's enable bit as it was.
pub proof fn law_enable_disable(s: InterruptState, irq: u8, other: u8)
    requires
        irq < 32,
        other < 32,
        other != irq,
    ensures
        !bit_set(spec_disable(spec_enable(s, irq), irq).mask, irq),
        bit_set(spec_disable(spec_enable(s, irq), irq).mask, other) == bit_set(s.mask, other),
{
    let b = irq_bit(irq);
    let c = irq_bit(other);
    let m = s.mask;
    assert(((m | b) & !b) & b == 0) by (bit_vector);
    assert((((m | b) & !b) & c != 0) == (m & c != 0)) by (bit_vector)
        requires
            b == 1u32 << (irq as u32),
            c == 1u32 << (other as u32),
            irq < 32,
            other < 32,
            other != irq,
    ;
}

} // verus!
