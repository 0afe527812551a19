//! CPU register state of the emulated PowerPC core and the helpers of its
//! calling convention. Floating-point registers are held as raw IEEE-754
//! bit patterns.
use vstd::prelude::*;
use crate::memory::{MemoryManager, MemoryState, read_outcome};
use crate::dvd::{bytes_text, utf8_lossy};

verus! {

/// PowerPC register file.
pub struct CpuContext {
    /// General-purpose registers r0-r31.
    pub gpr: [u32; 32],
    /// Program counter.
    pub pc: u32,
    /// Link register.
    pub lr: u32,
    /// Count register.
    pub ctr: u32,
    /// Condition register (eight 4-bit fields, field 0 in the low bits).
    pub cr: u32,
    /// Fixed-point exception register.
    pub xer: u32,
    /// Floating-point status and control register.
    pub fpscr: u32,
    /// Floating-point registers f0-f31, as `f64` bit patterns.
    pub fpr: [u64; 32],
    /// Machine state register.
    pub msr: u32,
}

/// Value of condition-register field `field` in `cr`.
pub open spec fn cr_field_of(cr: u32, field: u8) -> u8 {
    if field < 8 {
        ((cr >> (4 * field) as u32) & 0xF) as u8
    } else {
        0
    }
}

/// `cr` with field `field` replaced by the low four bits of `value`.
pub open spec fn cr_with_field(cr: u32, field: u8, value: u8) -> u32 {
    if field < 8 {
        (cr & !(0xFu32 << (4 * field) as u32)) | (((value as u32) & 0xF) << (4 * field) as u32)
    } else {
        cr
    }
}

impl CpuContext {
    /// All registers zero.
    pub fn new() -> (c: CpuContext)
        ensures
            forall|i: int| 0 <= i < 32 ==> c.gpr@[i] == 0,
            forall|i: int| 0 <= i < 32 ==> c.fpr@[i] == 0,
            c.gpr@.len() == 32,
            c.fpr@.len() == 32,
            c.pc == 0,
            c.lr == 0,
            c.ctr == 0,
            c.cr == 0,
            c.xer == 0,
            c.fpscr == 0,
            c.msr == 0,
    {
        CpuContext {
            gpr: [0u32; 32],
            pc: 0,
            lr: 0,
            ctr: 0,
            cr: 0,
            xer: 0,
            fpscr: 0,
            fpr: [0u64; 32],
            msr: 0,
        }
    }

    /// Value of a GPR; 0 for register numbers above 31.
    pub fn get_register(&self, reg: u8) -> (v: u32)
        ensures
            v == (if reg < 32 { self.gpr@[reg as int] } else { 0 }),
    {
        if reg < 32 {
            self.gpr[reg as usize]
        } else {
            0
        }
    }

    /// Sets a GPR; register numbers above 31 are ignored.
    pub fn set_register(&mut self, reg: u8, value: u32)
        ensures
            final(self).gpr@ == (if reg < 32 {
                old(self).gpr@.update(reg as int, value)
            } else {
                old(self).gpr@
            }),
            final(self).fpr == old(self).fpr,
            final(self).pc == old(self).pc,
            final(self).lr == old(self).lr,
            final(self).ctr == old(self).ctr,
            final(self).cr == old(self).cr,
            final(self).xer == old(self).xer,
            final(self).fpscr == old(self).fpscr,
            final(self).msr == old(self).msr,
    {
        if reg < 32 {
            self.gpr[reg as usize] = value;
        }
    }

    /// A 4-bit condition-register field; 0 for fields above 7.
    pub fn get_cr_field(&self, field: u8) -> (v: u8)
        ensures
            v == cr_field_of(self.cr, field),
    {
        if field < 8 {
            ((self.cr >> (4 * field) as u32) & 0xF) as u8
        } else {
            0
        }
    }

    /// Replaces a condition-register field with the low four bits of
    /// `value`; fields above 7 are ignored.
    pub fn set_cr_field(&mut self, field: u8, value: u8)
        ensures
            final(self).cr == cr_with_field(old(self).cr, field, value),
            final(self).gpr == old(self).gpr,
            final(self).fpr == old(self).fpr,
            final(self).pc == old(self).pc,
            final(self).lr == old(self).lr,
            final(self).ctr == old(self).ctr,
            final(self).xer == old(self).xer,
            final(self).fpscr == old(self).fpscr,
            final(self).msr == old(self).msr,
    {
        if field < 8 {
            let mask: u32 = !(0xFu32 << (4 * field) as u32);
            self.cr = (self.cr & mask) | (((value as u32) & 0xF) << (4 * field) as u32);
        }
    }

    /// Bit pattern of an FPR; 0 for register numbers above 31.
    pub fn get_fpr_bits(&self, reg: u8) -> (v: u64)
        ensures
            v == (if reg < 32 { self.fpr@[reg as int] } else { 0 }),
    {
        if reg < 32 {
            self.fpr[reg as usize]
        } else {
            0
        }
    }

    /// Sets the bit pattern of an FPR; register numbers above 31 are ignored.
    pub fn set_fpr_bits(&mut self, reg: u8, value: u64)
        ensures
            final(self).fpr@ == (if reg < 32 {
                old(self).fpr@.update(reg as int, value)
            } else {
                old(self).fpr@
            }),
            final(self).gpr == old(self).gpr,
            final(self).cr == old(self).cr,
            final(self).pc == old(self).pc,
            final(self).lr == old(self).lr,
    {
        if reg < 32 {
            self.fpr[reg as usize] = value;
        }
    }
}

impl Default for CpuContext {
    fn default() -> (c: Self)
        ensures
            forall|i: int| 0 <= i < 32 ==> c.gpr@[i] == 0,
            c.pc == 0,
            c.cr == 0,
    {
        Self::new()
    }
}

/// Reading a condition-register field after setting it gives the low four
/// bits of the value set; every other field keeps its value.
pub proof fn law_cr_field_set_get(cr: u32, field: u8, value: u8, other: u8)
    requires
        field < 8,
        other < 8,
        other != field,
    ensures
        cr_field_of(cr_with_field(cr, field, value), field) == value & 0xF,
        cr_field_of(cr_with_field(cr, field, value), other) == cr_field_of(cr, other),
{
    let s = (4 * field) as u32;
    let t = (4 * other) as u32;
    let v = value as u32;
    assert((((cr & !(0xFu32 << s)) | ((v & 0xF) << s)) >> s) & 0xF == v & 0xF) by (bit_vector)
        requires
            s <= 28,
    ;
    assert((((cr & !(0xFu32 << s)) | ((v & 0xF) << s)) >> t) & 0xF == (cr >> t) & 0xF)
        by (bit_vector)
        requires
            s <= 28,
            t <= 28,
            s % 4 == 0,
            t % 4 == 0,
            s != t,
    ;
    assert(((v & 0xF) as u8) == value & 0xF) by (bit_vector)
        requires
            v == value as u32,
    ;
}

/// Helpers for the PowerPC calling convention: r1 is the stack pointer, the
/// first eight arguments are in r3-r10, and the return value is in r3.
pub struct CallingConvention;

impl CallingConvention {
    /// Allocates a stack frame: r1 decreases by `frame_size` (wrapping).
    pub fn setup_stack_frame(ctx: &mut CpuContext, frame_size: u32)
        ensures
            final(ctx).gpr@ == old(ctx).gpr@.update(1, wrap32(old(ctx).gpr@[1] - frame_size)),
            final(ctx).cr == old(ctx).cr,
            final(ctx).pc == old(ctx).pc,
            final(ctx).lr == old(ctx).lr,
    {
        let old_sp = ctx.get_register(1);
        let new_sp = old_sp.wrapping_sub(frame_size);
        ctx.set_register(1, new_sp);
    }

    /// Releases a stack frame: r1 increases by `frame_size` (wrapping).
    pub fn teardown_stack_frame(ctx: &mut CpuContext, frame_size: u32)
        ensures
            final(ctx).gpr@ == old(ctx).gpr@.update(1, wrap32(old(ctx).gpr@[1] + frame_size)),
            final(ctx).cr == old(ctx).cr,
            final(ctx).pc == old(ctx).pc,
            final(ctx).lr == old(ctx).lr,
    {
        let current_sp = ctx.get_register(1);
        let old_sp = current_sp.wrapping_add(frame_size);
        ctx.set_register(1, old_sp);
    }

    /// Argument `arg_num` (r3 for the first); 0 from the ninth on, which
    /// would be on the stack.
    pub fn get_argument(ctx: &CpuContext, arg_num: u8) -> (v: u32)
        ensures
            v == (if arg_num < 8 { ctx.gpr@[3 + arg_num] } else { 0 }),
    {
        if arg_num < 8 {
            ctx.get_register(3 + arg_num)
        } else {
            0
        }
    }

    /// Puts the return value in r3.
    pub fn set_return_value(ctx: &mut CpuContext, value: u32)
        ensures
            final(ctx).gpr@ == old(ctx).gpr@.update(3, value),
            final(ctx).cr == old(ctx).cr,
    {
        ctx.set_register(3, value);
    }

    /// The return value in r3.
    pub fn get_return_value(ctx: &CpuContext) -> (v: u32)
        ensures
            v == ctx.gpr@[3],
    {
        ctx.get_register(3)
    }

    /// The C string that argument `arg_num` points at: the bytes from that
    /// address up to the first zero byte, or up to the first address that
    /// cannot be read, as text with invalid UTF-8 replaced.
    pub fn get_string_argument(ctx: &CpuContext, memory: &MemoryManager, arg_num: u8) -> (s: String)
        requires
            memory.wf(),
        ensures
            s@ == bytes_text(
                c_string_bytes(
                    memory@,
                    if arg_num < 8 { ctx.gpr@[3 + arg_num] } else { 0 },
                    ADDRESS_COUNT as nat,
                ),
            ),
    {
        let addr = Self::get_argument(ctx, arg_num);
        let ghost m = memory@;
        let mut bytes: Vec<u8> = Vec::new();
        let mut a: u32 = addr;
        let mut n: u64 = 0;
        while n < ADDRESS_COUNT
            invariant_except_break
                n <= ADDRESS_COUNT,
                m == memory@,
                memory.wf(),
                bytes@ + c_string_bytes(m, a, (ADDRESS_COUNT - n) as nat) == c_string_bytes(
                    m,
                    addr,
                    ADDRESS_COUNT as nat,
                ),
            ensures
                bytes@ == c_string_bytes(m, addr, ADDRESS_COUNT as nat),
            decreases ADDRESS_COUNT - n,
        {
            let ghost rest = c_string_bytes(m, a, (ADDRESS_COUNT - n) as nat);
            match memory.read_u8(a) {
                Ok(b) => {
                    if b == 0 {
                        assert(rest == Seq::<u8>::empty());
                        assert(bytes@ + rest =~= bytes@);
                        break;
                    }
                    let ghost tail = c_string_bytes(m, a.wrapping_add(1), (ADDRESS_COUNT - n - 1) as nat);
                    assert(rest == seq![b] + tail);
                    let ghost before = bytes@;
                    bytes.push(b);
                    assert(bytes@ + tail =~= before + rest);
                    a = a.wrapping_add(1);
                    n = n + 1;
                },
                Err(_) => {
                    assert(rest == Seq::<u8>::empty());
                    assert(bytes@ + rest =~= bytes@);
                    break;
                },
            }
        }
        proof {
            if n == ADDRESS_COUNT {
                assert(c_string_bytes(m, a, 0) == Seq::<u8>::empty());
                assert(bytes@ + Seq::<u8>::empty() =~= bytes@);
            }
        }
        utf8_lossy(bytes.as_slice())
    }
}

/// Number of 32-bit addresses.
pub const ADDRESS_COUNT: u64 = 0x1_0000_0000;

/// The bytes of the C string at `addr`, reading at most `fuel` bytes: those
/// before the first zero byte, stopping early at an address that cannot be
/// read; addresses wrap around.
pub open spec fn c_string_bytes(m: MemoryState, addr: u32, fuel: nat) -> Seq<u8>
    decreases fuel,
{
    if fuel == 0 {
        seq![]
    } else {
        match read_outcome(m, addr, 1) {
            Ok(b) => if b[0] == 0 {
                seq![]
            } else {
                seq![b[0]] + c_string_bytes(m, addr.wrapping_add(1), (fuel - 1) as nat)
            },
            Err(_) => seq![],
        }
    }
}

/// `x` reduced modulo 2^32.
pub open spec fn wrap32(x: int) -> u32 {
    (x % 0x1_0000_0000) as u32
}

/// Tearing down a frame of the size just set up restores the stack pointer.
pub proof fn law_frame_teardown_restores(sp: u32, frame_size: u32)
    ensures
        wrap32(wrap32(sp - frame_size) + frame_size) == sp,
{
}

/// A value set in a GPR reads back, and the other GPRs are untouched.
pub proof fn law_register_set_get(gpr: Seq<u32>, reg: u8, value: u32, other: u8)
    requires
        gpr.len() == 32,
        reg < 32,
        other < 32,
        other != reg,
    ensures
        gpr.update(reg as int, value)[reg as int] == value,
        gpr.update(reg as int, value)[other as int] == gpr[other as int],
{
}

} // verus!
