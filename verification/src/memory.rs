//! GameCube memory map: main RAM (with its uncached mirror) and the hardware
//! I/O register window. Multi-byte values are big-endian.
use vstd::prelude::*;

verus! {

/// Size of main RAM (24 MiB).
pub const RAM_SIZE: usize = 0x180_0000;

/// Size of the I/O register window (64 KiB).
pub const IO_SIZE: usize = 0x1_0000;

/// Which backing buffer an address falls in.
#[derive(Debug, Clone, Copy, PartialEq, Eq, Structural)]
pub enum Region {
    Ram,
    Io,
}

/// Why a memory access was refused.
#[derive(Debug, Clone, Copy, PartialEq, Eq, Structural)]
pub enum MemoryError {
    /// The address is in no mapped region.
    InvalidAddress(u32),
    /// The access starts in a region but runs past its end.
    OutOfBounds(u32),
    /// An I/O register access outside the I/O window.
    IoOutOfBounds(u32),
    /// The destination of a bulk copy is not in main RAM.
    InvalidDestination(u32),
    /// The source of a bulk copy is not in main RAM.
    InvalidSource(u32),
    /// A bulk copy runs past the end of main RAM.
    BulkCopyOutOfBounds,
}

/// Abstract contents of a memory manager.
pub struct MemoryState {
    pub ram: Seq<u8>,
    pub io: Seq<u8>,
}

impl MemoryState {
    pub open spec fn bytes(self, r: Region) -> Seq<u8> {
        match r {
            Region::Ram => self.ram,
            Region::Io => self.io,
        }
    }

    pub open spec fn with_bytes(self, r: Region, b: Seq<u8>) -> MemoryState {
        match r {
            Region::Ram => MemoryState { ram: b, io: self.io },
            Region::Io => MemoryState { ram: self.ram, io: b },
        }
    }
}

/// Offset into main RAM of a cached (0x8000_0000) or uncached (0xC000_0000)
/// RAM address.
pub open spec fn ram_offset(address: u32) -> Option<int> {
    if 0x8000_0000 <= address <= 0x817F_FFFF {
        Some(address - 0x8000_0000)
    } else if 0xC000_0000 <= address <= 0xC17F_FFFF {
        Some(address - 0xC000_0000)
    } else {
        None
    }
}

/// Offset into the I/O window of an address in 0xCC00_0000..=0xCC00_FFFF.
pub open spec fn io_offset(address: u32) -> Option<int> {
    if 0xCC00_0000 <= address <= 0xCC00_FFFF {
        Some(address - 0xCC00_0000)
    } else {
        None
    }
}

/// The region and offset that an address resolves to.
pub open spec fn region_of(address: u32) -> Option<(Region, int)> {
    match ram_offset(address) {
        Some(o) => Some((Region::Ram, o)),
        None => match io_offset(address) {
            Some(o) => Some((Region::Io, o)),
            None => None,
        },
    }
}

/// `b` with the bytes of `data` written from offset `off`.
pub open spec fn splice(b: Seq<u8>, off: int, data: Seq<u8>) -> Seq<u8> {
    b.subrange(0, off) + data + b.subrange(off + data.len(), b.len() as int)
}

/// What a read of `n` bytes at `address` yields.
pub open spec fn read_outcome(m: MemoryState, address: u32, n: nat) -> Result<Seq<u8>, MemoryError> {
    match region_of(address) {
        None => Err(MemoryError::InvalidAddress(address)),
        Some((r, off)) => if off + n > m.bytes(r).len() {
            Err(MemoryError::OutOfBounds(address))
        } else {
            Ok(m.bytes(r).subrange(off, off + n))
        },
    }
}

/// What a write of `data` at `address` leaves behind.
pub open spec fn write_outcome(m: MemoryState, address: u32, data: Seq<u8>) -> Result<MemoryState, MemoryError> {
    match region_of(address) {
        None => Err(MemoryError::InvalidAddress(address)),
        Some((r, off)) => if off + data.len() > m.bytes(r).len() {
            Err(MemoryError::OutOfBounds(address))
        } else {
            Ok(m.with_bytes(r, splice(m.bytes(r), off, data)))
        },
    }
}

/// What a read of `n` bytes from main RAM only yields.
pub open spec fn ram_read_outcome(m: MemoryState, address: u32, n: nat) -> Result<Seq<u8>, MemoryError> {
    match ram_offset(address) {
        None => Err(MemoryError::InvalidAddress(address)),
        Some(off) => if off + n > m.ram.len() {
            Err(MemoryError::OutOfBounds(address))
        } else {
            Ok(m.ram.subrange(off, off + n))
        },
    }
}

/// What a write of `data` to main RAM only leaves behind.
pub open spec fn ram_write_outcome(m: MemoryState, address: u32, data: Seq<u8>) -> Result<MemoryState, MemoryError> {
    match ram_offset(address) {
        None => Err(MemoryError::InvalidAddress(address)),
        Some(off) => if off + data.len() > m.ram.len() {
            Err(MemoryError::OutOfBounds(address))
        } else {
            Ok(MemoryState { ram: splice(m.ram, off, data), io: m.io })
        },
    }
}

/// Big-endian value of two bytes.
pub open spec fn be_u16(b: Seq<u8>) -> u16 {
    (((b[0] as u16) << 8u16) | (b[1] as u16)) as u16
}

/// Big-endian value of four bytes.
pub open spec fn be_u32(b: Seq<u8>) -> u32 {
    ((b[0] as u32) << 24u32) | ((b[1] as u32) << 16u32) | ((b[2] as u32) << 8u32) | (b[3] as u32)
}

/// Big-endian value of eight bytes.
pub open spec fn be_u64(b: Seq<u8>) -> u64 {
    ((b[0] as u64) << 56u64) | ((b[1] as u64) << 48u64) | ((b[2] as u64) << 40u64) | ((
    b[3] as u64) << 32u64) | ((b[4] as u64) << 24u64) | ((b[5] as u64) << 16u64) | ((
    b[6] as u64) << 8u64) | (b[7] as u64)
}

/// Big-endian bytes of a 16-bit value.
pub open spec fn u16_bytes(v: u16) -> Seq<u8> {
    seq![(v >> 8u16) as u8, v as u8]
}

/// Big-endian bytes of a 32-bit value.
pub open spec fn u32_bytes(v: u32) -> Seq<u8> {
    seq![(v >> 24u32) as u8, (v >> 16u32) as u8, (v >> 8u32) as u8, v as u8]
}

/// Big-endian bytes of a 64-bit value.
pub open spec fn u64_bytes(v: u64) -> Seq<u8> {
    seq![
        (v >> 56u64) as u8,
        (v >> 48u64) as u8,
        (v >> 40u64) as u8,
        (v >> 32u64) as u8,
        (v >> 24u64) as u8,
        (v >> 16u64) as u8,
        (v >> 8u64) as u8,
        v as u8,
    ]
}

/// Maps a read outcome through a decoder of its bytes.
pub open spec fn map_read<T>(r: Result<Seq<u8>, MemoryError>, f: spec_fn(Seq<u8>) -> T) -> Result<T, MemoryError> {
    match r {
        Ok(b) => Ok(f(b)),
        Err(e) => Err(e),
    }
}

/// What a read of `n` bytes from the I/O register window yields.
pub open spec fn io_read_outcome(m: MemoryState, address: u32, n: nat) -> Result<Seq<u8>, MemoryError> {
    match io_offset(address) {
        Some(off) => if off + n <= m.io.len() {
            Ok(m.io.subrange(off, off + n))
        } else {
            Err(MemoryError::IoOutOfBounds(address))
        },
        None => Err(MemoryError::IoOutOfBounds(address)),
    }
}

/// What a write of `data` to the I/O register window leaves behind.
pub open spec fn io_write_outcome(m: MemoryState, address: u32, data: Seq<u8>) -> Result<MemoryState, MemoryError> {
    match io_offset(address) {
        Some(off) => if off + data.len() <= m.io.len() {
            Ok(MemoryState { ram: m.ram, io: splice(m.io, off, data) })
        } else {
            Err(MemoryError::IoOutOfBounds(address))
        },
        None => Err(MemoryError::IoOutOfBounds(address)),
    }
}

/// What a bulk copy of `len` RAM bytes from `src` to `dest` leaves behind.
pub open spec fn bulk_copy_outcome(m: MemoryState, dest: u32, src: u32, len: nat) -> Result<MemoryState, MemoryError> {
    match ram_offset(dest) {
        None => Err(MemoryError::InvalidDestination(dest)),
        Some(d) => match ram_offset(src) {
            None => Err(MemoryError::InvalidSource(src)),
            Some(s) => if d + len > m.ram.len() || s + len > m.ram.len() {
                Err(MemoryError::BulkCopyOutOfBounds)
            } else {
                Ok(MemoryState { ram: splice(m.ram, d, m.ram.subrange(s, s + len)), io: m.io })
            },
        },
    }
}

/// GameCube memory: 24 MiB of main RAM and a 64 KiB I/O register window.
pub struct MemoryManager {
    ram: Vec<u8>,
    io_regs: Vec<u8>,
}

impl View for MemoryManager {
    type V = MemoryState;

    closed spec fn view(&self) -> MemoryState {
        MemoryState { ram: self.ram@, io: self.io_regs@ }
    }
}

impl MemoryManager {
    /// Both buffers have their fixed sizes.
    pub open spec fn wf(&self) -> bool {
        &&& self@.ram.len() == RAM_SIZE
        &&& self@.io.len() == IO_SIZE
    }

    /// A memory manager with all of RAM and the I/O window zeroed.
    pub fn new() -> (m: MemoryManager)
        ensures
            m.wf(),
            forall|i: int| 0 <= i < RAM_SIZE ==> #[trigger] m@.ram[i] == 0,
            forall|i: int| 0 <= i < IO_SIZE ==> #[trigger] m@.io[i] == 0,
    {
        let ram = vec![0u8; RAM_SIZE];
        let io_regs = vec![0u8; IO_SIZE];
        MemoryManager { ram, io_regs }
    }

    /// Offset into RAM of a cached or uncached RAM address.
    fn translate_address(&self, address: u32) -> (r: Option<usize>)
        ensures
            match ram_offset(address) {
                Some(o) => r == Some(o as usize),
                None => r is None,
            },
    {
        if 0x8000_0000u32 <= address && address <= 0x817F_FFFFu32 {
            Some((address - 0x8000_0000u32) as usize)
        } else if 0xC000_0000u32 <= address && address <= 0xC17F_FFFFu32 {
            Some((address - 0xC000_0000u32) as usize)
        } else {
            None
        }
    }

    /// The region and offset of an address in RAM or in the I/O window.
    fn region(&self, address: u32) -> (r: Option<(Region, usize)>)
        ensures
            match region_of(address) {
                Some((g, o)) => r == Some((g, o as usize)),
                None => r is None,
            },
    {
        match self.translate_address(address) {
            Some(off) => Some((Region::Ram, off)),
            None => if 0xCC00_0000u32 <= address && address <= 0xCC00_FFFFu32 {
                Some((Region::Io, (address - 0xCC00_0000u32) as usize))
            } else {
                None
            },
        }
    }

    fn region_len(&self, r: Region) -> (n: usize)
        ensures
            n == self@.bytes(r).len(),
    {
        match r {
            Region::Ram => self.ram.len(),
            Region::Io => self.io_regs.len(),
        }
    }

    fn byte(&self, r: Region, i: usize) -> (b: u8)
        requires
            i < self@.bytes(r).len(),
        ensures
            b == self@.bytes(r)[i as int],
    {
        match r {
            Region::Ram => self.ram[i],
            Region::Io => self.io_regs[i],
        }
    }

    fn set_byte(&mut self, r: Region, i: usize, b: u8)
        requires
            i < old(self)@.bytes(r).len(),
        ensures
            final(self)@ == old(self)@.with_bytes(r, old(self)@.bytes(r).update(i as int, b)),
    {
        match r {
            Region::Ram => {
                self.ram.set(i, b);
            },
            Region::Io => {
                self.io_regs.set(i, b);
            },
        }
    }

    /// Reads `n` bytes at a resolved location.
    fn read_span(&self, r: Region, off: usize, n: usize) -> (v: Vec<u8>)
        requires
            self.wf(),
            off + n <= self@.bytes(r).len(),
        ensures
            v@ == self@.bytes(r).subrange(off as int, off + n),
    {
        let mut v: Vec<u8> = Vec::new();
        let mut i: usize = 0;
        while i < n
            invariant
                self.wf(),
                off + n <= self@.bytes(r).len(),
                i <= n,
                v@ == self@.bytes(r).subrange(off as int, off + i),
            decreases n - i,
        {
            v.push(self.byte(r, off + i));
            i = i + 1;
            assert(v@ =~= self@.bytes(r).subrange(off as int, off + i));
        }
        v
    }

    /// Writes `data` at a resolved location.
    fn write_span(&mut self, r: Region, off: usize, data: &[u8])
        requires
            old(self).wf(),
            off + data@.len() <= old(self)@.bytes(r).len(),
        ensures
            final(self).wf(),
            final(self)@ == old(self)@.with_bytes(r, splice(old(self)@.bytes(r), off as int, data@)),
    {
        let n = data.len();
        let mut i: usize = 0;
        proof {
            let b = old(self)@.bytes(r);
            assert(b.subrange(0, off as int) + data@.subrange(0, 0) + b.subrange(off as int, b.len() as int) =~= b);
            assert(old(self)@.with_bytes(r, b) == old(self)@) by {
                match r {
                    Region::Ram => {},
                    Region::Io => {},
                }
            }
        }
        while i < n
            invariant
                old(self).wf(),
                self.wf(),
                n == data@.len(),
                off + n <= old(self)@.bytes(r).len(),
                i <= n,
                self@ == old(self)@.with_bytes(
                    r,
                    old(self)@.bytes(r).subrange(0, off as int) + data@.subrange(0, i as int)
                        + old(self)@.bytes(r).subrange(off + i, old(self)@.bytes(r).len() as int),
                ),
            decreases n - i,
        {
            proof {
                let b = old(self)@.bytes(r);
                assert(self@.bytes(r) == b.subrange(0, off as int) + data@.subrange(0, i as int)
                    + b.subrange(off + i, b.len() as int));
            }
            self.set_byte(r, off + i, data[i]);
            i = i + 1;
            proof {
                let b = old(self)@.bytes(r);
                assert(self@.bytes(r) =~= b.subrange(0, off as int) + data@.subrange(0, i as int)
                    + b.subrange(off + i, b.len() as int));
                assert(self@ =~= old(self)@.with_bytes(
                    r,
                    b.subrange(0, off as int) + data@.subrange(0, i as int) + b.subrange(
                        off + i,
                        b.len() as int,
                    ),
                )) by {
                    match r {
                        Region::Ram => {},
                        Region::Io => {},
                    }
                }
            }
        }
        proof {
            assert(data@.subrange(0, n as int) =~= data@);
        }
    }

    /// Resolves an access of `n` bytes at `address`.
    fn locate(&self, address: u32, n: usize) -> (r: Result<(Region, usize), MemoryError>)
        requires
            self.wf(),
            n <= 8,
        ensures
            match r {
                Ok((g, o)) => region_of(address) == Some((g, o as int)) && o + n
                    <= self@.bytes(g).len(),
                Err(e) => read_outcome(self@, address, n as nat) == Err::<Seq<u8>, MemoryError>(e),
            },
    {
        match self.region(address) {
            None => Err(MemoryError::InvalidAddress(address)),
            Some((g, off)) => {
                if off + n > self.region_len(g) {
                    Err(MemoryError::OutOfBounds(address))
                } else {
                    Ok((g, off))
                }
            },
        }
    }

    /// Reads a byte.
    pub fn read_u8(&self, address: u32) -> (r: Result<u8, MemoryError>)
        requires
            self.wf(),
        ensures
            r == map_read(read_outcome(self@, address, 1), |b: Seq<u8>| b[0]),
    {
        match self.locate(address, 1) {
            Ok((g, off)) => Ok(self.byte(g, off)),
            Err(e) => Err(e),
        }
    }

    /// Reads a big-endian 16-bit value.
    pub fn read_u16(&self, address: u32) -> (r: Result<u16, MemoryError>)
        requires
            self.wf(),
        ensures
            r == map_read(read_outcome(self@, address, 2), |b: Seq<u8>| be_u16(b)),
    {
        match self.locate(address, 2) {
            Ok((g, off)) => {
                let b0 = self.byte(g, off);
                let b1 = self.byte(g, off + 1);
                Ok(((b0 as u16) << 8u16) | (b1 as u16))
            },
            Err(e) => Err(e),
        }
    }

    /// Reads a big-endian 32-bit value.
    pub fn read_u32(&self, address: u32) -> (r: Result<u32, MemoryError>)
        requires
            self.wf(),
        ensures
            r == map_read(read_outcome(self@, address, 4), |b: Seq<u8>| be_u32(b)),
    {
        match self.locate(address, 4) {
            Ok((g, off)) => {
                let b0 = self.byte(g, off);
                let b1 = self.byte(g, off + 1);
                let b2 = self.byte(g, off + 2);
                let b3 = self.byte(g, off + 3);
                Ok(((b0 as u32) << 24u32) | ((b1 as u32) << 16u32) | ((b2 as u32) << 8u32) | (
                b3 as u32))
            },
            Err(e) => Err(e),
        }
    }

    /// Reads a big-endian 64-bit value.
    pub fn read_u64(&self, address: u32) -> (r: Result<u64, MemoryError>)
        requires
            self.wf(),
        ensures
            r == map_read(read_outcome(self@, address, 8), |b: Seq<u8>| be_u64(b)),
    {
        match self.locate(address, 8) {
            Ok((g, off)) => {
                let b = self.read_span(g, off, 8);
                Ok(((b[0] as u64) << 56u64) | ((b[1] as u64) << 48u64) | ((b[2] as u64) << 40u64)
                    | ((b[3] as u64) << 32u64) | ((b[4] as u64) << 24u64) | ((b[5] as u64)
                    << 16u64) | ((b[6] as u64) << 8u64) | (b[7] as u64))
            },
            Err(e) => Err(e),
        }
    }

    /// Writes `data` wherever `address` resolves to.
    fn write_resolved(&mut self, address: u32, data: &[u8]) -> (r: Result<(), MemoryError>)
        requires
            old(self).wf(),
            data@.len() <= 8,
        ensures
            final(self).wf(),
            match write_outcome(old(self)@, address, data@) {
                Ok(s) => r is Ok && final(self)@ == s,
                Err(e) => r == Err::<(), MemoryError>(e) && final(self)@ == old(self)@,
            },
    {
        match self.locate(address, data.len()) {
            Ok((g, off)) => {
                self.write_span(g, off, data);
                proof {
                    match g {
                        Region::Ram => {},
                        Region::Io => {},
                    }
                }
                Ok(())
            },
            Err(e) => Err(e),
        }
    }

    /// Writes a byte.
    pub fn write_u8(&mut self, address: u32, value: u8) -> (r: Result<(), MemoryError>)
        requires
            old(self).wf(),
        ensures
            final(self).wf(),
            match write_outcome(old(self)@, address, seq![value]) {
                Ok(s) => r is Ok && final(self)@ == s,
                Err(e) => r == Err::<(), MemoryError>(e) && final(self)@ == old(self)@,
            },
    {
        let bytes = [value];
        assert(bytes@ == seq![value]);
        self.write_resolved(address, &bytes)
    }

    /// Writes a big-endian 16-bit value.
    pub fn write_u16(&mut self, address: u32, value: u16) -> (r: Result<(), MemoryError>)
        requires
            old(self).wf(),
        ensures
            final(self).wf(),
            match write_outcome(old(self)@, address, u16_bytes(value)) {
                Ok(s) => r is Ok && final(self)@ == s,
                Err(e) => r == Err::<(), MemoryError>(e) && final(self)@ == old(self)@,
            },
    {
        let bytes = [(value >> 8u16) as u8, value as u8];
        assert(bytes@ == u16_bytes(value));
        self.write_resolved(address, &bytes)
    }

    /// Writes a big-endian 32-bit value.
    pub fn write_u32(&mut self, address: u32, value: u32) -> (r: Result<(), MemoryError>)
        requires
            old(self).wf(),
        ensures
            final(self).wf(),
            match write_outcome(old(self)@, address, u32_bytes(value)) {
                Ok(s) => r is Ok && final(self)@ == s,
                Err(e) => r == Err::<(), MemoryError>(e) && final(self)@ == old(self)@,
            },
    {
        let bytes = [
            (value >> 24u32) as u8,
            (value >> 16u32) as u8,
            (value >> 8u32) as u8,
            value as u8,
        ];
        assert(bytes@ == u32_bytes(value));
        self.write_resolved(address, &bytes)
    }

    /// Writes a big-endian 64-bit value.
    pub fn write_u64(&mut self, address: u32, value: u64) -> (r: Result<(), MemoryError>)
        requires
            old(self).wf(),
        ensures
            final(self).wf(),
            match write_outcome(old(self)@, address, u64_bytes(value)) {
                Ok(s) => r is Ok && final(self)@ == s,
                Err(e) => r == Err::<(), MemoryError>(e) && final(self)@ == old(self)@,
            },
    {
        let bytes = [
            (value >> 56u64) as u8,
            (value >> 48u64) as u8,
            (value >> 40u64) as u8,
            (value >> 32u64) as u8,
            (value >> 24u64) as u8,
            (value >> 16u64) as u8,
            (value >> 8u64) as u8,
            value as u8,
        ];
        assert(bytes@ == u64_bytes(value));
        self.write_resolved(address, &bytes)
    }

    /// Offset into the I/O window of an I/O register access.
    fn io_window(&self, address: u32, n: usize) -> (r: Result<usize, MemoryError>)
        requires
            self.wf(),
            n <= 8,
        ensures
            match r {
                Ok(o) => io_offset(address) == Some(o as int) && o + n <= IO_SIZE,
                Err(e) => io_read_outcome(self@, address, n as nat) == Err::<Seq<u8>, MemoryError>(e),
            },
    {
        if address < 0xCC00_0000u32 {
            return Err(MemoryError::IoOutOfBounds(address));
        }
        let offset: usize = (address - 0xCC00_0000u32) as usize;
        if offset < self.io_regs.len() && n <= self.io_regs.len() - offset {
            Ok(offset)
        } else {
            Err(MemoryError::IoOutOfBounds(address))
        }
    }

    /// Reads a byte from the I/O register window.
    pub fn read_io_u8(&self, address: u32) -> (r: Result<u8, MemoryError>)
        requires
            self.wf(),
        ensures
            r == map_read(io_read_outcome(self@, address, 1), |b: Seq<u8>| b[0]),
    {
        match self.io_window(address, 1) {
            Ok(off) => Ok(self.io_regs[off]),
            Err(e) => Err(e),
        }
    }

    /// Writes a byte to the I/O register window.
    pub fn write_io_u8(&mut self, address: u32, value: u8) -> (r: Result<(), MemoryError>)
        requires
            old(self).wf(),
        ensures
            final(self).wf(),
            match io_write_outcome(old(self)@, address, seq![value]) {
                Ok(s) => r is Ok && final(self)@ == s,
                Err(e) => r == Err::<(), MemoryError>(e) && final(self)@ == old(self)@,
            },
    {
        match self.io_window(address, 1) {
            Ok(off) => {
                let bytes = [value];
                assert(bytes@ == seq![value]);
                self.write_span(Region::Io, off, &bytes);
                Ok(())
            },
            Err(e) => Err(e),
        }
    }

    /// Reads a big-endian 32-bit value from the I/O register window.
    pub fn read_io_u32(&self, address: u32) -> (r: Result<u32, MemoryError>)
        requires
            self.wf(),
        ensures
            r == map_read(io_read_outcome(self@, address, 4), |b: Seq<u8>| be_u32(b)),
    {
        match self.io_window(address, 4) {
            Ok(off) => {
                let b0 = self.io_regs[off];
                let b1 = self.io_regs[off + 1];
                let b2 = self.io_regs[off + 2];
                let b3 = self.io_regs[off + 3];
                Ok(((b0 as u32) << 24u32) | ((b1 as u32) << 16u32) | ((b2 as u32) << 8u32) | (
                b3 as u32))
            },
            Err(e) => Err(e),
        }
    }

    /// Writes a big-endian 32-bit value to the I/O register window.
    pub fn write_io_u32(&mut self, address: u32, value: u32) -> (r: Result<(), MemoryError>)
        requires
            old(self).wf(),
        ensures
            final(self).wf(),
            match io_write_outcome(old(self)@, address, u32_bytes(value)) {
                Ok(s) => r is Ok && final(self)@ == s,
                Err(e) => r == Err::<(), MemoryError>(e) && final(self)@ == old(self)@,
            },
    {
        match self.io_window(address, 4) {
            Ok(off) => {
                let bytes = [
                    (value >> 24u32) as u8,
                    (value >> 16u32) as u8,
                    (value >> 8u32) as u8,
                    value as u8,
                ];
                assert(bytes@ == u32_bytes(value));
                self.write_span(Region::Io, off, &bytes);
                Ok(())
            },
            Err(e) => Err(e),
        }
    }

    /// All of main RAM.
    pub fn ram_slice(&self) -> (s: &[u8])
        ensures
            s@ == self@.ram,
    {
        self.ram.as_slice()
    }

    /// Reads `len` bytes of main RAM.
    pub fn read_bytes(&self, address: u32, len: usize) -> (r: Result<Vec<u8>, MemoryError>)
        requires
            self.wf(),
            ram_offset(address) matches Some(off) ==> off + len <= usize::MAX,
        ensures
            match ram_read_outcome(self@, address, len as nat) {
                Ok(b) => r matches Ok(v) && v@ == b,
                Err(e) => r == Err::<Vec<u8>, MemoryError>(e),
            },
    {
        let offset = match self.translate_address(address) {
            Some(o) => o,
            None => {
                return Err(MemoryError::InvalidAddress(address));
            },
        };
        if offset + len > self.ram.len() {
            return Err(MemoryError::OutOfBounds(address));
        }
        Ok(self.read_span(Region::Ram, offset, len))
    }

    /// Writes `data` into main RAM.
    pub fn write_bytes(&mut self, address: u32, data: &[u8]) -> (r: Result<(), MemoryError>)
        requires
            old(self).wf(),
            ram_offset(address) matches Some(off) ==> off + data@.len() <= usize::MAX,
        ensures
            final(self).wf(),
            match ram_write_outcome(old(self)@, address, data@) {
                Ok(s) => r is Ok && final(self)@ == s,
                Err(e) => r == Err::<(), MemoryError>(e) && final(self)@ == old(self)@,
            },
    {
        let offset = match self.translate_address(address) {
            Some(o) => o,
            None => {
                return Err(MemoryError::InvalidAddress(address));
            },
        };
        if offset + data.len() > self.ram.len() {
            return Err(MemoryError::OutOfBounds(address));
        }
        self.write_span(Region::Ram, offset, data);
        Ok(())
    }

    /// Loads a section image into main RAM (the same as `write_bytes`).
    pub fn load_section(&mut self, address: u32, data: &[u8]) -> (r: Result<(), MemoryError>)
        requires
            old(self).wf(),
            ram_offset(address) matches Some(off) ==> off + data@.len() <= usize::MAX,
        ensures
            final(self).wf(),
            match ram_write_outcome(old(self)@, address, data@) {
                Ok(s) => r is Ok && final(self)@ == s,
                Err(e) => r == Err::<(), MemoryError>(e) && final(self)@ == old(self)@,
            },
    {
        self.write_bytes(address, data)
    }

    /// Copies `len` bytes of main RAM from `src` to `dest`; overlapping ranges
    /// behave as if the source were copied out first.
    pub fn bulk_copy(&mut self, dest: u32, src: u32, len: usize) -> (r: Result<(), MemoryError>)
        requires
            old(self).wf(),
            ram_offset(dest) matches Some(off) ==> off + len <= usize::MAX,
            ram_offset(src) matches Some(off) ==> off + len <= usize::MAX,
        ensures
            final(self).wf(),
            match bulk_copy_outcome(old(self)@, dest, src, len as nat) {
                Ok(s) => r is Ok && final(self)@ == s,
                Err(e) => r == Err::<(), MemoryError>(e) && final(self)@ == old(self)@,
            },
    {
        let dest_offset = match self.translate_address(dest) {
            Some(o) => o,
            None => {
                return Err(MemoryError::InvalidDestination(dest));
            },
        };
        let src_offset = match self.translate_address(src) {
            Some(o) => o,
            None => {
                return Err(MemoryError::InvalidSource(src));
            },
        };
        if dest_offset + len > self.ram.len() || src_offset + len > self.ram.len() {
            return Err(MemoryError::BulkCopyOutOfBounds);
        }
        let temp = self.read_span(Region::Ram, src_offset, len);
        self.write_span(Region::Ram, dest_offset, temp.as_slice());
        Ok(())
    }

    /// A view of `len` bytes of main RAM.
    pub fn get_slice(&self, address: u32, len: usize) -> (r: Result<&[u8], MemoryError>)
        requires
            self.wf(),
            ram_offset(address) matches Some(off) ==> off + len <= usize::MAX,
        ensures
            match ram_read_outcome(self@, address, len as nat) {
                Ok(b) => r matches Ok(s) && s@ == b,
                Err(e) => r == Err::<&[u8], MemoryError>(e),
            },
    {
        let offset = match self.translate_address(address) {
            Some(o) => o,
            None => {
                return Err(MemoryError::InvalidAddress(address));
            },
        };
        if offset + len > self.ram.len() {
            return Err(MemoryError::OutOfBounds(address));
        }
        Ok(vstd::slice::slice_subrange(self.ram.as_slice(), offset, offset + len))
    }
}

impl Default for MemoryManager {
    fn default() -> (m: Self)
        ensures
            m.wf(),
            forall|i: int| 0 <= i < RAM_SIZE ==> #[trigger] m@.ram[i] == 0,
            forall|i: int| 0 <= i < IO_SIZE ==> #[trigger] m@.io[i] == 0,
    {
        Self::new()
    }
}

/// Reading back a successful write at the same address, with the same
/// length, returns exactly the bytes written.
pub proof fn law_write_then_read(m: MemoryState, address: u32, data: Seq<u8>)
    requires
        write_outcome(m, address, data) is Ok,
    ensures
        read_outcome(write_outcome(m, address, data).unwrap(), address, data.len()) == Ok::<
            Seq<u8>,
            MemoryError,
        >(data),
{
    let (r, off) = region_of(address).unwrap();
    let m2 = write_outcome(m, address, data).unwrap();
    let b = splice(m.bytes(r), off, data);
    assert(m2.bytes(r) == b) by {
        match r {
            Region::Ram => {},
            Region::Io => {},
        }
    }
    assert(b.subrange(off, off + data.len()) =~= data);
}

/// Big-endian 16-bit encoding and decoding are inverse.
pub proof fn law_u16_roundtrip(v: u16)
    ensures
        be_u16(u16_bytes(v)) == v,
{
    let b = u16_bytes(v);
    assert(b[0] == (v >> 8u16) as u8 && b[1] == v as u8);
    assert((((((v >> 8u16) as u8) as u16) << 8u16) | ((v as u8) as u16)) == v) by (bit_vector);
}

/// Big-endian 32-bit encoding and decoding are inverse.
pub proof fn law_u32_roundtrip(v: u32)
    ensures
        be_u32(u32_bytes(v)) == v,
{
    let b = u32_bytes(v);
    assert(b[0] == (v >> 24u32) as u8 && b[1] == (v >> 16u32) as u8 && b[2] == (v >> 8u32) as u8
        && b[3] == v as u8);
    assert((((((v >> 24u32) as u8) as u32) << 24u32) | ((((v >> 16u32) as u8) as u32) << 16u32)
        | ((((v >> 8u32) as u8) as u32) << 8u32) | ((v as u8) as u32)) == v) by (bit_vector);
}

/// Big-endian 64-bit encoding and decoding are inverse.
pub proof fn law_u64_roundtrip(v: u64)
    ensures
        be_u64(u64_bytes(v)) == v,
{
    let b = u64_bytes(v);
    assert(b[0] == (v >> 56u64) as u8 && b[1] == (v >> 48u64) as u8 && b[2] == (v >> 40u64) as u8
        && b[3] == (v >> 32u64) as u8 && b[4] == (v >> 24u64) as u8 && b[5] == (v >> 16u64) as u8
        && b[6] == (v >> 8u64) as u8 && b[7] == v as u8);
    assert((((((v >> 56u64) as u8) as u64) << 56u64) | ((((v >> 48u64) as u8) as u64) << 48u64)
        | ((((v >> 40u64) as u8) as u64) << 40u64) | ((((v >> 32u64) as u8) as u64) << 32u64)
        | ((((v >> 24u64) as u8) as u64) << 24u64) | ((((v >> 16u64) as u8) as u64) << 16u64)
        | ((((v >> 8u64) as u8) as u64) << 8u64) | ((v as u8) as u64)) == v) by (bit_vector);
}

/// A 32-bit value written successfully reads back unchanged.
pub proof fn law_write_read_u32(m: MemoryState, address: u32, value: u32)
    requires
        write_outcome(m, address, u32_bytes(value)) is Ok,
    ensures
        map_read(
            read_outcome(write_outcome(m, address, u32_bytes(value)).unwrap(), address, 4),
            |b: Seq<u8>| be_u32(b),
        ) == Ok::<u32, MemoryError>(value),
{
    law_write_then_read(m, address, u32_bytes(value));
    law_u32_roundtrip(value);
}

/// A 16-bit value written successfully reads back unchanged.
pub proof fn law_write_read_u16(m: MemoryState, address: u32, value: u16)
    requires
        write_outcome(m, address, u16_bytes(value)) is Ok,
    ensures
        map_read(
            read_outcome(write_outcome(m, address, u16_bytes(value)).unwrap(), address, 2),
            |b: Seq<u8>| be_u16(b),
        ) == Ok::<u16, MemoryError>(value),
{
    law_write_then_read(m, address, u16_bytes(value));
    law_u16_roundtrip(value);
}

/// A 64-bit value written successfully reads back unchanged.
pub proof fn law_write_read_u64(m: MemoryState, address: u32, value: u64)
    requires
        write_outcome(m, address, u64_bytes(value)) is Ok,
    ensures
        map_read(
            read_outcome(write_outcome(m, address, u64_bytes(value)).unwrap(), address, 8),
            |b: Seq<u8>| be_u64(b),
        ) == Ok::<u64, MemoryError>(value),
{
    law_write_then_read(m, address, u64_bytes(value));
    law_u64_roundtrip(value);
}

/// A successful write leaves every read of a disjoint location, or of the
/// other region, unchanged.
pub proof fn law_write_frame(m: MemoryState, a: u32, data: Seq<u8>, b: u32, n: nat)
    requires
        write_outcome(m, a, data) is Ok,
        region_of(b) is Some,
        ({
            let (g, o) = region_of(a).unwrap();
            let (h, p) = region_of(b).unwrap();
            g != h || o + data.len() <= p || p + n <= o
        }),
    ensures
        read_outcome(write_outcome(m, a, data).unwrap(), b, n) == read_outcome(m, b, n),
{
    let (g, o) = region_of(a).unwrap();
    let (h, p) = region_of(b).unwrap();
    let m2 = write_outcome(m, a, data).unwrap();
    let s = splice(m.bytes(g), o, data);
    assert(m2.bytes(g) == s && (h != g ==> m2.bytes(h) == m.bytes(h))) by {
        match g {
            Region::Ram => {},
            Region::Io => {},
        }
    }
    if g == h && p + n <= m.bytes(h).len() {
        assert(s.subrange(p, p + n) =~= m.bytes(h).subrange(p, p + n));
    }
}

/// The uncached RAM mirror at 0xC000_0000 reads the same bytes as the
/// cached address 0x4000_0000 below it.
pub proof fn law_uncached_mirror(m: MemoryState, address: u32, n: nat)
    requires
        0x8000_0000 <= address <= 0x817F_FFFF,
    ensures
        match (read_outcome(m, address, n), read_outcome(m, (address + 0x4000_0000) as u32, n)) {
            (Ok(x), Ok(y)) => x == y,
            (Err(_), Err(_)) => true,
            _ => false,
        },
{
}

/// A write through the uncached mirror has the same effect as a write to
/// the cached address.
pub proof fn law_mirror_write(m: MemoryState, address: u32, data: Seq<u8>)
    requires
        0x8000_0000 <= address <= 0x817F_FFFF,
        write_outcome(m, address, data) is Ok,
    ensures
        write_outcome(m, (address + 0x4000_0000) as u32, data) == write_outcome(m, address, data),
{
}

/// Writing twice at the same place with the same length keeps only the
/// second write.
pub proof fn law_last_write_wins(m: MemoryState, address: u32, d1: Seq<u8>, d2: Seq<u8>)
    requires
        write_outcome(m, address, d1) is Ok,
        d1.len() == d2.len(),
    ensures
        write_outcome(write_outcome(m, address, d1).unwrap(), address, d2) == write_outcome(
            m,
            address,
            d2,
        ),
{
    let (g, o) = region_of(address).unwrap();
    let m1 = write_outcome(m, address, d1).unwrap();
    let b = m.bytes(g);
    assert(m1.bytes(g) == splice(b, o, d1)) by {
        match g {
            Region::Ram => {},
            Region::Io => {},
        }
    }
    assert(splice(splice(b, o, d1), o, d2) =~= splice(b, o, d2));
    assert(m1.with_bytes(g, splice(b, o, d2)) == m.with_bytes(g, splice(b, o, d2))) by {
        match g {
            Region::Ram => {},
            Region::Io => {},
        }
    }
}

/// Two 32-bit writes at `a` and `a + 4` read back as one big-endian 64-bit
/// value: the first word high, the second low.
pub proof fn law_two_words_read_as_u64(m: MemoryState, a: u32, hi: u32, lo: u32)
    requires
        write_outcome(m, a, u32_bytes(hi)) is Ok,
        a <= 0xFFFF_FFFB,
        write_outcome(write_outcome(m, a, u32_bytes(hi)).unwrap(), (a + 4) as u32, u32_bytes(lo)) is Ok,
        region_of((a + 4) as u32) matches Some((g, o)) && region_of(a) matches Some((h, p)) && g == h && o
            == p + 4,
    ensures
        map_read(
            read_outcome(
                write_outcome(write_outcome(m, a, u32_bytes(hi)).unwrap(), (a + 4) as u32, u32_bytes(lo)).unwrap(),
                a,
                8,
            ),
            |b: Seq<u8>| be_u64(b),
        ) == Ok::<u64, MemoryError>(((hi as u64) << 32u64) | (lo as u64)),
{
    let (r, off) = region_of(a).unwrap();
    let m1 = write_outcome(m, a, u32_bytes(hi)).unwrap();
    let m2 = write_outcome(m1, (a + 4) as u32, u32_bytes(lo)).unwrap();
    let b1 = splice(m.bytes(r), off, u32_bytes(hi));
    assert(m1.bytes(r) == b1) by {
        match r {
            Region::Ram => {},
            Region::Io => {},
        }
    }
    let b2 = splice(b1, off + 4, u32_bytes(lo));
    assert(m2.bytes(r) == b2) by {
        match r {
            Region::Ram => {},
            Region::Io => {},
        }
    }
    let w = b2.subrange(off, off + 8);
    assert(w =~= u32_bytes(hi) + u32_bytes(lo));
    assert(read_outcome(m2, a, 8) == Ok::<Seq<u8>, MemoryError>(w));
    let x = ((hi as u64) << 32u64) | (lo as u64);
    assert(w[0] == (hi >> 24u32) as u8 && w[1] == (hi >> 16u32) as u8 && w[2] == (hi >> 8u32) as u8
        && w[3] == hi as u8 && w[4] == (lo >> 24u32) as u8 && w[5] == (lo >> 16u32) as u8 && w[6] == (lo
        >> 8u32) as u8 && w[7] == lo as u8);
    assert(((((hi >> 24u32) as u8) as u64) << 56u64) | ((((hi >> 16u32) as u8) as u64) << 48u64) | ((((hi
        >> 8u32) as u8) as u64) << 40u64) | (((hi as u8) as u64) << 32u64) | ((((lo >> 24u32) as u8) as u64)
        << 24u64) | ((((lo >> 16u32) as u8) as u64) << 16u64) | ((((lo >> 8u32) as u8) as u64) << 8u64) | ((lo
        as u8) as u64) == ((hi as u64) << 32u64) | (lo as u64)) by (bit_vector);
}

/// A byte written to the I/O window reads back through the I/O window and
/// through the plain byte read; every other I/O byte and all of RAM stay.
pub proof fn law_io_u8_write_read(m: MemoryState, address: u32, value: u8, other: u32)
    requires
        io_write_outcome(m, address, seq![value]) is Ok,
        other != address,
        io_offset(other) is Some,
    ensures
        ({
            let m2 = io_write_outcome(m, address, seq![value]).unwrap();
            &&& map_read(io_read_outcome(m2, address, 1), |b: Seq<u8>| b[0]) == Ok::<u8, MemoryError>(value)
            &&& map_read(read_outcome(m2, address, 1), |b: Seq<u8>| b[0]) == Ok::<u8, MemoryError>(value)
            &&& io_read_outcome(m2, other, 1) == io_read_outcome(m, other, 1)
            &&& m2.ram == m.ram
        }),
{
    let off = io_offset(address).unwrap();
    let o2 = io_offset(other).unwrap();
    let m2 = io_write_outcome(m, address, seq![value]).unwrap();
    assert(m2.io.subrange(off, off + 1) =~= seq![value]);
    assert(region_of(address) == Some((Region::Io, off)));
    if o2 + 1 <= m.io.len() {
        assert(m2.io.subrange(o2, o2 + 1) =~= m.io.subrange(o2, o2 + 1));
    }
}

/// A word written to the I/O window reads back, as a word and byte by byte
/// from its high byte; I/O bytes outside it and all of RAM stay.
pub proof fn law_io_u32_write_read(m: MemoryState, address: u32, value: u32, other: u32)
    requires
        m.io.len() == IO_SIZE,
        io_write_outcome(m, address, u32_bytes(value)) is Ok,
        io_offset(other) matches Some(p) && (p < io_offset(address).unwrap() || p >= io_offset(
            address,
        ).unwrap() + 4),
    ensures
        ({
            let m2 = io_write_outcome(m, address, u32_bytes(value)).unwrap();
            &&& map_read(io_read_outcome(m2, address, 4), |b: Seq<u8>| be_u32(b)) == Ok::<u32, MemoryError>(
                value,
            )
            &&& map_read(io_read_outcome(m2, address, 1), |b: Seq<u8>| b[0]) == Ok::<u8, MemoryError>(
                (value >> 24u32) as u8,
            )
            &&& map_read(io_read_outcome(m2, (address + 3) as u32, 1), |b: Seq<u8>| b[0]) == Ok::<
                u8,
                MemoryError,
            >(value as u8)
            &&& io_read_outcome(m2, other, 1) == io_read_outcome(m, other, 1)
            &&& m2.ram == m.ram
        }),
{
    let off = io_offset(address).unwrap();
    let p = io_offset(other).unwrap();
    let m2 = io_write_outcome(m, address, u32_bytes(value)).unwrap();
    assert(m2.io.subrange(off, off + 4) =~= u32_bytes(value));
    law_u32_roundtrip(value);
    assert(m2.io.subrange(off, off + 1) =~= seq![(value >> 24u32) as u8]);
    assert(io_offset((address + 3) as u32) == Some(off + 3));
    assert(m2.io.subrange(off + 3, off + 4) =~= seq![value as u8]);
    if p + 1 <= m.io.len() {
        assert(m2.io.subrange(p, p + 1) =~= m.io.subrange(p, p + 1));
    }
}

/// Bytes written to main RAM read back from main RAM; RAM outside them and
/// the I/O window stay.
pub proof fn law_ram_bytes_write_read(m: MemoryState, address: u32, data: Seq<u8>, other: u32, n: nat)
    requires
        ram_write_outcome(m, address, data) is Ok,
        ram_offset(other) matches Some(p) && (p + n <= ram_offset(address).unwrap() || p >= ram_offset(
            address,
        ).unwrap() + data.len()),
    ensures
        ({
            let m2 = ram_write_outcome(m, address, data).unwrap();
            &&& ram_read_outcome(m2, address, data.len()) == Ok::<Seq<u8>, MemoryError>(data)
            &&& ram_read_outcome(m2, other, n) == ram_read_outcome(m, other, n)
            &&& m2.io == m.io
        }),
{
    let off = ram_offset(address).unwrap();
    let p = ram_offset(other).unwrap();
    let m2 = ram_write_outcome(m, address, data).unwrap();
    assert(m2.ram.subrange(off, off + data.len()) =~= data);
    if p + n <= m.ram.len() {
        assert(m2.ram.subrange(p, p + n) =~= m.ram.subrange(p, p + n));
    }
}

/// A write of `data` to main RAM succeeds exactly when the address is in
/// main RAM (or its uncached mirror) and the bytes fit before its end. Then
/// reading as many bytes back at that address gives `data`, every RAM byte
/// outside the written span keeps its value, and the I/O window is untouched.
pub proof fn law_ram_bytes_round_trip(m: MemoryState, address: u32, data: Seq<u8>)
    requires
        m.ram.len() == RAM_SIZE,
    ensures
        (ram_write_outcome(m, address, data) is Ok) <==> (ram_offset(address) matches Some(off)
            && off + data.len() <= RAM_SIZE),
        ram_write_outcome(m, address, data) matches Ok(m2) ==> {
            let off = ram_offset(address).unwrap();
            &&& ram_read_outcome(m2, address, data.len()) == Ok::<Seq<u8>, MemoryError>(data)
            &&& m2.ram.len() == m.ram.len()
            &&& forall|i: int|
                0 <= i < m.ram.len() && !(off <= i < off + data.len()) ==> #[trigger] m2.ram[i]
                    == m.ram[i]
            &&& m2.io == m.io
        },
{
    if let Ok(m2) = ram_write_outcome(m, address, data) {
        let off = ram_offset(address).unwrap();
        assert(m2.ram.subrange(off, off + data.len()) =~= data);
        assert forall|i: int|
            0 <= i < m.ram.len() && !(off <= i < off + data.len()) implies #[trigger] m2.ram[i]
                == m.ram[i] by {
            if i < off {
                assert(m2.ram[i] == m.ram.subrange(0, off)[i]);
            } else {
                assert(m2.ram[i] == m.ram.subrange(off + data.len(), m.ram.len() as int)[i - off
                    - data.len()]);
            }
        }
    }
}

} // verus!

