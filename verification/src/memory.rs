//! Address translation and little-endian memory access.
//!
//! A 32-bit virtual address is mapped to a physical offset by base
//! subtraction within one of two virtual windows; the physical offset then
//! selects one of the two memory regions.  Loads and stores are little
//! endian and fail, rather than wrap or panic, when the access would run
//! past the end of the selected region's backing buffer.

use vstd::prelude::*;

use crate::cpu::{Processor, BFM_BASE, BFM_SIZE, DRM_SIZE, KSEG0_BASE, KSEG0_SIZE, KSEG1_BASE, KSEG1_SIZE};

verus! {

/// The two memory regions: boot/flash and data RAM.
#[derive(Clone, Copy, Debug, PartialEq, Eq, Structural)]
pub enum MemType {
    BFM,
    DRM,
}

/// The two error kinds of the engine: an access that would run past the end
/// of a backing buffer, and an instruction word outside the modeled set.
#[derive(Clone, Copy, Debug, PartialEq, Eq, Structural)]
pub enum Fault {
    OutOfBounds,
    UnknownInstruction,
}

/// Virtual-to-physical translation.  Addresses in either virtual window are
/// translated by base subtraction; every other address is reserved and
/// deliberately aliases to physical offset 0, reproducing the engine's
/// documented fallback for unmapped addresses.
pub open spec fn phys_of(addr: u32) -> u32 {
    if KSEG0_BASE <= addr < KSEG0_BASE + KSEG0_SIZE {
        (addr - KSEG0_BASE) as u32
    } else if KSEG1_BASE <= addr < KSEG1_BASE + KSEG1_SIZE {
        (addr - KSEG1_BASE) as u32
    } else {
        0
    }
}

/// The region selected by a physical offset: the boot region's own address
/// extent selects it; everything else falls into the data region.
pub open spec fn region_of(p: u32) -> MemType {
    if BFM_BASE <= p < BFM_BASE + BFM_SIZE {
        MemType::BFM
    } else {
        MemType::DRM
    }
}

/// The byte offset into the selected region's backing buffer.
pub open spec fn region_off(p: u32) -> u32 {
    if BFM_BASE <= p < BFM_BASE + BFM_SIZE {
        (p - BFM_BASE) as u32
    } else {
        p
    }
}

/// The other region.
pub open spec fn other_region(t: MemType) -> MemType {
    match t {
        MemType::BFM => MemType::DRM,
        MemType::DRM => MemType::BFM,
    }
}

/// The little-endian 32-bit word starting at `off`: the least-significant
/// byte sits at the lowest offset.
pub open spec fn word_at(buf: Seq<u8>, off: int) -> u32
    recommends
        0 <= off,
        off + 4 <= buf.len(),
{
    (buf[off] + buf[off + 1] * 0x100 + buf[off + 2] * 0x10000 + buf[off + 3] * 0x1000000) as u32
}

/// The little-endian 16-bit value starting at `off`, zero-extended.
pub open spec fn half_at(buf: Seq<u8>, off: int) -> u32
    recommends
        0 <= off,
        off + 2 <= buf.len(),
{
    (buf[off] + buf[off + 1] * 0x100) as u32
}

/// The buffer after a little-endian 32-bit store of `v` at `off`.
pub open spec fn store_word(buf: Seq<u8>, off: int, v: u32) -> Seq<u8>
    recommends
        0 <= off,
        off + 4 <= buf.len(),
{
    buf.update(off, (v % 0x100) as u8).update(off + 1, ((v / 0x100) % 0x100) as u8).update(
        off + 2,
        ((v / 0x10000) % 0x100) as u8,
    ).update(off + 3, ((v / 0x1000000) % 0x100) as u8)
}

/// The buffer after a little-endian 16-bit store of the low half of `v`.
pub open spec fn store_half(buf: Seq<u8>, off: int, v: u32) -> Seq<u8>
    recommends
        0 <= off,
        off + 2 <= buf.len(),
{
    buf.update(off, (v % 0x100) as u8).update(off + 1, ((v / 0x100) % 0x100) as u8)
}

impl Processor {
    /// Translate a virtual address to a physical offset.
    pub fn fmt(&self, addr: u32) -> (r: u32)
        ensures
            r == phys_of(addr),
    {
        if KSEG0_BASE <= addr && addr < KSEG0_BASE + KSEG0_SIZE {
            addr - KSEG0_BASE
        } else if KSEG1_BASE <= addr && addr < KSEG1_BASE + KSEG1_SIZE {
            addr - KSEG1_BASE
        } else {
            0
        }
    }

    /// Translate a virtual address to a region and a byte offset into that
    /// region's backing buffer.  Translation itself never fails; an offset
    /// past the buffer end is caught by the load or store that uses it.
    pub fn addr_loc(&self, addr: u32) -> (r: (MemType, u32))
        ensures
            r.0 == region_of(phys_of(addr)),
            r.1 == region_off(phys_of(addr)),
    {
        let phys_addr = self.fmt(addr);
        if BFM_BASE <= phys_addr && phys_addr < BFM_BASE + BFM_SIZE {
            (MemType::BFM, phys_addr - BFM_BASE)
        } else {
            (MemType::DRM, phys_addr)
        }
    }

    /// Little-endian 32-bit load at `addr` (a byte offset into the selected
    /// region).  Returns the word, or fails exactly when the four bytes do
    /// not fit before the buffer end.
    pub fn load32(&self, mem_type: MemType, addr: u32) -> (r: Result<u32, Fault>)
        requires
            self.wf(),
        ensures
            ({
                let buf = self.mem(mem_type);
                if addr + 4 <= buf.len() {
                    r == Ok::<u32, Fault>(word_at(buf, addr as int))
                } else {
                    r == Err::<u32, Fault>(Fault::OutOfBounds)
                }
            }),
    {
        let len: u32 = match mem_type {
            MemType::BFM => BFM_SIZE,
            MemType::DRM => DRM_SIZE,
        };
        if addr > len - 4 {
            return Err(Fault::OutOfBounds);
        }
        let offset: usize = addr as usize;
        match mem_type {
            MemType::BFM => Ok(
                (self.bfm[offset] as u32) + (self.bfm[offset + 1] as u32) * 0x100 + (self.bfm[offset
                    + 2] as u32) * 0x10000 + (self.bfm[offset + 3] as u32) * 0x1000000,
            ),
            MemType::DRM => Ok(
                (self.drm[offset] as u32) + (self.drm[offset + 1] as u32) * 0x100 + (self.drm[offset
                    + 2] as u32) * 0x10000 + (self.drm[offset + 3] as u32) * 0x1000000,
            ),
        }
    }

    /// Little-endian 32-bit store at `addr`.  Fails, leaving the processor
    /// unchanged, exactly when the four bytes do not fit before the buffer
    /// end.
    pub fn store32(&mut self, mem_type: MemType, addr: u32, value: u32) -> (r: Result<(), Fault>)
        requires
            old(self).wf(),
        ensures
            final(self).wf(),
            final(self).pc == old(self).pc,
            final(self).regs@ == old(self).regs@,
            final(self).hi == old(self).hi,
            final(self).lo == old(self).lo,
            ({
                let buf = old(self).mem(mem_type);
                if addr + 4 <= buf.len() {
                    &&& r == Ok::<(), Fault>(())
                    &&& final(self).mem(mem_type) == store_word(buf, addr as int, value)
                    &&& final(self).mem(other_region(mem_type)) == old(self).mem(
                        other_region(mem_type),
                    )
                } else {
                    &&& r == Err::<(), Fault>(Fault::OutOfBounds)
                    &&& final(self).bfm@ == old(self).bfm@
                    &&& final(self).drm@ == old(self).drm@
                }
            }),
    {
        let len: u32 = match mem_type {
            MemType::BFM => BFM_SIZE,
            MemType::DRM => DRM_SIZE,
        };
        if addr > len - 4 {
            return Err(Fault::OutOfBounds);
        }
        let offset: usize = addr as usize;
        let b0: u8 = (value % 0x100) as u8;
        let b1: u8 = ((value / 0x100) % 0x100) as u8;
        let b2: u8 = ((value / 0x10000) % 0x100) as u8;
        let b3: u8 = ((value / 0x1000000) % 0x100) as u8;
        match mem_type {
            MemType::BFM => {
                self.bfm[offset] = b0;
                self.bfm[offset + 1] = b1;
                self.bfm[offset + 2] = b2;
                self.bfm[offset + 3] = b3;
            },
            MemType::DRM => {
                self.drm[offset] = b0;
                self.drm[offset + 1] = b1;
                self.drm[offset + 2] = b2;
                self.drm[offset + 3] = b3;
            },
        }
        Ok(())
    }

    /// Single-byte load at `addr`.
    pub fn load8(&self, mem_type: MemType, addr: u32) -> (r: Result<u8, Fault>)
        requires
            self.wf(),
        ensures
            ({
                let buf = self.mem(mem_type);
                if addr < buf.len() {
                    r == Ok::<u8, Fault>(buf[addr as int])
                } else {
                    r == Err::<u8, Fault>(Fault::OutOfBounds)
                }
            }),
    {
        let len: u32 = match mem_type {
            MemType::BFM => BFM_SIZE,
            MemType::DRM => DRM_SIZE,
        };
        if addr >= len {
            return Err(Fault::OutOfBounds);
        }
        let offset: usize = addr as usize;
        match mem_type {
            MemType::BFM => Ok(self.bfm[offset]),
            MemType::DRM => Ok(self.drm[offset]),
        }
    }

    /// Little-endian 16-bit load at `addr`, zero-extended to 32 bits.
    pub fn load16(&self, mem_type: MemType, addr: u32) -> (r: Result<u32, Fault>)
        requires
            self.wf(),
        ensures
            ({
                let buf = self.mem(mem_type);
                if addr + 2 <= buf.len() {
                    r == Ok::<u32, Fault>(half_at(buf, addr as int))
                } else {
                    r == Err::<u32, Fault>(Fault::OutOfBounds)
                }
            }),
    {
        let len: u32 = match mem_type {
            MemType::BFM => BFM_SIZE,
            MemType::DRM => DRM_SIZE,
        };
        if addr > len - 2 {
            return Err(Fault::OutOfBounds);
        }
        let offset: usize = addr as usize;
        match mem_type {
            MemType::BFM => Ok((self.bfm[offset] as u32) + (self.bfm[offset + 1] as u32) * 0x100),
            MemType::DRM => Ok((self.drm[offset] as u32) + (self.drm[offset + 1] as u32) * 0x100),
        }
    }

    /// Single-byte store of the low 8 bits of `value` at `addr`.
    pub fn store8(&mut self, mem_type: MemType, addr: u32, value: u32) -> (r: Result<(), Fault>)
        requires
            old(self).wf(),
        ensures
            final(self).wf(),
            final(self).pc == old(self).pc,
            final(self).regs@ == old(self).regs@,
            final(self).hi == old(self).hi,
            final(self).lo == old(self).lo,
            ({
                let buf = old(self).mem(mem_type);
                if addr < buf.len() {
                    &&& r == Ok::<(), Fault>(())
                    &&& final(self).mem(mem_type) == buf.update(addr as int, (value % 0x100) as u8)
                    &&& final(self).mem(other_region(mem_type)) == old(self).mem(
                        other_region(mem_type),
                    )
                } else {
                    &&& r == Err::<(), Fault>(Fault::OutOfBounds)
                    &&& final(self).bfm@ == old(self).bfm@
                    &&& final(self).drm@ == old(self).drm@
                }
            }),
    {
        let len: u32 = match mem_type {
            MemType::BFM => BFM_SIZE,
            MemType::DRM => DRM_SIZE,
        };
        if addr >= len {
            return Err(Fault::OutOfBounds);
        }
        let offset: usize = addr as usize;
        let b0: u8 = (value % 0x100) as u8;
        match mem_type {
            MemType::BFM => {
                self.bfm[offset] = b0;
            },
            MemType::DRM => {
                self.drm[offset] = b0;
            },
        }
        Ok(())
    }

    /// Little-endian 16-bit store of the low 16 bits of `value` at `addr`.
    pub fn store16(&mut self, mem_type: MemType, addr: u32, value: u32) -> (r: Result<(), Fault>)
        requires
            old(self).wf(),
        ensures
            final(self).wf(),
            final(self).pc == old(self).pc,
            final(self).regs@ == old(self).regs@,
            final(self).hi == old(self).hi,
            final(self).lo == old(self).lo,
            ({
                let buf = old(self).mem(mem_type);
                if addr + 2 <= buf.len() {
                    &&& r == Ok::<(), Fault>(())
                    &&& final(self).mem(mem_type) == store_half(buf, addr as int, value)
                    &&& final(self).mem(other_region(mem_type)) == old(self).mem(
                        other_region(mem_type),
                    )
                } else {
                    &&& r == Err::<(), Fault>(Fault::OutOfBounds)
                    &&& final(self).bfm@ == old(self).bfm@
                    &&& final(self).drm@ == old(self).drm@
                }
            }),
    {
        let len: u32 = match mem_type {
            MemType::BFM => BFM_SIZE,
            MemType::DRM => DRM_SIZE,
        };
        if addr > len - 2 {
            return Err(Fault::OutOfBounds);
        }
        let offset: usize = addr as usize;
        let b0: u8 = (value % 0x100) as u8;
        let b1: u8 = ((value / 0x100) % 0x100) as u8;
        match mem_type {
            MemType::BFM => {
                self.bfm[offset] = b0;
                self.bfm[offset + 1] = b1;
            },
            MemType::DRM => {
                self.drm[offset] = b0;
                self.drm[offset + 1] = b1;
            },
        }
        Ok(())
    }
}

/// A word stored at an in-bounds offset of either region is exactly the
/// word a load of the same offset reads back, once the store's contract
/// says the region now holds `store_word`.
pub proof fn lemma_sw_lw_roundtrip(pre: Processor, post: Processor, t: MemType, addr: u32, v: u32)
    requires
        addr + 4 <= pre.mem(t).len(),
        post.mem(t) == store_word(pre.mem(t), addr as int, v),
    ensures
        word_at(post.mem(t), addr as int) == v,
{
    lemma_store_load_word(pre.mem(t), addr as int, v);
}

/// A 32-bit store followed by a 32-bit load of the same in-bounds offset
/// returns the stored word, in either memory region.
pub proof fn lemma_store_load_word(buf: Seq<u8>, off: int, v: u32)
    requires
        0 <= off,
        off + 4 <= buf.len(),
    ensures
        word_at(store_word(buf, off, v), off) == v,
{
    let b = store_word(buf, off, v);
    assert(b[off] == (v % 0x100) as u8);
    assert(b[off + 1] == ((v / 0x100) % 0x100) as u8);
    assert(b[off + 2] == ((v / 0x10000) % 0x100) as u8);
    assert(b[off + 3] == ((v / 0x1000000) % 0x100) as u8);
    assert(v % 0x100 + ((v / 0x100) % 0x100) * 0x100 + ((v / 0x10000) % 0x100) * 0x10000 + ((v
        / 0x1000000) % 0x100) * 0x1000000 == v) by (bit_vector);
}

} // verus!
