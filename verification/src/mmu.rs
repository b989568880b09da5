use vstd::prelude::*;
use std::collections::HashMap;
use crate::fault::{Fault, MemWidth};
use crate::xlen::wrap_add;

verus! {

broadcast use vstd::std_specs::hash::group_hash_axioms;

/// Record of one primitive RAM access: address, width, direction and the
/// value moved. One is produced by every primitive load or store.
#[derive(Clone, Copy, PartialEq, Eq, Structural, Debug)]
pub struct RamAccess {
    pub address: u64,
    pub width: MemWidth,
    pub is_store: bool,
    pub value: u64,
}

/// The byte stored at `a`, with unwritten memory reading as zero.
pub open spec fn byte_at(m: Map<u64, u8>, a: u64) -> u8 {
    if m.contains_key(a) {
        m[a]
    } else {
        0u8
    }
}

/// The little-endian half-word starting at `a`.
#[verifier::opaque]
pub open spec fn half_at(m: Map<u64, u8>, a: u64) -> u16 {
    (byte_at(m, a) as u16) | ((byte_at(m, wrap_add(a, 1)) as u16) << 8)
}

/// The little-endian word starting at `a`.
#[verifier::opaque]
pub open spec fn word_at(m: Map<u64, u8>, a: u64) -> u32 {
    (byte_at(m, a) as u32) | ((byte_at(m, wrap_add(a, 1)) as u32) << 8)
        | ((byte_at(m, wrap_add(a, 2)) as u32) << 16) | ((byte_at(m, wrap_add(a, 3)) as u32) << 24)
}

/// The little-endian double word starting at `a`.
#[verifier::opaque]
pub open spec fn dword_at(m: Map<u64, u8>, a: u64) -> u64 {
    (byte_at(m, a) as u64) | ((byte_at(m, wrap_add(a, 1)) as u64) << 8)
        | ((byte_at(m, wrap_add(a, 2)) as u64) << 16) | ((byte_at(m, wrap_add(a, 3)) as u64) << 24)
        | ((byte_at(m, wrap_add(a, 4)) as u64) << 32) | ((byte_at(m, wrap_add(a, 5)) as u64) << 40)
        | ((byte_at(m, wrap_add(a, 6)) as u64) << 48) | ((byte_at(m, wrap_add(a, 7)) as u64) << 56)
}

/// Memory after a byte store at `a`.
pub open spec fn store_byte_spec(m: Map<u64, u8>, a: u64, v: u8) -> Map<u64, u8> {
    m.insert(a, v)
}

/// Memory after a little-endian half-word store at `a`.
pub open spec fn store_half_spec(m: Map<u64, u8>, a: u64, v: u16) -> Map<u64, u8> {
    m.insert(a, (v & 0xFF) as u8).insert(wrap_add(a, 1), ((v >> 8) & 0xFF) as u8)
}

/// Memory after a little-endian word store at `a`.
pub open spec fn store_word_spec(m: Map<u64, u8>, a: u64, v: u32) -> Map<u64, u8> {
    m.insert(a, (v & 0xFF) as u8).insert(wrap_add(a, 1), ((v >> 8) & 0xFF) as u8).insert(
        wrap_add(a, 2),
        ((v >> 16) & 0xFF) as u8,
    ).insert(wrap_add(a, 3), ((v >> 24) & 0xFF) as u8)
}

/// Memory after a little-endian double-word store at `a`.
pub open spec fn store_dword_spec(m: Map<u64, u8>, a: u64, v: u64) -> Map<u64, u8> {
    m.insert(a, (v & 0xFF) as u8).insert(wrap_add(a, 1), ((v >> 8) & 0xFF) as u8).insert(
        wrap_add(a, 2),
        ((v >> 16) & 0xFF) as u8,
    ).insert(wrap_add(a, 3), ((v >> 24) & 0xFF) as u8).insert(
        wrap_add(a, 4),
        ((v >> 32) & 0xFF) as u8,
    ).insert(wrap_add(a, 5), ((v >> 40) & 0xFF) as u8).insert(
        wrap_add(a, 6),
        ((v >> 48) & 0xFF) as u8,
    ).insert(wrap_add(a, 7), ((v >> 56) & 0xFF) as u8)
}

/// The memory management unit: a sparse byte-addressable memory. It is the
/// only component that may fault on alignment, and it enforces natural
/// alignment for primitive accesses only.
pub struct Mmu {
    ram: HashMap<u64, u8>,
}

impl Mmu {
    /// The memory contents, as a partial map from address to byte; an absent
    /// address reads as zero.
    pub closed spec fn mem(self) -> Map<u64, u8> {
        self.ram@
    }

    /// A fresh, all-zero memory.
    pub fn new() -> (m: Mmu)
        ensures
            m.mem() == Map::<u64, u8>::empty(),
    {
        Mmu { ram: HashMap::new() }
    }

    fn get_byte(&self, address: u64) -> (b: u8)
        ensures
            b == byte_at(self.mem(), address),
    {
        match self.ram.get(&address) {
            Some(b) => *b,
            None => 0u8,
        }
    }

    fn set_byte(&mut self, address: u64, value: u8)
        ensures
            final(self).mem() == old(self).mem().insert(address, value),
    {
        self.ram.insert(address, value);
    }

    /// Load one byte. Byte accesses are always aligned, so no fault path.
    pub fn load_byte(&self, address: u64) -> (r: (u8, RamAccess))
        ensures
            r.0 == byte_at(self.mem(), address),
            r.1 == (RamAccess {
                address,
                width: MemWidth::Byte,
                is_store: false,
                value: byte_at(self.mem(), address) as u64,
            }),
    {
        let b = self.get_byte(address);
        (b, RamAccess { address, width: MemWidth::Byte, is_store: false, value: b as u64 })
    }

    /// Load an aligned half-word; faults iff `address` is not 2-byte aligned.
    pub fn load_halfword(&self, address: u64) -> (r: Result<(u16, RamAccess), Fault>)
        ensures
            address % 2 == 0 ==> r == Ok::<(u16, RamAccess), Fault>(
                (
                    half_at(self.mem(), address),
                    RamAccess {
                        address,
                        width: MemWidth::Half,
                        is_store: false,
                        value: half_at(self.mem(), address) as u64,
                    },
                ),
            ),
            address % 2 != 0 ==> r == Err::<(u16, RamAccess), Fault>(
                Fault::MmuMisalignment { target: address, width: MemWidth::Half },
            ),
    {
        proof {
            reveal(half_at);
        }
        if address % 2 != 0 {
            return Err(Fault::MmuMisalignment { target: address, width: MemWidth::Half });
        }
        proof {
            assert(address % 2 == 0 ==> address + 1 <= u64::MAX && wrap_add(address, 1) == address
                + 1) by (bit_vector);
        }
        let b0 = self.get_byte(address);
        let b1 = self.get_byte(address + 1);
        let v = (b0 as u16) | ((b1 as u16) << 8);
        Ok((v, RamAccess { address, width: MemWidth::Half, is_store: false, value: v as u64 }))
    }

    /// Load an aligned word; faults iff `address` is not 4-byte aligned.
    pub fn load_word(&self, address: u64) -> (r: Result<(u32, RamAccess), Fault>)
        ensures
            address % 4 == 0 ==> r == Ok::<(u32, RamAccess), Fault>(
                (
                    word_at(self.mem(), address),
                    RamAccess {
                        address,
                        width: MemWidth::Word,
                        is_store: false,
                        value: word_at(self.mem(), address) as u64,
                    },
                ),
            ),
            address % 4 != 0 ==> r == Err::<(u32, RamAccess), Fault>(
                Fault::MmuMisalignment { target: address, width: MemWidth::Word },
            ),
    {
        proof {
            reveal(word_at);
        }
        if address % 4 != 0 {
            return Err(Fault::MmuMisalignment { target: address, width: MemWidth::Word });
        }
        proof {
            assert(address % 4 == 0 ==> address + 3 <= u64::MAX && wrap_add(address, 1) == address
                + 1 && wrap_add(address, 2) == address + 2 && wrap_add(address, 3) == address + 3)
                by (bit_vector);
        }
        let b0 = self.get_byte(address);
        let b1 = self.get_byte(address + 1);
        let b2 = self.get_byte(address + 2);
        let b3 = self.get_byte(address + 3);
        let v = (b0 as u32) | ((b1 as u32) << 8) | ((b2 as u32) << 16) | ((b3 as u32) << 24);
        Ok((v, RamAccess { address, width: MemWidth::Word, is_store: false, value: v as u64 }))
    }

    /// Load an aligned double word; faults iff `address` is not 8-byte
    /// aligned.
    pub fn load_doubleword(&self, address: u64) -> (r: Result<(u64, RamAccess), Fault>)
        ensures
            address % 8 == 0 ==> r == Ok::<(u64, RamAccess), Fault>(
                (
                    dword_at(self.mem(), address),
                    RamAccess {
                        address,
                        width: MemWidth::Double,
                        is_store: false,
                        value: dword_at(self.mem(), address),
                    },
                ),
            ),
            address % 8 != 0 ==> r == Err::<(u64, RamAccess), Fault>(
                Fault::MmuMisalignment { target: address, width: MemWidth::Double },
            ),
    {
        proof {
            reveal(dword_at);
        }
        if address % 8 != 0 {
            return Err(Fault::MmuMisalignment { target: address, width: MemWidth::Double });
        }
        proof {
            assert(address % 8 == 0 ==> address + 7 <= u64::MAX && wrap_add(address, 1) == address
                + 1 && wrap_add(address, 2) == address + 2 && wrap_add(address, 3) == address + 3
                && wrap_add(address, 4) == address + 4 && wrap_add(address, 5) == address + 5
                && wrap_add(address, 6) == address + 6 && wrap_add(address, 7) == address + 7)
                by (bit_vector);
        }
        let b0 = self.get_byte(address);
        let b1 = self.get_byte(address + 1);
        let b2 = self.get_byte(address + 2);
        let b3 = self.get_byte(address + 3);
        let b4 = self.get_byte(address + 4);
        let b5 = self.get_byte(address + 5);
        let b6 = self.get_byte(address + 6);
        let b7 = self.get_byte(address + 7);
        let v = (b0 as u64) | ((b1 as u64) << 8) | ((b2 as u64) << 16) | ((b3 as u64) << 24) | (
        (b4 as u64) << 32) | ((b5 as u64) << 40) | ((b6 as u64) << 48) | ((b7 as u64) << 56);
        Ok((v, RamAccess { address, width: MemWidth::Double, is_store: false, value: v }))
    }

    /// Store one byte. Byte accesses are always aligned, so no fault path.
    pub fn store_byte(&mut self, address: u64, value: u8) -> (r: RamAccess)
        ensures
            final(self).mem() == store_byte_spec(old(self).mem(), address, value),
            r == (RamAccess {
                address,
                width: MemWidth::Byte,
                is_store: true,
                value: value as u64,
            }),
    {
        self.set_byte(address, value);
        RamAccess { address, width: MemWidth::Byte, is_store: true, value: value as u64 }
    }

    /// Store an aligned half-word; faults iff `address` is not 2-byte
    /// aligned, leaving memory unchanged.
    pub fn store_halfword(&mut self, address: u64, value: u16) -> (r: Result<RamAccess, Fault>)
        ensures
            address % 2 == 0 ==> final(self).mem() == store_half_spec(
                old(self).mem(),
                address,
                value,
            ) && r == Ok::<RamAccess, Fault>(
                RamAccess {
                    address,
                    width: MemWidth::Half,
                    is_store: true,
                    value: value as u64,
                },
            ),
            address % 2 != 0 ==> final(self).mem() == old(self).mem() && r == Err::<
                RamAccess,
                Fault,
            >(Fault::MmuMisalignment { target: address, width: MemWidth::Half }),
    {
        if address % 2 != 0 {
            return Err(Fault::MmuMisalignment { target: address, width: MemWidth::Half });
        }
        proof {
            assert(address % 2 == 0 ==> address + 1 <= u64::MAX && wrap_add(address, 1) == address
                + 1) by (bit_vector);
        }
        self.set_byte(address, (value & 0xFF) as u8);
        self.set_byte(address + 1, ((value >> 8) & 0xFF) as u8);
        Ok(RamAccess { address, width: MemWidth::Half, is_store: true, value: value as u64 })
    }

    /// Store an aligned word; faults iff `address` is not 4-byte aligned,
    /// leaving memory unchanged.
    pub fn store_word(&mut self, address: u64, value: u32) -> (r: Result<RamAccess, Fault>)
        ensures
            address % 4 == 0 ==> final(self).mem() == store_word_spec(
                old(self).mem(),
                address,
                value,
            ) && r == Ok::<RamAccess, Fault>(
                RamAccess {
                    address,
                    width: MemWidth::Word,
                    is_store: true,
                    value: value as u64,
                },
            ),
            address % 4 != 0 ==> final(self).mem() == old(self).mem() && r == Err::<
                RamAccess,
                Fault,
            >(Fault::MmuMisalignment { target: address, width: MemWidth::Word }),
    {
        if address % 4 != 0 {
            return Err(Fault::MmuMisalignment { target: address, width: MemWidth::Word });
        }
        proof {
            assert(address % 4 == 0 ==> address + 3 <= u64::MAX && wrap_add(address, 1) == address
                + 1 && wrap_add(address, 2) == address + 2 && wrap_add(address, 3) == address + 3)
                by (bit_vector);
        }
        self.set_byte(address, (value & 0xFF) as u8);
        self.set_byte(address + 1, ((value >> 8) & 0xFF) as u8);
        self.set_byte(address + 2, ((value >> 16) & 0xFF) as u8);
        self.set_byte(address + 3, ((value >> 24) & 0xFF) as u8);
        Ok(RamAccess { address, width: MemWidth::Word, is_store: true, value: value as u64 })
    }

    /// Store an aligned double word; faults iff `address` is not 8-byte
    /// aligned, leaving memory unchanged.
    pub fn store_doubleword(&mut self, address: u64, value: u64) -> (r: Result<RamAccess, Fault>)
        ensures
            address % 8 == 0 ==> final(self).mem() == store_dword_spec(
                old(self).mem(),
                address,
                value,
            ) && r == Ok::<RamAccess, Fault>(
                RamAccess { address, width: MemWidth::Double, is_store: true, value: value },
            ),
            address % 8 != 0 ==> final(self).mem() == old(self).mem() && r == Err::<
                RamAccess,
                Fault,
            >(Fault::MmuMisalignment { target: address, width: MemWidth::Double }),
    {
        if address % 8 != 0 {
            return Err(Fault::MmuMisalignment { target: address, width: MemWidth::Double });
        }
        proof {
            assert(address % 8 == 0 ==> address + 7 <= u64::MAX && wrap_add(address, 1) == address
                + 1 && wrap_add(address, 2) == address + 2 && wrap_add(address, 3) == address + 3
                && wrap_add(address, 4) == address + 4 && wrap_add(address, 5) == address + 5
                && wrap_add(address, 6) == address + 6 && wrap_add(address, 7) == address + 7)
                by (bit_vector);
        }
        self.set_byte(address, (value & 0xFF) as u8);
        self.set_byte(address + 1, ((value >> 8) & 0xFF) as u8);
        self.set_byte(address + 2, ((value >> 16) & 0xFF) as u8);
        self.set_byte(address + 3, ((value >> 24) & 0xFF) as u8);
        self.set_byte(address + 4, ((value >> 32) & 0xFF) as u8);
        self.set_byte(address + 5, ((value >> 40) & 0xFF) as u8);
        self.set_byte(address + 6, ((value >> 48) & 0xFF) as u8);
        self.set_byte(address + 7, ((value >> 56) & 0xFF) as u8);
        Ok(RamAccess { address, width: MemWidth::Double, is_store: true, value })
    }
}

} // verus!
