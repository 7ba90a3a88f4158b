use vstd::prelude::*;

verus! {

/// Bytes taken by one descriptor in the interrupt descriptor table
/// (the packed layout of `IdtEntry`: 2 + 2 + 1 + 1 + 2 + 4 + 4).
pub const IDT_ENTRY_SIZE: usize = 16;

/// The operand of `lidt`: the table's limit (its size in bytes, minus one)
/// and its linear base address.
#[derive(Copy, Clone, Debug)]
pub struct IdtDescriptor {
    pub size: u16,
    pub offset: u64,
}

/// One 64-bit interrupt descriptor.
#[derive(Copy, Clone, Debug)]
pub struct IdtEntry {
    pub offsetl: u16,
    pub selector: u16,
    pub zero: u8,
    pub attribute: u8,
    pub offsetm: u16,
    pub offseth: u32,
    pub zero2: u32,
}

/// The handler address that the processor assembles from the three offset fields.
pub open spec fn descriptor_address(offsetl: u16, offsetm: u16, offseth: u32) -> int {
    offsetl as int + offsetm as int * 0x1_0000 + offseth as int * 0x1_0000_0000
}

/// The limit that `lidt` expects for a table of `n` entries, truncated to 16 bits
/// as the descriptor stores it.
pub open spec fn table_limit(n: nat) -> u16 {
    ((n * IDT_ENTRY_SIZE) - 1) as u16
}

proof fn lemma_split_address(b: u64)
    ensures
        descriptor_address(b as u16, (b >> 16u64) as u16, (b >> 32u64) as u32) == b as int,
{
    assert((b as u16) as int + ((b >> 16u64) as u16) as int * 0x1_0000 + ((b >> 32u64) as u32) as int
        * 0x1_0000_0000 == b as int) by (bit_vector);
}

impl IdtDescriptor {
    /// The descriptor of an empty table: limit 0, base 0.
    pub fn empty() -> (d: IdtDescriptor)
        ensures
            d.size == 0,
            d.offset == 0,
    {
        IdtDescriptor { size: 0, offset: 0 }
    }

    /// Points the descriptor at `slice`, which lies at the linear address `slice_addr`.
    pub fn set_slice(&mut self, slice: &[IdtEntry], slice_addr: u64)
        requires
            1 <= slice@.len(),
            slice@.len() * IDT_ENTRY_SIZE <= usize::MAX,
        ensures
            final(self).size == table_limit(slice@.len()),
            final(self).offset == slice_addr,
    {
        let bytes: usize = slice.len() * IDT_ENTRY_SIZE;
        self.size = (bytes - 1) as u16;
        self.offset = slice_addr;
    }
}

impl IdtEntry {
    /// An entry with every field zero (not present).
    pub fn empty() -> (e: IdtEntry)
        ensures
            e.offsetl == 0 && e.selector == 0 && e.zero == 0 && e.attribute == 0,
            e.offsetm == 0 && e.offseth == 0 && e.zero2 == 0,
    {
        IdtEntry { offsetl: 0, selector: 0, zero: 0, attribute: 0, offsetm: 0, offseth: 0, zero2: 0 }
    }

    /// The handler address this entry points at.
    pub open spec fn handler_address(self) -> int {
        descriptor_address(self.offsetl, self.offsetm, self.offseth)
    }

    /// Sets the type and attribute byte of the entry.
    pub fn set_flags(&mut self, flags: u8)
        ensures
            *final(self) == (IdtEntry { attribute: flags, ..*old(self) }),
    {
        self.attribute = flags;
    }

    /// Points the entry at the handler at `base`, to be entered through the code
    /// segment `selector`.
    pub fn set_offset(&mut self, selector: u16, base: usize)
        ensures
            final(self).selector == selector,
            final(self).offsetl == base as u16,
            final(self).offsetm == (base as u64 >> 16u64) as u16,
            final(self).offseth == (base as u64 >> 32u64) as u32,
            final(self).handler_address() == base as int,
            final(self).zero == old(self).zero,
            final(self).attribute == old(self).attribute,
            final(self).zero2 == old(self).zero2,
    {
        let b: u64 = base as u64;
        self.selector = selector;
        self.offsetl = b as u16;
        self.offsetm = (b >> 16u64) as u16;
        self.offseth = (b >> 32u64) as u32;
        proof {
            lemma_split_address(b);
        }
    }

    /// Points the entry at the handler function whose address is `func_addr`.
    pub fn set_func(&mut self, selector: u16, func_addr: usize)
        ensures
            final(self).selector == selector,
            final(self).offsetl == func_addr as u16,
            final(self).offsetm == (func_addr as u64 >> 16u64) as u16,
            final(self).offseth == (func_addr as u64 >> 32u64) as u32,
            final(self).handler_address() == func_addr as int,
            final(self).zero == old(self).zero,
            final(self).attribute == old(self).attribute,
            final(self).zero2 == old(self).zero2,
    {
        self.set_offset(selector, func_addr);
    }
}

} // verus!
