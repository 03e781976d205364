//! Descriptors: one hardware-format record per buffer slot.

use vstd::prelude::*;

verus! {

/// The two parties that take turns at a buffer.
#[derive(Clone, Copy, PartialEq, Eq, Debug, Structural)]
pub enum Owner {
    /// The driver may read and write the bound buffer.
    Software,
    /// The DMA engine may read and write the bound buffer.
    Hardware,
}

impl Owner {
    /// The party that is not `self`.
    pub open spec fn spec_other(self) -> Owner {
        match self {
            Owner::Software => Owner::Hardware,
            Owner::Hardware => Owner::Software,
        }
    }

    /// The party that is not `self`.
    #[verifier::when_used_as_spec(spec_other)]
    pub fn other(self) -> (owner: Owner)
        ensures
            owner == self.spec_other(),
    {
        match self {
            Owner::Software => Owner::Hardware,
            Owner::Hardware => Owner::Software,
        }
    }
}

/// Bit of the flag word that is set while the DMA engine owns the slot.
pub const OWN: u32 = 0x8000_0000;

/// Bits of the flag word that carry status and error reports.
pub const STATUS: u32 = 0x7fff_ffff;

/// What a flag word says about who owns the slot.
pub open spec fn owner_of(flags: u32) -> Owner {
    if flags & OWN == OWN {
        Owner::Hardware
    } else {
        Owner::Software
    }
}

/// The flag word `flags` with its ownership bit set for `owner` and its
/// status bits kept.
pub open spec fn with_owner(flags: u32, owner: Owner) -> u32 {
    match owner {
        Owner::Hardware => flags | OWN,
        Owner::Software => flags & STATUS,
    }
}

/// The ownership bit of every flag word reads as exactly one of the two
/// owners, and writing it changes the owner and nothing else.
pub proof fn lemma_ownership_bit(flags: u32, owner: Owner)
    ensures
        (flags & OWN == OWN) != (flags & OWN == 0),
        owner_of(with_owner(flags, owner)) == owner,
        with_owner(flags, owner) & STATUS == flags & STATUS,
        owner_of(flags) == owner ==> with_owner(flags, owner) == flags,
{
    assert((flags & OWN == OWN) != (flags & OWN == 0)) by (bit_vector)
        requires
            OWN == 0x8000_0000u32,
    ;
    assert((flags | OWN) & OWN == OWN && (flags | OWN) & STATUS == flags & STATUS) by (bit_vector)
        requires
            OWN == 0x8000_0000u32,
            STATUS == 0x7fff_ffffu32,
    ;
    assert((flags & STATUS) & OWN != OWN && (flags & STATUS) & STATUS == flags & STATUS)
        by (bit_vector)
        requires
            OWN == 0x8000_0000u32,
            STATUS == 0x7fff_ffffu32,
    ;
    assert(flags & OWN == OWN ==> flags | OWN == flags) by (bit_vector)
        requires
            OWN == 0x8000_0000u32,
    ;
    assert(flags & OWN != OWN ==> flags & STATUS == flags) by (bit_vector)
        requires
            OWN == 0x8000_0000u32,
            STATUS == 0x7fff_ffffu32,
    ;
}

/// One slot's record: where its buffer is, how many of its bytes are
/// valid, and the flag word whose top bit says who owns the slot.
#[derive(Clone, Copy)]
pub struct Descriptor {
    flags: u32,
    buffer: usize,
    len: usize,
}

impl Descriptor {
    /// Who owns the slot.
    pub closed spec fn owner(&self) -> Owner {
        owner_of(self.flags)
    }

    /// The status and error bits.
    pub closed spec fn status(&self) -> u32 {
        self.flags & STATUS
    }

    /// The address of the bound buffer: its position among the ring's buffers.
    pub closed spec fn buffer(&self) -> usize {
        self.buffer
    }

    /// The number of valid bytes in the bound buffer.
    pub closed spec fn len(&self) -> usize {
        self.len
    }

    /// A zeroed descriptor: owned by software, bound to buffer 0, no valid
    /// bytes, no status.
    pub fn new() -> (d: Self)
        ensures
            d.owner() == Owner::Software,
            d.status() == 0,
            d.buffer() == 0,
            d.len() == 0,
    {
        assert(0u32 & OWN != OWN && 0u32 & STATUS == 0) by (bit_vector)
            requires
                OWN == 0x8000_0000u32,
                STATUS == 0x7fff_ffffu32,
        ;
        Descriptor { flags: 0, buffer: 0, len: 0 }
    }

    /// Reads the ownership flag.
    pub fn get_owner(&self) -> (owner: Owner)
        ensures
            owner == self.owner(),
    {
        if self.flags & OWN == OWN {
            Owner::Hardware
        } else {
            Owner::Software
        }
    }

    /// Whether software owns the slot.
    pub fn available(&self) -> (yes: bool)
        ensures
            yes == (self.owner() == Owner::Software),
    {
        self.flags & OWN != OWN
    }

    /// Reads the status and error bits.
    pub fn get_status(&self) -> (status: u32)
        ensures
            status == self.status(),
    {
        self.flags & STATUS
    }

    /// Reads the address of the bound buffer.
    pub fn get_buffer(&self) -> (buffer: usize)
        ensures
            buffer == self.buffer(),
    {
        self.buffer
    }

    /// Reads the number of valid bytes.
    pub fn get_len(&self) -> (len: usize)
        ensures
            len == self.len(),
    {
        self.len
    }

    /// Binds the descriptor to the buffer at `buffer`.
    pub fn set_buffer(&mut self, buffer: usize)
        ensures
            final(self).buffer() == buffer,
            final(self).owner() == old(self).owner(),
            final(self).status() == old(self).status(),
            final(self).len() == old(self).len(),
    {
        self.buffer = buffer;
    }

    /// Records that the first `len` bytes of the bound buffer are valid.
    pub fn set_len(&mut self, len: usize)
        ensures
            final(self).len() == len,
            final(self).owner() == old(self).owner(),
            final(self).status() == old(self).status(),
            final(self).buffer() == old(self).buffer(),
    {
        self.len = len;
    }

    /// Hands the slot to `owner`. This is the one place where a slot
    /// changes hands; the status bits, the binding and the length stay.
    pub fn set_owner(&mut self, owner: Owner)
        ensures
            final(self).owner() == owner,
            final(self).status() == old(self).status(),
            final(self).buffer() == old(self).buffer(),
            final(self).len() == old(self).len(),
            old(self).owner() == owner ==> *final(self) == *old(self),
    {
        proof {
            lemma_ownership_bit(self.flags, owner);
        }
        match owner {
            Owner::Hardware => {
                self.flags = self.flags | OWN;
            },
            Owner::Software => {
                self.flags = self.flags & STATUS;
            },
        }
    }
}

} // verus!
