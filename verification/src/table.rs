//! The register table: one word for each register, held at the index of its address.
//!
//! The map of the LMX2594 runs from R0 to R112. Registers without named
//! fields are programmed as the map shows them. R107 to R112 are for readback
//! and R79 to R106 matter only where the ramping function is used; the map
//! holds them all the same, and the bring-up writes every word of it.

use vstd::prelude::*;
use crate::register::{address_field, RegisterWord, WORD_LIMIT};

verus! {

/// The register map for the target output frequency, one word for each
/// register from R0 up to R112, as the vendor's tool exports it.
pub const REG_MAP: [u32; 113] = [
    0x00241c, 0x010808, 0x020500, 0x030642, 0x040a43, 0x0500c8,
    0x06c802, 0x0740b2, 0x082000, 0x090604, 0x0a10d8, 0x0b0018,
    0x0c5001, 0x0d4000, 0x0e1e70, 0x0f064f, 0x100080, 0x110118,
    0x120064, 0x1327b7, 0x14d848, 0x150401, 0x160001, 0x17007c,
    0x18071a, 0x190c2b, 0x1a0db0, 0x1b0002, 0x1c0488, 0x1d318c,
    0x1e318c, 0x1f43ec, 0x200393, 0x211e21, 0x220000, 0x230004,
    0x240800, 0x250304, 0x260000, 0x270001, 0x280000, 0x290000,
    0x2a0000, 0x2b0000, 0x2c1fa3, 0x2dc0df, 0x2e07fc, 0x2f0300,
    0x300300, 0x314180, 0x320000, 0x330080, 0x340820, 0x350000,
    0x360000, 0x370000, 0x380000, 0x390020, 0x3a8001, 0x3b0001,
    0x3c0000, 0x3d00a8, 0x3e0322, 0x3f0000, 0x401388, 0x410000,
    0x4201f4, 0x430000, 0x4403e8, 0x450000, 0x46c350, 0x470081,
    0x480001, 0x49003f, 0x4a0000, 0x4b0b80, 0x4c000c, 0x4d0000,
    0x4e00c3, 0x4f0000, 0x500000, 0x510000, 0x520000, 0x530000,
    0x540000, 0x550000, 0x560000, 0x570000, 0x580000, 0x590000,
    0x5a0000, 0x5b0000, 0x5c0000, 0x5d0000, 0x5e0000, 0x5f0000,
    0x600000, 0x610888, 0x620000, 0x630000, 0x640000, 0x650011,
    0x660000, 0x670000, 0x680000, 0x690021, 0x6a0000, 0x6b0000,
    0x6c0000, 0x6d0000, 0x6e0000, 0x6f0000, 0x700000,
];

/// The word at index `i` is a write word whose address field holds `i`.
pub open spec fn in_place(words: Seq<u32>, i: int) -> bool {
    words[i] < WORD_LIMIT && address_field(words[i]) == i
}

/// A table is in order when each of its words is a write word for the
/// register of its own index.
pub open spec fn table_in_order(words: Seq<u32>) -> bool {
    forall|i: int| 0 <= i < words.len() ==> in_place(words, i)
}

/// An immutable register table whose words stand in the order of their addresses.
#[derive(Clone, Copy, Debug)]
pub struct RegisterTable<'a> {
    words: &'a [u32],
}

impl<'a> View for RegisterTable<'a> {
    type V = Seq<u32>;

    /// The words of the table, from register 0 upwards.
    closed spec fn view(&self) -> Seq<u32> {
        self.words@
    }
}

impl<'a> RegisterTable<'a> {
    #[verifier::type_invariant]
    pub open spec fn inv(self) -> bool {
        table_in_order(self@)
    }

    /// The table over `words`, where they are in order.
    pub fn new(words: &'a [u32]) -> (table: Option<RegisterTable<'a>>)
        ensures
            table is Some <==> table_in_order(words@),
            table matches Some(t) ==> t@ == words@,
    {
        let mut i: usize = 0;
        while i < words.len()
            invariant
                i <= words.len(),
                forall|j: int| 0 <= j < i ==> in_place(words@, j),
            decreases words.len() - i,
        {
            let word: u32 = words[i];
            assert(word < 0x80_0000 ==> word >> 16 == (word / 0x1_0000) % 0x80) by (bit_vector);
            if word >= WORD_LIMIT || (word >> 16) as usize != i {
                assert(!in_place(words@, i as int));
                return None;
            }
            i += 1;
        }
        Some(RegisterTable { words })
    }

    /// The register map of the LMX2594 for the target output frequency.
    pub fn lmx2594() -> (table: RegisterTable<'static>)
        ensures
            table@ == REG_MAP@,
    {
        proof {
            lemma_reg_map_in_order();
        }
        RegisterTable { words: &REG_MAP }
    }

    /// The number of registers in the table, at most 128.
    pub fn len(&self) -> (n: usize)
        ensures
            n == self@.len(),
            n <= 0x80,
    {
        proof {
            use_type_invariant(self);
            lemma_in_order_is_short(self@);
        }
        self.words.len()
    }

    /// The word for the register at `address`, where the table has one.
    pub fn get(&self, address: u8) -> (word: Option<RegisterWord>)
        ensures
            word is Some <==> address < self@.len(),
            word matches Some(w) ==> w@ == self@[address as int] && w.spec_address() == address,
    {
        proof {
            use_type_invariant(self);
        }
        if (address as usize) < self.words.len() {
            assert(in_place(self@, address as int));
            RegisterWord::from_raw(self.words[address as usize])
        } else {
            None
        }
    }
}

/// A table in order has room for 128 registers at most: the address field is 7 bits wide.
pub proof fn lemma_in_order_is_short(words: Seq<u32>)
    requires
        table_in_order(words),
    ensures
        words.len() <= 0x80,
{
    if words.len() > 0x80 {
        assert(in_place(words, 0x80));
    }
}

/// In a table in order, the address field of the word at index `i` holds `i`.
pub proof fn lemma_table_addresses(table: RegisterTable, i: int)
    requires
        table.inv(),
        0 <= i < table@.len(),
    ensures
        table@[i] < WORD_LIMIT,
        address_field(table@[i]) == i,
{
    assert(in_place(table@, i));
}

/// The register map of the LMX2594 is in order: R0 to R112, each at its own index.
pub proof fn lemma_reg_map_in_order()
    ensures
        REG_MAP@.len() == 113,
        table_in_order(REG_MAP@),
{
}

} // verus!
