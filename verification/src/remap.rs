//! The block/data remap table and the 4-bit data-nibble packing scheme.

use vstd::prelude::*;

verus! {

/// Sentinel entry of the remap table: no legitimate mapping exists for the
/// (block id, data nibble) pair.
pub const REMAP_INVALID: i16 = -1;

/// The 4-bit data value of block index `i`: two nibbles are packed per byte,
/// the even index in the low nibble, the odd index in the high nibble.
pub open spec fn nibble_of(data: Seq<u8>, i: int) -> u8 {
    if i % 2 == 0 {
        data[i / 2] & 0xf
    } else {
        (data[i / 2] >> 4) & 0xf
    }
}

/// Extract the data nibble of block index `i` from the packed array.
pub fn extract_nibble(data: &Vec<u8>, i: usize) -> (nib: u8)
    requires
        i / 2 < data@.len(),
    ensures
        nib == nibble_of(data@, i as int),
        nib < 16,
{
    let byte = data[i / 2];
    let nib = if i % 2 == 0 {
        byte & 0xf
    } else {
        (byte >> 4) & 0xf
    };
    proof {
        assert(byte & 0xf < 16) by (bit_vector);
        assert((byte >> 4) & 0xf < 16) by (bit_vector);
    }
    nib
}

/// A total lookup table from (old block id, data nibble) to a new 16-bit
/// block id, flattened row by row: the entry for block `b` and nibble `n`
/// sits at index `b * 16 + n`. Entries equal to `REMAP_INVALID` mark pairs
/// with no legitimate mapping.
pub struct RemapTable {
    pub entries: Vec<i16>,
}

impl RemapTable {
    /// The table covers all 256 block ids times 16 nibbles.
    pub open spec fn wf(&self) -> bool {
        self.entries@.len() == 4096
    }

    /// Build a table from its 4096 flattened entries; any other length is
    /// rejected.
    pub fn new(entries: Vec<i16>) -> (r: Option<RemapTable>)
        ensures
            match r {
                Some(t) => entries@.len() == 4096 && t.entries@ == entries@ && t.wf(),
                None => entries@.len() != 4096,
            },
    {
        if entries.len() == 4096 {
            Some(RemapTable { entries })
        } else {
            None
        }
    }

    /// The raw table entry for the pair, `REMAP_INVALID` included.
    pub fn lookup(&self, block: u8, nibble: u8) -> (r: i16)
        requires
            self.wf(),
            nibble < 16,
        ensures
            r == self.entries@[block as int * 16 + nibble as int],
    {
        self.entries[(block as usize) * 16 + (nibble as usize)]
    }
}

/// The value an output entry takes for the pair: the table entry, with the
/// invalid sentinel degraded to zero.
pub open spec fn remap_entry(table: Seq<i16>, block: u8, nibble: u8) -> i16 {
    let raw = table[block as int * 16 + nibble as int];
    if raw == REMAP_INVALID {
        0
    } else {
        raw
    }
}

} // verus!
