use vstd::prelude::*;

use crate::endian::{le32, read_le_u32};

verus! {

broadcast use vstd::array::group_array_axioms;

/// One 16-byte slot of the MBR partition table.
///
/// The CHS triples keep the byte order of the image; `start_sector` and
/// `length_sectors` are little-endian 32-bit fields.
#[derive(Debug, PartialEq)]
pub struct PartitionEntry {
    pub first_byte: u8,
    pub start_chs: [u8; 3],
    pub partition_type: u8,
    pub end_chs: [u8; 3],
    pub start_sector: u32,
    pub length_sectors: u32,
}

/// `e` holds exactly the fields that the 16-byte slot `s` stores.
pub open spec fn partition_entry_decoded(s: Seq<u8>, e: PartitionEntry) -> bool
    recommends
        s.len() == 16,
{
    &&& e.first_byte == s[0]
    &&& e.start_chs@ == seq![s[1], s[2], s[3]]
    &&& e.partition_type == s[4]
    &&& e.end_chs@ == seq![s[5], s[6], s[7]]
    &&& e.start_sector == le32(s, 8)
    &&& e.length_sectors == le32(s, 12)
}

impl PartitionEntry {
    /// Decode a 16-byte MBR partition table slot. Total: every 16-byte
    /// buffer decodes, and each field comes from its fixed offset.
    pub fn new(data: &[u8]) -> (r: PartitionEntry)
        requires
            data@.len() == 16,
        ensures
            partition_entry_decoded(data@, r),
    {
        let r = PartitionEntry {
            first_byte: data[0],
            start_chs: [data[1], data[2], data[3]],
            partition_type: data[4],
            end_chs: [data[5], data[6], data[7]],
            start_sector: read_le_u32(data, 8),
            length_sectors: read_le_u32(data, 12),
        };
        proof {
            assert(r.start_chs@ =~= seq![data@[1], data@[2], data@[3]]);
            assert(r.end_chs@ =~= seq![data@[5], data@[6], data@[7]]);
        }
        r
    }
}

/// Decoding is a function of the bytes alone: two records decoded from the
/// same slot agree in every field.
pub proof fn lemma_partition_entry_decode_deterministic(
    s: Seq<u8>,
    a: PartitionEntry,
    b: PartitionEntry,
)
    requires
        partition_entry_decoded(s, a),
        partition_entry_decoded(s, b),
    ensures
        a == b,
{
    assert(a.start_chs =~= b.start_chs);
    assert(a.end_chs =~= b.end_chs);
}

} // verus!
