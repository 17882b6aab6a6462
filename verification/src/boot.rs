use vstd::prelude::*;

use crate::endian::{le16, le32, read_le_u16, read_le_u32};
use crate::text::decode_text;
use vstd::utf8::{decode_utf8, valid_utf8};

verus! {

broadcast use vstd::array::group_array_axioms;

/// The BIOS parameter block of a FAT boot sector, read from a 512-byte
/// buffer at fixed byte offsets.
///
/// `jmp` keeps the three boot-jump bytes in reversed order, as the record
/// of the image at hand lays them out. `oem`, `volume_label` and `fs_type`
/// are raw byte captures; [`BootSector::oem_text`] renders the OEM field as
/// text when its bytes allow it, so that an arbitrary buffer still decodes.
#[derive(Debug, PartialEq)]
pub struct BootSector {
    pub jmp: [u8; 3],
    pub oem: [u8; 8],
    pub sector_size: u16,
    pub sectors_per_cluster: u8,
    pub reserved_sectors: u16,
    pub number_of_fats: u8,
    pub root_dir_entries: u16,
    pub total_sectors_short: u16,
    pub media_descriptor: u8,
    pub fat_size_sectors: u16,
    pub sectors_per_track: u16,
    pub number_of_heads: u16,
    pub hidden_sectors: u32,
    pub total_sectors_long: u32,
    pub drive_number: u8,
    pub current_head: u8,
    pub boot_signature: u8,
    pub volume_id: u32,
    pub volume_label: [u8; 11],
    pub fs_type: [u8; 8],
    pub boot_sector_signature: u16,
}

/// `b` holds exactly the fields that the 512-byte boot sector `s` stores.
pub open spec fn boot_sector_decoded(s: Seq<u8>, b: BootSector) -> bool
    recommends
        s.len() == 512,
{
    &&& b.jmp@ == seq![s[2], s[1], s[0]]
    &&& b.oem@ == s.subrange(3, 11)
    &&& b.sector_size == le16(s, 11)
    &&& b.sectors_per_cluster == s[13]
    &&& b.reserved_sectors == le16(s, 14)
    &&& b.number_of_fats == s[16]
    &&& b.root_dir_entries == le16(s, 17)
    &&& b.total_sectors_short == le16(s, 19)
    &&& b.media_descriptor == s[21]
    &&& b.fat_size_sectors == le16(s, 22)
    &&& b.sectors_per_track == le16(s, 24)
    &&& b.number_of_heads == le16(s, 26)
    &&& b.hidden_sectors == le32(s, 28)
    &&& b.total_sectors_long == le32(s, 32)
    &&& b.drive_number == s[36]
    &&& b.current_head == s[37]
    &&& b.boot_signature == s[38]
    &&& b.volume_id == le32(s, 39)
    &&& b.volume_label@ == s.subrange(43, 54)
    &&& b.fs_type@ == s.subrange(54, 62)
    &&& b.boot_sector_signature == le16(s, 510)
}

impl BootSector {
    /// Decode a 512-byte FAT boot sector. Total: every 512-byte buffer
    /// decodes, each field from its fixed offset, and the trailing
    /// signature always from the absolute offsets 510 and 511. Nothing is
    /// validated; this is a descriptive decode.
    pub fn new(data: &[u8]) -> (r: BootSector)
        requires
            data@.len() == 512,
        ensures
            boot_sector_decoded(data@, r),
    {
        let r = BootSector {
            jmp: [data[2], data[1], data[0]],
            oem: [data[3], data[4], data[5], data[6], data[7], data[8], data[9], data[10]],
            sector_size: read_le_u16(data, 11),
            sectors_per_cluster: data[13],
            reserved_sectors: read_le_u16(data, 14),
            number_of_fats: data[16],
            root_dir_entries: read_le_u16(data, 17),
            total_sectors_short: read_le_u16(data, 19),
            media_descriptor: data[21],
            fat_size_sectors: read_le_u16(data, 22),
            sectors_per_track: read_le_u16(data, 24),
            number_of_heads: read_le_u16(data, 26),
            hidden_sectors: read_le_u32(data, 28),
            total_sectors_long: read_le_u32(data, 32),
            drive_number: data[36],
            current_head: data[37],
            boot_signature: data[38],
            volume_id: read_le_u32(data, 39),
            volume_label: [
                data[43],
                data[44],
                data[45],
                data[46],
                data[47],
                data[48],
                data[49],
                data[50],
                data[51],
                data[52],
                data[53],
            ],
            fs_type: [data[54], data[55], data[56], data[57], data[58], data[59], data[60], data[61]],
            boot_sector_signature: read_le_u16(data, 510),
        };
        proof {
            assert(r.jmp@ =~= seq![data@[2], data@[1], data@[0]]);
            assert(r.oem@ =~= data@.subrange(3, 11));
            assert(r.volume_label@ =~= data@.subrange(43, 54));
            assert(r.fs_type@ =~= data@.subrange(54, 62));
        }
        r
    }

    /// The OEM name field rendered as text: the string of its eight bytes
    /// when they are valid UTF-8, and nothing otherwise.
    pub fn oem_text(&self) -> (r: Option<String>)
        ensures
            r is Some <==> valid_utf8(self.oem@),
            r matches Some(t) ==> t@ == decode_utf8(self.oem@),
    {
        decode_text(vstd::array::array_as_slice(&self.oem))
    }
}

/// Decoding is a function of the bytes alone: two records decoded from the
/// same boot sector agree in every field.
pub proof fn lemma_boot_sector_decode_deterministic(s: Seq<u8>, a: BootSector, b: BootSector)
    requires
        boot_sector_decoded(s, a),
        boot_sector_decoded(s, b),
    ensures
        a == b,
{
    assert(a.jmp =~= b.jmp);
    assert(a.oem =~= b.oem);
    assert(a.volume_label =~= b.volume_label);
    assert(a.fs_type =~= b.fs_type);
}

} // verus!
