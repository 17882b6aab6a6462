use vstd::prelude::*;

use crate::endian::{le16, le32, read_le_u16, read_le_u32};
use crate::text::{decode_text, lemma_ascii_bytes_decode};
use vstd::utf8::{decode_utf8, valid_utf8};

verus! {

/// Why a directory slot could not be decoded.
#[derive(Clone, Copy, Debug, PartialEq, Eq, Structural)]
pub enum DecodeError {
    /// A fixed-width byte field that is read as text holds bytes that are
    /// not a valid text encoding.
    InvalidText,
}

/// One 32-byte root-directory entry of a FAT filesystem.
#[derive(Debug, PartialEq)]
pub struct FATEntry {
    pub filename: String,
    pub ext: String,
    pub attributes: u8,
    pub modify_time: u16,
    pub modify_date: u16,
    pub starting_cluster: u16,
    pub file_size: u32,
}

/// `e` holds exactly the fields that the 32-byte directory slot `s`
/// stores, its filename and extension decoded from the raw name bytes.
pub open spec fn fat_entry_decoded(s: Seq<u8>, e: FATEntry) -> bool
    recommends
        s.len() == 32,
{
    &&& valid_utf8(s.subrange(0, 8))
    &&& e.filename@ == decode_utf8(s.subrange(0, 8))
    &&& valid_utf8(s.subrange(8, 11))
    &&& e.ext@ == decode_utf8(s.subrange(8, 11))
    &&& e.attributes == s[11]
    &&& e.modify_time == le16(s, 21)
    &&& e.modify_date == le16(s, 23)
    &&& e.starting_cluster == le16(s, 25)
    &&& e.file_size == le32(s, 27)
}

impl FATEntry {
    /// Decode a 32-byte directory slot. A first byte of zero marks an
    /// unused slot and yields no record; every other first byte decodes
    /// uniformly. The decode fails, with `DecodeError::InvalidText`,
    /// exactly when the slot is in use and its filename or extension bytes
    /// are not valid UTF-8.
    pub fn new(data: &[u8]) -> (r: Result<Option<FATEntry>, DecodeError>)
        requires
            data@.len() == 32,
        ensures
            r matches Ok(None) <==> data@[0] == 0,
            r matches Ok(Some(e)) ==> data@[0] != 0 && fat_entry_decoded(data@, e),
            r is Err <==> data@[0] != 0 && !(valid_utf8(data@.subrange(0, 8)) && valid_utf8(
                data@.subrange(8, 11),
            )),
            r matches Err(err) ==> err == DecodeError::InvalidText,
    {
        if data[0] == 0 {
            return Ok(None);
        }
        let filename = match decode_text(&data[0..8]) {
            Some(s) => s,
            None => {
                return Err(DecodeError::InvalidText);
            },
        };
        let ext = match decode_text(&data[8..11]) {
            Some(s) => s,
            None => {
                return Err(DecodeError::InvalidText);
            },
        };
        Ok(
            Some(
                FATEntry {
                    filename,
                    ext,
                    attributes: data[11],
                    modify_time: read_le_u16(data, 21),
                    modify_date: read_le_u16(data, 23),
                    starting_cluster: read_le_u16(data, 25),
                    file_size: read_le_u32(data, 27),
                },
            ),
        )
    }
}

/// A slot whose name bytes are all ASCII always has decodable text, so a
/// populated slot with ASCII name bytes never fails to decode.
pub proof fn lemma_ascii_name_bytes_valid(s: Seq<u8>)
    requires
        s.len() == 32,
        forall|i: int| 0 <= i < 11 ==> s[i] < 0x80,
    ensures
        valid_utf8(s.subrange(0, 8)),
        valid_utf8(s.subrange(8, 11)),
{
    lemma_ascii_bytes_decode(s.subrange(0, 8));
    lemma_ascii_bytes_decode(s.subrange(8, 11));
}

/// In a record decoded from a slot whose name bytes are all ASCII, the
/// filename and extension are those bytes, character for character.
pub proof fn lemma_ascii_name_fields(s: Seq<u8>, e: FATEntry)
    requires
        s.len() == 32,
        forall|i: int| 0 <= i < 11 ==> s[i] < 0x80,
        fat_entry_decoded(s, e),
    ensures
        e.filename@ =~= Seq::new(8, |i: int| s[i] as char),
        e.ext@ =~= Seq::new(3, |i: int| s[i + 8] as char),
{
    lemma_ascii_bytes_decode(s.subrange(0, 8));
    lemma_ascii_bytes_decode(s.subrange(8, 11));
    assert forall|i: int| 0 <= i < 8 implies e.filename@[i] == s[i] as char by {
        assert(s.subrange(0, 8)[i] == s[i]);
    }
    assert forall|i: int| 0 <= i < 3 implies e.ext@[i] == s[i + 8] as char by {
        assert(s.subrange(8, 11)[i] == s[i + 8]);
    }
}

/// Decoding is a function of the bytes alone: two records decoded from the
/// same slot agree in every field.
pub proof fn lemma_fat_entry_decode_deterministic(s: Seq<u8>, a: FATEntry, b: FATEntry)
    requires
        fat_entry_decoded(s, a),
        fat_entry_decoded(s, b),
    ensures
        a.filename@ == b.filename@,
        a.ext@ == b.ext@,
        a.attributes == b.attributes,
        a.modify_time == b.modify_time,
        a.modify_date == b.modify_date,
        a.starting_cluster == b.starting_cluster,
        a.file_size == b.file_size,
{
}

} // verus!
