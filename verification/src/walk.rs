use vstd::prelude::*;

use crate::boot::{boot_sector_decoded, BootSector};
use crate::dir::{fat_entry_decoded, FATEntry};
use crate::endian::{le16, le32};
use crate::partition::{partition_entry_decoded, PartitionEntry};
use vstd::utf8::valid_utf8;

verus! {

/// Why a walk over an image failed.
#[derive(Clone, Copy, Debug, PartialEq, Eq, Structural)]
pub enum WalkError {
    /// A read or seek left the bytes of the image.
    OutOfBounds,
    /// A populated directory slot holds name bytes that are not valid text.
    InvalidText,
}

/// The boot sector of the matched partition and the records of the
/// populated slots of its root directory, in slot order.
#[derive(Debug, PartialEq)]
pub struct VolumeReport {
    pub boot_sector: BootSector,
    pub entries: Vec<FATEntry>,
}

/// Everything a walk found: the partition slots scanned, in order, and the
/// volume of the first FAT-typed partition, when one was found.
#[derive(Debug, PartialEq)]
pub struct WalkReport {
    pub partitions: Vec<PartitionEntry>,
    pub volume: Option<VolumeReport>,
}

/// Absolute byte offset of the MBR partition table.
pub const PARTITION_TABLE_OFFSET: usize = 0x1BE;

/// Number of slots in the MBR partition table.
pub const PARTITION_SLOTS: usize = 4;

/// The partition type byte that marks a FAT16 partition.
pub const FAT_PARTITION_TYPE: u8 = 0x06;

/// Absolute byte offset of partition table slot `i`.
pub open spec fn slot_offset(i: int) -> int {
    0x1BE + 16 * i
}

/// Slot `i` of the partition table lies within the image.
pub open spec fn slot_in_bounds(img: Seq<u8>, i: int) -> bool {
    slot_offset(i) + 16 <= img.len()
}

/// The 16 bytes of partition table slot `i`.
pub open spec fn slot_bytes(img: Seq<u8>, i: int) -> Seq<u8> {
    img.subrange(slot_offset(i), slot_offset(i) + 16)
}

/// Slot `i` lies within the image and holds a FAT-typed partition.
pub open spec fn slot_matches(img: Seq<u8>, i: int) -> bool {
    slot_in_bounds(img, i) && slot_bytes(img, i)[4] == FAT_PARTITION_TYPE
}

/// The slot at which the table scan stops, looking from slot `i` on: the
/// first slot that lies beyond the image or holds a FAT-typed partition,
/// or the slot count when every slot was read and none matched.
pub open spec fn scan_stop_from(img: Seq<u8>, i: int) -> int
    decreases PARTITION_SLOTS - i,
{
    if i >= PARTITION_SLOTS {
        PARTITION_SLOTS as int
    } else if !slot_in_bounds(img, i) || slot_matches(img, i) {
        i
    } else {
        scan_stop_from(img, i + 1)
    }
}

/// The slot at which the table scan stops.
pub open spec fn scan_stop(img: Seq<u8>) -> int {
    scan_stop_from(img, 0)
}

/// Absolute byte offset of the boot sector of the partition in slot `k`:
/// its start sector, in the 512-byte units of MBR logical block addresses.
pub open spec fn boot_offset(img: Seq<u8>, k: int) -> int {
    512 * le32(slot_bytes(img, k), 8)
}

/// The boot sector of the partition in slot `k` lies within the image.
pub open spec fn boot_in_bounds(img: Seq<u8>, k: int) -> bool {
    boot_offset(img, k) + 512 <= img.len()
}

/// The 512 bytes of the boot sector of the partition in slot `k`.
pub open spec fn boot_bytes(img: Seq<u8>, k: int) -> Seq<u8> {
    img.subrange(boot_offset(img, k), boot_offset(img, k) + 512)
}

/// Absolute byte offset of the root directory of the partition in slot
/// `k`: from the end of the boot sector, skip the remaining reserved
/// sectors and the file allocation tables, counted in the boot sector's
/// own declared sector size. A boot sector that declares no reserved
/// sectors sends this before the boot sector itself, and an image whose
/// fields point before its start cannot be walked.
pub open spec fn root_dir_offset(img: Seq<u8>, k: int) -> int {
    let bs = boot_bytes(img, k);
    boot_offset(img, k) + 512 + (le16(bs, 14) - 1 + le16(bs, 22) * bs[16]) * le16(bs, 11)
}

/// Absolute byte offset of root directory slot `j` of the partition in
/// slot `k`.
pub open spec fn dir_slot_offset(img: Seq<u8>, k: int, j: int) -> int {
    root_dir_offset(img, k) + 32 * j
}

/// Directory slot `j` lies within the image.
pub open spec fn dir_slot_in_bounds(img: Seq<u8>, k: int, j: int) -> bool {
    dir_slot_offset(img, k, j) + 32 <= img.len()
}

/// The 32 bytes of directory slot `j`.
pub open spec fn dir_slot_bytes(img: Seq<u8>, k: int, j: int) -> Seq<u8> {
    img.subrange(dir_slot_offset(img, k, j), dir_slot_offset(img, k, j) + 32)
}

/// Directory slot `j` is populated: its first byte is not the sentinel of
/// an unused slot.
pub open spec fn dir_slot_present(img: Seq<u8>, k: int, j: int) -> bool {
    img[dir_slot_offset(img, k, j)] != 0
}

/// The name bytes of directory slot `j` are valid text.
pub open spec fn dir_slot_text_ok(img: Seq<u8>, k: int, j: int) -> bool {
    &&& valid_utf8(dir_slot_bytes(img, k, j).subrange(0, 8))
    &&& valid_utf8(dir_slot_bytes(img, k, j).subrange(8, 11))
}

/// Directory slot `j` can be read and decoded: it lies within the image
/// and, when populated, its name bytes are valid text.
pub open spec fn dir_slot_ok(img: Seq<u8>, k: int, j: int) -> bool {
    &&& dir_slot_in_bounds(img, k, j)
    &&& (dir_slot_present(img, k, j) ==> dir_slot_text_ok(img, k, j))
}

/// The directory slot at which reading stops, looking from slot `j` on:
/// the first of the `n` slots that cannot be read and decoded, or `n` when
/// every slot can.
pub open spec fn dir_stop_from(img: Seq<u8>, k: int, n: int, j: int) -> int
    decreases n - j,
{
    if j >= n {
        n
    } else if !dir_slot_ok(img, k, j) {
        j
    } else {
        dir_stop_from(img, k, n, j + 1)
    }
}

/// `ps` holds the records of the first `n` partition table slots, in order.
pub open spec fn partitions_decoded(img: Seq<u8>, n: int, ps: Seq<PartitionEntry>) -> bool {
    &&& ps.len() == n
    &&& forall|i: int| 0 <= i < n ==> partition_entry_decoded(slot_bytes(img, i), #[trigger] ps[i])
}

/// `es` holds exactly the records of the populated slots among the first
/// `j` directory slots, in slot order.
pub open spec fn entries_decoded(img: Seq<u8>, k: int, j: int, es: Seq<FATEntry>) -> bool
    decreases j,
{
    if j <= 0 {
        es.len() == 0
    } else if dir_slot_present(img, k, j - 1) {
        &&& es.len() > 0
        &&& fat_entry_decoded(dir_slot_bytes(img, k, j - 1), es.last())
        &&& entries_decoded(img, k, j - 1, es.drop_last())
    } else {
        entries_decoded(img, k, j - 1, es)
    }
}

/// The walk of the matched partition in slot `k` reaches every directory
/// slot: its boot sector lies in the image, the root directory does not
/// start before the image, and each declared directory slot can be read
/// and decoded.
pub open spec fn volume_outcome_ok(img: Seq<u8>, k: int) -> bool {
    &&& boot_in_bounds(img, k)
    &&& root_dir_offset(img, k) >= 0
    &&& dir_stop_from(img, k, le16(boot_bytes(img, k), 17) as int, 0) == le16(
        boot_bytes(img, k),
        17,
    ) as int
}

/// The error on which the walk of the matched partition in slot `k`
/// stops, when it does not reach every directory slot.
pub open spec fn volume_error(img: Seq<u8>, k: int) -> WalkError {
    if !boot_in_bounds(img, k) {
        WalkError::OutOfBounds
    } else if root_dir_offset(img, k) < 0 {
        WalkError::OutOfBounds
    } else if !dir_slot_in_bounds(img, k, dir_stop_from(img, k, le16(boot_bytes(img, k), 17) as int, 0)) {
        WalkError::OutOfBounds
    } else {
        WalkError::InvalidText
    }
}

/// `v` reports the volume of the matched partition in slot `k`: its boot
/// sector, and the records of the populated slots among the declared
/// root-directory slots, in slot order.
pub open spec fn volume_decoded(img: Seq<u8>, k: int, v: VolumeReport) -> bool {
    &&& boot_sector_decoded(boot_bytes(img, k), v.boot_sector)
    &&& entries_decoded(img, k, le16(boot_bytes(img, k), 17) as int, v.entries@)
}

/// What walking the image returns, for every image.
///
/// The scan reads the partition table slots in order and stops at the
/// first FAT-typed one. When none matches, the walk succeeds with the
/// whole table and no volume. When one matches, the walk reports the
/// slots scanned so far and the matched partition's volume, or the first
/// failure that reading the volume runs into.
pub open spec fn walk_spec(img: Seq<u8>, r: Result<WalkReport, WalkError>) -> bool {
    let k = scan_stop(img);
    if k == PARTITION_SLOTS {
        &&& r matches Ok(rep)
        &&& rep.volume is None
        &&& partitions_decoded(img, PARTITION_SLOTS as int, rep.partitions@)
    } else if !slot_in_bounds(img, k) {
        r == Err::<WalkReport, WalkError>(WalkError::OutOfBounds)
    } else if volume_outcome_ok(img, k) {
        &&& r matches Ok(rep)
        &&& partitions_decoded(img, k + 1, rep.partitions@)
        &&& rep.volume matches Some(v)
        &&& volume_decoded(img, k, v)
    } else {
        r == Err::<WalkReport, WalkError>(volume_error(img, k))
    }
}

/// The scan stops at slot `j` when the slots before it read without a
/// match and slot `j` is the first to lie beyond the image or to match,
/// or the slot count when all were read without a match.
proof fn lemma_scan_stop_from(img: Seq<u8>, a: int, j: int)
    requires
        0 <= a <= j <= PARTITION_SLOTS,
        forall|t: int|
            a <= t < j ==> #[trigger] slot_in_bounds(img, t) && !slot_matches(img, t),
        j == PARTITION_SLOTS || !slot_in_bounds(img, j) || slot_matches(img, j),
    ensures
        scan_stop_from(img, a) == j,
    decreases j - a,
{
    if a < j {
        lemma_scan_stop_from(img, a + 1, j);
    }
}

/// Directory reading stops at slot `j` when the slots before it read and
/// decode and slot `j` is the first that does not, or at the declared
/// count when every slot does.
proof fn lemma_dir_stop_from(img: Seq<u8>, k: int, n: int, a: int, j: int)
    requires
        0 <= a <= j <= n,
        forall|t: int| a <= t < j ==> #[trigger] dir_slot_ok(img, k, t),
        j == n || !dir_slot_ok(img, k, j),
    ensures
        dir_stop_from(img, k, n, a) == j,
    decreases j - a,
{
    if a < j {
        lemma_dir_stop_from(img, k, n, a + 1, j);
    }
}

/// A partition table whose four slots all lie in the image and none of
/// which holds a FAT-typed partition is scanned whole, and the scan stops
/// only there: such a walk reads no boot sector and cannot fail.
pub proof fn lemma_scan_stops_without_match(img: Seq<u8>)
    requires
        forall|i: int|
            0 <= i < PARTITION_SLOTS ==> #[trigger] slot_in_bounds(img, i) && !slot_matches(
                img,
                i,
            ),
    ensures
        scan_stop(img) == PARTITION_SLOTS,
{
    lemma_scan_stop_from(img, 0, PARTITION_SLOTS as int);
}

/// Read the volume of the matched partition in slot `k`: its boot sector,
/// then every declared root-directory slot.
#[verifier::loop_isolation(false)]
fn walk_volume(img: &[u8], start_sector: u32, Ghost(k): Ghost<int>) -> (r: Result<
    VolumeReport,
    WalkError,
>)
    requires
        0 <= k < PARTITION_SLOTS,
        slot_matches(img@, k),
        start_sector == le32(slot_bytes(img@, k), 8),
    ensures
        volume_outcome_ok(img@, k) ==> (r matches Ok(v) && volume_decoded(img@, k, v)),
        !volume_outcome_ok(img@, k) ==> r == Err::<VolumeReport, WalkError>(
            volume_error(img@, k),
        ),
{
    let len64: u64 = img.len() as u64;
    let boot_off64: u64 = 512u64 * (start_sector as u64);
    if boot_off64 + 512 > len64 {
        return Err(WalkError::OutOfBounds);
    }
    let boot_off: usize = boot_off64 as usize;
    let bb = &img[boot_off..boot_off + 512];
    assert(bb@ == boot_bytes(img@, k));
    let boot_sector = BootSector::new(bb);

    let fat_area: i64 = {
        let a: i64 = boot_sector.fat_size_sectors as i64;
        let b: i64 = boot_sector.number_of_fats as i64;
        assert(0 <= a * b <= 16711425) by (nonlinear_arith)
            requires
                0 <= a <= 65535,
                0 <= b <= 255,
        ;
        a * b
    };
    let units: i64 = boot_sector.reserved_sectors as i64 - 1 + fat_area;
    let sector: i64 = boot_sector.sector_size as i64;
    assert(-65535 <= units * sector <= 16776959 * 65535) by (nonlinear_arith)
        requires
            -1 <= units <= 16776959,
            0 <= sector <= 65535,
    ;
    let skip: i64 = units * sector;
    let root64: i64 = boot_off64 as i64 + 512 + skip;
    assert(root64 == root_dir_offset(img@, k));
    if root64 < 0 {
        return Err(WalkError::OutOfBounds);
    }
    let root64u: u64 = root64 as u64;

    let n: u16 = boot_sector.root_dir_entries;
    assert(n == le16(boot_bytes(img@, k), 17));
    let mut entries: Vec<FATEntry> = Vec::new();
    let mut j: usize = 0;
    while j < n as usize
        invariant
            j <= n as int,
            entries_decoded(img@, k, j as int, entries@),
            forall|t: int| 0 <= t < j ==> #[trigger] dir_slot_ok(img@, k, t),
        decreases n as int - j,
    {
        let off64: u64 = root64u + 32u64 * (j as u64);
        assert(off64 == dir_slot_offset(img@, k, j as int));
        if off64 + 32 > len64 {
            proof {
                lemma_dir_stop_from(img@, k, n as int, 0, j as int);
            }
            return Err(WalkError::OutOfBounds);
        }
        let off: usize = off64 as usize;
        let sb = &img[off..off + 32];
        assert(sb@ == dir_slot_bytes(img@, k, j as int));
        match FATEntry::new(sb) {
            Err(_) => {
                proof {
                    assert(dir_slot_present(img@, k, j as int));
                    assert(!dir_slot_ok(img@, k, j as int));
                    lemma_dir_stop_from(img@, k, n as int, 0, j as int);
                }
                return Err(WalkError::InvalidText);
            },
            Ok(None) => {
                assert(!dir_slot_present(img@, k, j as int));
                assert(entries_decoded(img@, k, j as int + 1, entries@));
            },
            Ok(Some(e)) => {
                let ghost old_entries = entries@;
                entries.push(e);
                proof {
                    assert(entries@.drop_last() =~= old_entries);
                    assert(entries_decoded(img@, k, j as int + 1, entries@));
                }
            },
        }
        assert(dir_slot_ok(img@, k, j as int));
        j += 1;
    }
    proof {
        lemma_dir_stop_from(img@, k, n as int, 0, n as int);
    }
    Ok(VolumeReport { boot_sector, entries })
}

/// Walk a raw disk image: scan the MBR partition table in slot order,
/// stop at the first FAT-typed partition, decode its boot sector, and
/// read the populated entries of its root directory, in slot order.
/// When no slot matches, the scanned table is the whole result. Any
/// read or seek beyond the image ends the walk with `OutOfBounds`, and
/// a populated directory slot whose name bytes are not valid text ends
/// it with `InvalidText`.
#[verifier::loop_isolation(false)]
pub fn walk_image(img: &[u8]) -> (r: Result<WalkReport, WalkError>)
    ensures
        walk_spec(img@, r),
{
    let mut partitions: Vec<PartitionEntry> = Vec::new();
    let mut i: usize = 0;
    while i < PARTITION_SLOTS
        invariant
            i <= PARTITION_SLOTS,
            partitions@.len() == i,
            forall|t: int|
                0 <= t < i ==> partition_entry_decoded(
                    slot_bytes(img@, t),
                    #[trigger] partitions@[t],
                ),
            forall|t: int|
                0 <= t < i ==> #[trigger] slot_in_bounds(img@, t) && !slot_matches(img@, t),
        decreases PARTITION_SLOTS - i,
    {
        let off: usize = PARTITION_TABLE_OFFSET + 16 * i;
        if off + 16 > img.len() {
            proof {
                lemma_scan_stop_from(img@, 0, i as int);
            }
            return Err(WalkError::OutOfBounds);
        }
        let sb = &img[off..off + 16];
        assert(sb@ == slot_bytes(img@, i as int));
        let pe = PartitionEntry::new(sb);
        let start_sector = pe.start_sector;
        let is_match = pe.partition_type == FAT_PARTITION_TYPE;
        partitions.push(pe);
        if is_match {
            proof {
                lemma_scan_stop_from(img@, 0, i as int);
            }
            return match walk_volume(img, start_sector, Ghost(i as int)) {
                Ok(v) => Ok(WalkReport { partitions, volume: Some(v) }),
                Err(e) => Err(e),
            };
        }
        i += 1;
    }
    proof {
        lemma_scan_stop_from(img@, 0, PARTITION_SLOTS as int);
    }
    Ok(WalkReport { partitions, volume: None })
}

} // verus!
