use fatwalk::walk::{walk_image, WalkError};

const TABLE: usize = 0x1BE;

fn set_slot(img: &mut [u8], slot: usize, partition_type: u8, start_sector: u32) {
    let off = TABLE + 16 * slot;
    img[off] = 0x80;
    img[off + 4] = partition_type;
    img[off + 8..off + 12].copy_from_slice(&start_sector.to_le_bytes());
}

fn set_boot(
    img: &mut [u8],
    boot_off: usize,
    sector_size: u16,
    reserved: u16,
    fats: u8,
    fat_size: u16,
    root_entries: u16,
) {
    img[boot_off + 3..boot_off + 11].copy_from_slice(b"MSDOS5.0");
    img[boot_off + 11..boot_off + 13].copy_from_slice(&sector_size.to_le_bytes());
    img[boot_off + 14..boot_off + 16].copy_from_slice(&reserved.to_le_bytes());
    img[boot_off + 16] = fats;
    img[boot_off + 17..boot_off + 19].copy_from_slice(&root_entries.to_le_bytes());
    img[boot_off + 22..boot_off + 24].copy_from_slice(&fat_size.to_le_bytes());
    img[boot_off + 510] = 0x55;
    img[boot_off + 511] = 0xAA;
}

fn set_dir_slot(img: &mut [u8], off: usize, name: &[u8; 8], ext: &[u8; 3], size: u32) {
    img[off..off + 8].copy_from_slice(name);
    img[off + 8..off + 11].copy_from_slice(ext);
    img[off + 27..off + 31].copy_from_slice(&size.to_le_bytes());
}

/// A synthetic image whose second table slot points at a FAT partition in
/// sector 1, with `reserved_sectors=1`, `number_of_fats=2`, `fat_size=9`,
/// `sector_size=512` and two declared root-directory slots. The root
/// directory then starts at byte 512*1 + 512 + (1-1+9*2)*512 = 10240.
fn synthetic_image() -> Vec<u8> {
    let mut img = vec![0u8; 10400];
    set_slot(&mut img, 1, 0x06, 1);
    set_boot(&mut img, 512, 512, 1, 2, 9, 2);
    set_dir_slot(&mut img, 10240, b"HELLO   ", b"TXT", 1234);
    set_dir_slot(&mut img, 10272, b"WORLD   ", b"BIN", 99);
    // the slot after the declared two is a zero (unused) slot
    img
}

#[test]
fn end_to_end_second_slot_match() {
    let img = synthetic_image();
    let rep = walk_image(&img).unwrap();
    // the scan stops at the matching second slot, having read both
    assert_eq!(rep.partitions.len(), 2);
    assert_eq!(rep.partitions[0].partition_type, 0x00);
    assert_eq!(rep.partitions[1].partition_type, 0x06);
    assert_eq!(rep.partitions[1].start_sector, 1);
    let vol = rep.volume.unwrap();
    assert_eq!(vol.boot_sector.sector_size, 512);
    assert_eq!(vol.boot_sector.reserved_sectors, 1);
    assert_eq!(vol.boot_sector.number_of_fats, 2);
    assert_eq!(vol.boot_sector.fat_size_sectors, 9);
    assert_eq!(vol.boot_sector.root_dir_entries, 2);
    assert_eq!(vol.boot_sector.boot_sector_signature, 0xAA55);
    assert_eq!(vol.entries.len(), 2);
    assert_eq!(vol.entries[0].filename, "HELLO   ");
    assert_eq!(vol.entries[0].ext, "TXT");
    assert_eq!(vol.entries[0].file_size, 1234);
    assert_eq!(vol.entries[1].filename, "WORLD   ");
    assert_eq!(vol.entries[1].ext, "BIN");
    assert_eq!(vol.entries[1].file_size, 99);
}

#[test]
fn unused_slots_between_declared_entries_are_skipped() {
    let mut img = synthetic_image();
    // declare three slots; leave the middle one unused
    img[512 + 17] = 3;
    img[10272] = 0;
    set_dir_slot(&mut img, 10304, b"LAST    ", b"DAT", 7);
    let rep = walk_image(&img).unwrap();
    let vol = rep.volume.unwrap();
    assert_eq!(vol.entries.len(), 2);
    assert_eq!(vol.entries[0].filename, "HELLO   ");
    assert_eq!(vol.entries[1].filename, "LAST    ");
}

#[test]
fn no_matching_partition_reports_table_only() {
    let mut img = vec![0u8; 1024];
    set_slot(&mut img, 0, 0x83, 1);
    set_slot(&mut img, 1, 0x07, 1);
    set_slot(&mut img, 2, 0x0B, 1);
    set_slot(&mut img, 3, 0x83, 1);
    let rep = walk_image(&img).unwrap();
    assert_eq!(rep.partitions.len(), 4);
    assert!(rep.volume.is_none());
    assert_eq!(rep.partitions[2].partition_type, 0x0B);
}

#[test]
fn no_matching_partition_in_empty_table() {
    // an all-zero table: four slots scanned, nothing matched, no error
    let img = vec![0u8; 512];
    let rep = walk_image(&img).unwrap();
    assert_eq!(rep.partitions.len(), 4);
    assert!(rep.volume.is_none());
}

#[test]
fn image_shorter_than_table_is_out_of_bounds() {
    let img = vec![0u8; TABLE + 20];
    assert_eq!(walk_image(&img), Err(WalkError::OutOfBounds));
}

#[test]
fn matching_slot_read_before_truncated_table() {
    // slot 0 matches, so the truncated rest of the table is never read
    let mut img = vec![0u8; 10400];
    set_slot(&mut img, 0, 0x06, 1);
    set_boot(&mut img, 512, 512, 1, 2, 9, 0);
    let long_rep = walk_image(&img).unwrap();
    assert_eq!(long_rep.partitions.len(), 1);
    let short = &img[..TABLE + 16];
    assert_eq!(walk_image(short), Err(WalkError::OutOfBounds));
}

#[test]
fn boot_sector_beyond_image_is_out_of_bounds() {
    let mut img = vec![0u8; 2048];
    set_slot(&mut img, 0, 0x06, 100);
    assert_eq!(walk_image(&img), Err(WalkError::OutOfBounds));
}

#[test]
fn root_directory_before_image_start_is_out_of_bounds() {
    // reserved_sectors=0 and no FATs with a huge declared sector size seeks
    // before the start of the image
    let mut img = vec![0u8; 4096];
    set_slot(&mut img, 0, 0x06, 1);
    set_boot(&mut img, 512, 0xFFFF, 0, 0, 0, 0);
    assert_eq!(walk_image(&img), Err(WalkError::OutOfBounds));
}

#[test]
fn directory_slot_beyond_image_is_out_of_bounds() {
    let mut img = synthetic_image();
    img[512 + 17] = 8;  // declares slots past the end of the image
    assert_eq!(walk_image(&img), Err(WalkError::OutOfBounds));
}

#[test]
fn invalid_name_bytes_in_directory_is_invalid_text() {
    let mut img = synthetic_image();
    img[10241] = 0xFF;
    assert_eq!(walk_image(&img), Err(WalkError::InvalidText));
}

#[test]
fn zero_declared_entries_reports_empty_directory() {
    let mut img = synthetic_image();
    img[512 + 17] = 0;
    let rep = walk_image(&img).unwrap();
    let vol = rep.volume.unwrap();
    assert!(vol.entries.is_empty());
}

#[test]
fn walk_is_idempotent() {
    let img = synthetic_image();
    let a = walk_image(&img).unwrap();
    let b = walk_image(&img).unwrap();
    assert_eq!(a.partitions, b.partitions);
    let (va, vb) = (a.volume.unwrap(), b.volume.unwrap());
    assert_eq!(va.boot_sector, vb.boot_sector);
    assert_eq!(va.entries, vb.entries);
}
