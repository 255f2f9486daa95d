use rust_fat::error::Error;
use rust_fat::fs::FatFs;
use rust_fat::long_name::RegularFatLongDirEntry;
use rust_fat::types::FatDirEntry;

fn slot(name: &[u8; 11], attributes: u8, cluster: u32, size: u32) -> [u8; 32] {
    let mut s = [0u8; 32];
    s[..11].copy_from_slice(name);
    s[11] = attributes;
    s[20..22].copy_from_slice(&((cluster >> 16) as u16).to_le_bytes());
    s[26..28].copy_from_slice(&(cluster as u16).to_le_bytes());
    s[28..32].copy_from_slice(&size.to_le_bytes());
    s
}

fn page(slots: &[[u8; 32]]) -> Vec<u8> {
    slots.iter().flatten().copied().collect()
}

fn entry_of(data: &[u8], offset: usize) -> rust_fat::types::RegularFatDirEntry {
    match FatDirEntry::from_bytes(data, offset) {
        Some(FatDirEntry::Entry(e)) => e,
        _ => panic!("not a regular entry"),
    }
}

#[test]
fn classifies_directory_entries() {
    let data = page(&[
        slot(b"README  TXT", 0x20, 3, 10),
        slot(b"\xE5EMOVED TXT", 0x20, 0, 0),
        slot(b"\x00          ", 0x00, 0, 0),
        slot(b"LABEL      ", 0x08, 0, 0),
        slot(b"\x41LONGNAME  ", 0x0F, 0, 0),
        slot(b"SYS     BIN", 0x04, 0, 0),
    ]);
    assert!(matches!(FatDirEntry::from_bytes(&data, 0), Some(FatDirEntry::Entry(_))));
    assert!(matches!(FatDirEntry::from_bytes(&data, 32), Some(FatDirEntry::Free)));
    assert!(matches!(FatDirEntry::from_bytes(&data, 64), Some(FatDirEntry::FreeConsecutive)));
    assert!(matches!(FatDirEntry::from_bytes(&data, 96), Some(FatDirEntry::Other)));
    assert!(matches!(FatDirEntry::from_bytes(&data, 128), Some(FatDirEntry::LongEntry(_))));
    assert!(matches!(FatDirEntry::from_bytes(&data, 160), Some(FatDirEntry::Other)));
    assert!(FatDirEntry::from_bytes(&data, 161).is_none());
    assert!(FatDirEntry::from_bytes(&data, usize::MAX).is_none());
}

#[test]
fn entry_fields() {
    let mut s = slot(b"DATA    BIN", 0x20, 0x0001_0002, 1234);
    s[13] = 150;
    s[14..16].copy_from_slice(&((12u16 << 11) | (34 << 5) | 28).to_le_bytes());
    s[16..18].copy_from_slice(&((20u16 << 9) | (3 << 5) | 1).to_le_bytes());
    s[18..20].copy_from_slice(&33u16.to_le_bytes());
    let e = entry_of(&s, 0);
    assert!(e.is_file());
    assert_eq!(e.first_cluster(), 0x0001_0002);
    assert_eq!(e.file_size(), 1234);
    let c = e.ctime().unwrap();
    assert_eq!((c.seconds(), c.nanoseconds()), (951_914_097, 500_000_000));
    let a = e.atime().unwrap();
    assert_eq!((a.seconds(), a.nanoseconds()), (315_532_800, 0));
    let m = e.mtime().unwrap();
    assert_eq!((m.seconds(), m.nanoseconds()), (315_532_800, 0));
    let d = entry_of(&slot(b"DOCS       ", 0x10, 5, 0), 0);
    assert!(!d.is_file());
}

#[test]
fn short_names() {
    let (n, len) = entry_of(&slot(b"FOO     BAR", 0x20, 0, 0), 0).name();
    assert_eq!(&n[..len], b"FOO.BAR");
    assert_eq!(&n[len..], b"     ");
    let (n, len) = entry_of(&slot(b"README     ", 0x20, 0, 0), 0).name();
    assert_eq!(&n[..len], b"README");
    let (n, len) = entry_of(&slot(b"ABCDEFGHIJK", 0x20, 0, 0), 0).name();
    assert_eq!(&n[..len], b"ABCDEFGH.IJK");
    assert_eq!(len, 12);
    // a leading 0x05 stands for 0xE5
    let (n, len) = entry_of(&slot(b"\x05BC     D  ", 0x20, 0, 0), 0).name();
    assert_eq!(&n[..len], b"\xE5BC.D");
    let (n, len) = entry_of(&slot(b"A B        ", 0x20, 0, 0), 0).name();
    assert_eq!(&n[..len], b"A B");
}

#[test]
fn lists_entries_with_position_deltas() {
    let data = page(&[
        slot(b"README  TXT", 0x20, 3, 10),
        slot(b"\xE5EMOVED TXT", 0x20, 0, 0),
        slot(b"LABEL      ", 0x08, 0, 0),
        slot(b"DOCS       ", 0x10, 0x0002_0007, 0),
        slot(b"LAST    TXT", 0x20, 9, 1),
    ]);
    let mut long = Vec::new();
    let listing = FatFs::read_dir_page(&data, &mut long);
    assert!(listing.failed.is_none());
    let items = listing.items;
    assert_eq!(items.len(), 2);
    assert_eq!(items[0].name, b"README.TXT".to_vec());
    assert_eq!(items[0].pos_delta, 32);
    assert_eq!(items[0].ino, 3);
    assert!(items[0].is_file);
    assert_eq!(items[1].name, b"DOCS".to_vec());
    assert_eq!(items[1].pos_delta, 96);
    assert_eq!(items[1].ino, 0x0002_0007);
    assert!(!items[1].is_file);
    // the deltas add up to the end of the last listed slot; the last slot
    // of the page is not scanned
    let total: i64 = items.iter().map(|i| i.pos_delta).sum();
    assert_eq!(total, 4 * 32);
}

#[test]
fn listing_stops_at_end_of_directory() {
    let data = page(&[
        slot(b"ONE        ", 0x20, 3, 1),
        slot(b"\x00          ", 0x00, 0, 0),
        slot(b"TWO        ", 0x20, 4, 1),
        slot(b"THREE      ", 0x20, 5, 1),
    ]);
    let items = FatFs::read_dir_page(&data, &mut Vec::new()).items;
    assert_eq!(items.len(), 1);
    assert_eq!(items[0].name, b"ONE".to_vec());
}

#[test]
fn listing_short_pages() {
    assert!(FatFs::read_dir_page(&[], &mut Vec::new()).items.is_empty());
    let one = page(&[slot(b"ONE        ", 0x20, 3, 1)]);
    assert!(FatFs::read_dir_page(&one, &mut Vec::new()).items.is_empty());
    let two = page(&[slot(b"ONE        ", 0x20, 3, 1), slot(b"TWO        ", 0x20, 4, 1)]);
    assert_eq!(FatFs::read_dir_page(&two, &mut Vec::new()).items.len(), 1);
}

/// A long-name slot holding `units` (padded as on disk).
fn long_name_slot(seq: u8, units: &[u16]) -> [u8; 32] {
    let mut all = [0xFFFFu16; 13];
    all[..units.len()].copy_from_slice(units);
    if units.len() < 13 {
        all[units.len()] = 0;
    }
    let mut s = [0u8; 32];
    s[0] = seq;
    s[11] = 0x0F;
    let offsets = [1, 3, 5, 7, 9, 14, 16, 18, 20, 22, 24, 28, 30];
    for (i, o) in offsets.iter().enumerate() {
        s[*o..*o + 2].copy_from_slice(&all[i].to_le_bytes());
    }
    s
}

/// The long-name slots of `name`, in on-disk order (last part first).
fn long_name_slots(name: &str) -> Vec<[u8; 32]> {
    let units: Vec<u16> = name.encode_utf16().collect();
    let parts: Vec<&[u16]> = units.chunks(13).collect();
    let n = parts.len();
    (0..n).rev().map(|i| long_name_slot((i + 1) as u8 | if i + 1 == n { 0x40 } else { 0 }, parts[i])).collect()
}

#[test]
fn reads_long_name_slots() {
    let data = page(&[long_name_slot(0x41, &"hello".encode_utf16().collect::<Vec<_>>()), [0; 32]]);
    match FatDirEntry::from_bytes(&data, 0) {
        Some(FatDirEntry::LongEntry(l)) => {
            let expected: Vec<u16> = "hello".encode_utf16().chain([0]).chain([0xFFFF; 7]).collect();
            assert_eq!(l.name_contents().to_vec(), expected);
        }
        _ => panic!("not a long-name slot"),
    }
    // a deleted long-name slot is free
    let mut deleted = long_name_slot(0x41, &[0x41]);
    deleted[0] = 0xE5;
    assert!(matches!(FatDirEntry::from_bytes(&deleted, 0), Some(FatDirEntry::Free)));
}

#[test]
fn lists_entries_under_their_long_names() {
    let mut slots = long_name_slots("A rather long file name.txt");
    slots.push(slot(b"ARATHE~1TXT", 0x20, 3, 10));
    slots.push(slot(b"SHORT      ", 0x20, 4, 10));
    slots.push([0; 32]);
    let data = page(&slots);
    let mut long = Vec::new();
    let listing = FatFs::read_dir_page(&data, &mut long);
    assert!(listing.failed.is_none());
    assert_eq!(listing.items.len(), 2);
    assert_eq!(listing.items[0].name, b"A rather long file name.txt".to_vec());
    // three slots of the long name, then the entry
    assert_eq!(listing.items[0].pos_delta, 4 * 32);
    assert_eq!(listing.items[1].name, b"SHORT".to_vec());
    assert_eq!(listing.items[1].pos_delta, 32);
    assert!(long.is_empty());
}

#[test]
fn long_name_slots_carry_over_to_the_next_page() {
    let mut slots = long_name_slots("Grüße 😀.txt");
    slots.push([0; 32]);
    let first = page(&slots);
    let mut long = Vec::new();
    let listing = FatFs::read_dir_page(&first, &mut long);
    assert!(listing.items.is_empty());
    assert_eq!(long.len(), 1);
    let second = page(&[slot(b"GRE~1   TXT", 0x20, 3, 10), [0; 32]]);
    let listing = FatFs::read_dir_page(&second, &mut long);
    assert_eq!(listing.items.len(), 1);
    assert_eq!(listing.items[0].name, "Grüße 😀.txt".as_bytes().to_vec());
    assert!(long.is_empty());
}

#[test]
fn undecodable_long_name_fails_the_listing() {
    let data = page(&[
        slot(b"FIRST      ", 0x20, 3, 10),
        long_name_slot(0x41, &[0x41, 0xDC00]),
        slot(b"BROKEN     ", 0x20, 4, 10),
        slot(b"LAST       ", 0x20, 5, 10),
        [0; 32],
    ]);
    let listing = FatFs::read_dir_page(&data, &mut Vec::new());
    assert_eq!(listing.items.len(), 1);
    assert_eq!(listing.items[0].name, b"FIRST".to_vec());
    assert_eq!(listing.failed, Some(Error::Io));
}

#[test]
fn lookup_finds_entries_by_long_name() {
    let mut slots = vec![slot(b"\xE5EMOVED TXT", 0x20, 0, 0), slot(b"README  TXT", 0x20, 3, 10)];
    slots.extend(long_name_slots("Long Name.txt"));
    slots.push(slot(b"LONGNA~1TXT", 0x20, 7, 10));
    slots.push([0; 32]);
    let data = page(&slots);
    let (offset, entry) = FatFs::lookup_page(&data, "Long Name.txt".as_bytes(), &mut Vec::new())
        .unwrap()
        .unwrap();
    assert_eq!(offset, 3 * 32);
    assert_eq!(entry.first_cluster(), 7);
    // 8.3 names are not looked up: only long names are matched
    assert!(matches!(FatFs::lookup_page(&data, b"README.TXT", &mut Vec::new()), Ok(None)));
    let mut long = Vec::new();
    assert!(FatFs::lookup_page(&data, b"missing", &mut long).unwrap().is_none());
    // an entry without long-name slots has the empty long name
    let (offset, _) = FatFs::lookup_page(&data, b"", &mut Vec::new()).unwrap().unwrap();
    assert_eq!(offset, 32);
}

#[test]
fn lookup_fails_on_undecodable_long_name() {
    let data = page(&[
        long_name_slot(0x41, &[0xD800, 0x41]),
        slot(b"BROKEN     ", 0x20, 4, 10),
        slot(b"OTHER      ", 0x20, 5, 10),
        [0; 32],
    ]);
    assert!(matches!(FatFs::lookup_page(&data, b"OTHER", &mut Vec::new()), Err(Error::Io)));
}

#[test]
fn lookup_carries_long_name_slots_across_pages() {
    let mut slots = long_name_slots("Next page");
    slots.push([0; 32]);
    let first = page(&slots);
    let mut long = Vec::new();
    assert!(FatFs::lookup_page(&first, b"Next page", &mut long).unwrap().is_none());
    let second = page(&[slot(b"NEXTPA~1   ", 0x20, 9, 0), [0; 32]]);
    let (offset, entry) = FatFs::lookup_page(&second, b"Next page", &mut long).unwrap().unwrap();
    assert_eq!(offset, 0);
    assert_eq!(entry.first_cluster(), 9);
}

fn long_slot(units: &[u16]) -> RegularFatLongDirEntry {
    let mut name = [0xFFFFu16; 13];
    name[..units.len()].copy_from_slice(units);
    RegularFatLongDirEntry { name }
}

#[test]
fn decodes_long_names() {
    let units: Vec<u16> = "Grüße 😀".encode_utf16().chain([0]).collect();
    let mut dest = Vec::new();
    assert_eq!(FatFs::parse_utf16_long_entries(&[long_slot(&units)], &mut dest), Ok(()));
    assert_eq!(dest, "Grüße 😀".as_bytes().to_vec());
}

#[test]
fn long_name_slots_are_stored_in_reverse() {
    let first: Vec<u16> = "abcdefghijklm".encode_utf16().collect();
    let second: Vec<u16> = "no".encode_utf16().chain([0]).collect();
    let mut dest = b"x".to_vec();
    let slots = [long_slot(&second), long_slot(&first)];
    assert_eq!(FatFs::parse_utf16_long_entries(&slots, &mut dest), Ok(()));
    assert_eq!(dest, b"xabcdefghijklmno".to_vec());
    let mut empty = Vec::new();
    assert_eq!(FatFs::parse_utf16_long_entries(&[], &mut empty), Ok(()));
    assert!(empty.is_empty());
}

#[test]
fn unpaired_surrogate_is_io_error() {
    let mut dest = Vec::new();
    let slots = [long_slot(&[0x41, 0xDC00, 0x42, 0])];
    assert_eq!(FatFs::parse_utf16_long_entries(&slots, &mut dest), Err(Error::Io));
    assert_eq!(dest, b"A".to_vec());
    let mut dest = Vec::new();
    let slots = [long_slot(&[0xD83D, 0x41, 0])];
    assert_eq!(FatFs::parse_utf16_long_entries(&slots, &mut dest), Err(Error::Io));
    assert!(dest.is_empty());
}
