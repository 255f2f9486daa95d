use rust_fat::error::Error;
use rust_fat::fs::FatFs;
use rust_fat::inode::{read_len, read_step, write_end, IomapMapping};
use rust_fat::types::{FatDirEntry, FatType, RegularFatDirEntry};

fn fat16() -> FatFs {
    FatFs {
        fat_type: FatType::FAT16,
        sector_size: 512,
        sectors_per_cluster: 4,
        cluster_size: 2048,
        cluster_count: 5101,
        first_fat_sector: 1,
        first_data_sector: 73,
        rootdir_entries: 512,
        num_fats: 2,
        fat_sectors: 20,
    }
}

fn fat32() -> FatFs {
    FatFs {
        fat_type: FatType::FAT32 { root_cluster: 2 },
        sector_size: 512,
        sectors_per_cluster: 8,
        cluster_size: 4096,
        cluster_count: 124_746,
        first_fat_sector: 32,
        first_data_sector: 2032,
        rootdir_entries: 0,
        num_fats: 2,
        fat_sectors: 1000,
    }
}

fn entry(attributes: u8, cluster: u32, size: u32) -> RegularFatDirEntry {
    let mut s = [0u8; 32];
    s[..11].copy_from_slice(b"NAME    EXT");
    s[11] = attributes;
    s[20..22].copy_from_slice(&((cluster >> 16) as u16).to_le_bytes());
    s[26..28].copy_from_slice(&(cluster as u16).to_le_bytes());
    s[28..32].copy_from_slice(&size.to_le_bytes());
    match FatDirEntry::from_bytes(&s, 0) {
        Some(FatDirEntry::Entry(e)) => e,
        _ => panic!("not a regular entry"),
    }
}

#[test]
fn root_chain_start() {
    assert_eq!(fat16().root_chain_start(), None);
    assert_eq!(fat32().root_chain_start(), Some(2));
}

#[test]
fn fat16_root_inode() {
    let p = fat16().root_inode_params(None);
    assert!(!p.is_file);
    assert_eq!(p.mode, 0o040444);
    assert_eq!(p.size, 512 * 32);
    // 16384 bytes round up to 8 clusters of 2048 bytes: 32 blocks of 512 bytes
    assert_eq!(p.blocks, 32);
    assert_eq!((p.nlink, p.uid, p.gid), (1, 1000, 1000));
    assert_eq!((p.ctime.seconds(), p.ctime.nanoseconds()), (0, 0));
    assert_eq!(p.mtime.seconds(), 0);
    assert_eq!(p.atime.seconds(), 0);
    let mut odd = fat16();
    odd.rootdir_entries = 100;
    assert_eq!(odd.root_inode_params(None).blocks, 8);
}

#[test]
fn fat32_root_inode() {
    let p = fat32().root_inode_params(Some(3));
    assert_eq!(p.size, 3 * 4096);
    // three 4096-byte clusters: 24 blocks of 512 bytes
    assert_eq!(p.blocks, 24);
    assert!(!p.is_file);
}

#[test]
fn entry_chain_start() {
    assert_eq!(FatFs::entry_chain_start(&entry(0x20, 7, 0)), None);
    assert_eq!(FatFs::entry_chain_start(&entry(0x20, 7, 1)), Some(7));
    assert_eq!(FatFs::entry_chain_start(&entry(0x10, 0x0003_0007, 0)), Some(0x0003_0007));
}

#[test]
fn file_inode() {
    let p = fat32().entry_inode_params(&entry(0x20, 7, 1234), Some(1)).unwrap();
    assert!(p.is_file);
    assert_eq!(p.mode, 0o100644);
    assert_eq!(p.size, 1234);
    assert_eq!(p.blocks, 8);
    let empty = fat32().entry_inode_params(&entry(0x20, 0, 0), None).unwrap();
    assert_eq!((empty.size, empty.blocks), (0, 0));
}

#[test]
fn directory_inode() {
    let p = fat32().entry_inode_params(&entry(0x10, 7, 0), Some(2)).unwrap();
    assert!(!p.is_file);
    assert_eq!(p.mode, 0o040444);
    assert_eq!(p.size, 2 * 4096);
    assert_eq!(p.blocks, 16);
}

#[test]
fn iomap_maps_chain_clusters() {
    let fs = fat32();
    let clusters = vec![10, 11];
    let m = fs.iomap_begin(10_000, 5_000, 100, Some(&clusters));
    // cluster 11 starts at sector (11 - 2) * 8 + 2032
    assert_eq!(
        m,
        Ok(IomapMapping::Mapped { offset: 4096, length: 4096, addr: (9 * 8 + 2032) * 512 })
    );
    let m = fs.iomap_begin(10_000, 0, 100, Some(&clusters));
    assert_eq!(
        m,
        Ok(IomapMapping::Mapped { offset: 0, length: 4096, addr: (8 * 8 + 2032) * 512 })
    );
}

#[test]
fn iomap_maps_fixed_root_directory() {
    let fs = fat16();
    let m = fs.iomap_begin(16_384, 3_000, 100, None);
    // root directory starts after 1 reserved and 2 * 20 FAT sectors
    assert_eq!(
        m,
        Ok(IomapMapping::Mapped { offset: 2048, length: 2048, addr: 41 * 512 + 2048 })
    );
}

#[test]
fn iomap_past_end_is_a_hole() {
    let fs = fat32();
    assert_eq!(
        fs.iomap_begin(10_000, 10_000, 4096, None),
        Ok(IomapMapping::Hole { offset: 10_000, length: 4096 })
    );
    assert_eq!(fs.iomap_begin(10_000, 20_000, -1, None), Err(Error::InvalidArgument));
}

#[test]
fn read_positions() {
    assert_eq!(read_len(100, 30), Some(70));
    assert_eq!(read_len(100, 100), Some(0));
    assert_eq!(read_len(100, 101), None);
    assert_eq!(read_step(70, 4096, 30), (70, 100));
    assert_eq!(read_step(8000, 4096, 0), (4096, 4096));
    assert_eq!(read_step(5, 4096, -10), (5, -5));
}

#[test]
fn write_position() {
    assert_eq!(write_end(0, 42), 42);
    assert_eq!(write_end(0, 0), 0);
}

#[test]
fn last_data_cluster_maps_inside_the_volume() {
    let fs = fat16();
    let last = fs.cluster_count + 1;
    let clusters = vec![last];
    let m = fs.iomap_begin(2048, 0, 2048, Some(&clusters)).unwrap();
    let addr = match m {
        IomapMapping::Mapped { addr, .. } => addr,
        IomapMapping::Hole { .. } => panic!("expected a mapping"),
    };
    assert_eq!(addr, ((5102 - 2) * 4 + 73) * 512);
    assert!(addr + fs.cluster_size as u64 <= 20480 * 512);
}

#[test]
fn iomap_positions_just_below_zero_map_to_the_first_cluster() {
    let fs = fat32();
    let clusters = vec![10, 11];
    assert_eq!(
        fs.iomap_begin(10_000, -100, 100, Some(&clusters)),
        Ok(IomapMapping::Mapped { offset: 0, length: 4096, addr: (8 * 8 + 2032) * 512 })
    );
}

#[test]
fn iomap_negative_root_offset_wraps() {
    let fs = fat16();
    // -30000 / 2048 rounds toward zero to -14; 41 * 512 - 14 * 2048 is negative
    let addr = (41u64 * 512).wrapping_add((-14i64 * 2048) as u64);
    assert_eq!(
        fs.iomap_begin(16_384, -30_000, 100, None),
        Ok(IomapMapping::Mapped { offset: -14 * 2048, length: 2048, addr })
    );
}
