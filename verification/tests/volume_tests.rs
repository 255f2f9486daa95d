use rust_fat::defs::BiosParamBlockFat32;
use rust_fat::error::Error;
use rust_fat::fat_table::{ChainStep, ClusterChain};
use rust_fat::fs::{parse_boot_sector, power_of_two, FatFs};
use rust_fat::types::{FatEntry, FatType};

fn put16(b: &mut [u8], o: usize, v: u16) {
    b[o..o + 2].copy_from_slice(&v.to_le_bytes());
}

fn put32(b: &mut [u8], o: usize, v: u32) {
    b[o..o + 4].copy_from_slice(&v.to_le_bytes());
}

struct Params {
    sector_size: u16,
    sectors_per_cluster: u8,
    reserved: u16,
    num_fats: u8,
    rootdir_entries: u16,
    total16: u16,
    fat16: u16,
    total32: u32,
    fat32: u32,
    root_cluster: u32,
}

fn fat16_params() -> Params {
    Params {
        sector_size: 512,
        sectors_per_cluster: 4,
        reserved: 1,
        num_fats: 2,
        rootdir_entries: 512,
        total16: 20480,
        fat16: 20,
        total32: 0,
        fat32: 0,
        root_cluster: 0,
    }
}

fn fat32_params() -> Params {
    Params {
        sector_size: 512,
        sectors_per_cluster: 8,
        reserved: 32,
        num_fats: 2,
        rootdir_entries: 0,
        total16: 0,
        fat16: 0,
        total32: 1_000_000,
        fat32: 1000,
        root_cluster: 2,
    }
}

fn boot_sector(p: &Params) -> Vec<u8> {
    let mut b = vec![0u8; 512];
    b[0] = 0xEB;
    put16(&mut b, 11, p.sector_size);
    b[13] = p.sectors_per_cluster;
    put16(&mut b, 14, p.reserved);
    b[16] = p.num_fats;
    put16(&mut b, 17, p.rootdir_entries);
    put16(&mut b, 19, p.total16);
    b[21] = 0xF8;
    put16(&mut b, 22, p.fat16);
    put32(&mut b, 32, p.total32);
    put32(&mut b, 36, p.fat32);
    put32(&mut b, 44, p.root_cluster);
    put16(&mut b, 510, 0xAA55);
    b
}

fn mount(p: &Params, sector_count: u64) -> Result<FatFs, Error> {
    let bs = parse_boot_sector(&boot_sector(p))?;
    assert!(!FatFs::layout_overflows(&bs, sector_count));
    FatFs::from_boot_sector(&bs, sector_count)
}

#[test]
fn power_of_two_checks() {
    assert!(power_of_two(1));
    assert!(power_of_two(512));
    assert!(power_of_two(0x8000_0000));
    assert!(!power_of_two(0));
    assert!(!power_of_two(3));
    assert!(!power_of_two(1000));
}

#[test]
fn parses_fat16_volume() {
    let fs = mount(&fat16_params(), 20480).unwrap();
    assert_eq!(fs.fat_type, FatType::FAT16);
    assert_eq!(fs.sector_size, 512);
    assert_eq!(fs.sectors_per_cluster, 4);
    assert_eq!(fs.cluster_size, 2048);
    assert_eq!(fs.first_fat_sector, 1);
    // 1 reserved + 2 * 20 FAT sectors + 32 root directory sectors
    assert_eq!(fs.first_data_sector, 73);
    assert_eq!(fs.cluster_count, (20480 - 73) / 4);
    assert_eq!(fs.rootdir_entries, 512);
    assert_eq!(fs.num_fats, 2);
    assert_eq!(fs.fat_sectors, 20);
}

#[test]
fn parses_fat32_volume() {
    let fs = mount(&fat32_params(), 2_000_000).unwrap();
    assert_eq!(fs.fat_type, FatType::FAT32 { root_cluster: 2 });
    assert_eq!(fs.cluster_size, 4096);
    assert_eq!(fs.first_data_sector, 2032);
    assert_eq!(fs.cluster_count, (1_000_000 - 2032) / 8);
    assert_eq!(fs.fat_sectors, 1000);
}

#[test]
fn short_block_is_io_error() {
    let b = boot_sector(&fat16_params());
    assert!(matches!(parse_boot_sector(&b[..511]), Err(Error::Io)));
    assert!(matches!(parse_boot_sector(&[]), Err(Error::Io)));
}

#[test]
fn wrong_signature_is_invalid() {
    let mut b = boot_sector(&fat16_params());
    b[510] = 0;
    assert!(matches!(parse_boot_sector(&b), Err(Error::InvalidArgument)));
}

#[test]
fn unsupported_sector_size_is_invalid() {
    for size in [256u16, 1000, 8192] {
        let mut p = fat16_params();
        p.sector_size = size;
        assert!(matches!(parse_boot_sector(&boot_sector(&p)), Err(Error::InvalidArgument)));
    }
    let mut p = fat16_params();
    p.sector_size = 4096;
    assert!(parse_boot_sector(&boot_sector(&p)).is_ok());
}

#[test]
fn invalid_parameters_are_rejected() {
    let cases: Vec<fn(&mut Params)> = vec![
        |p| p.reserved = 0,
        |p| p.sectors_per_cluster = 0,
        |p| p.sectors_per_cluster = 3,
        |p| p.num_fats = 0,
        |p| {
            p.total16 = 0;
            p.total32 = 0;
        },
        |p| p.fat16 = 0,
    ];
    for change in cases {
        let mut p = fat16_params();
        change(&mut p);
        assert!(matches!(mount(&p, 20480), Err(Error::InvalidArgument)));
    }
    // more sectors than the device holds
    assert!(matches!(mount(&fat16_params(), 20479), Err(Error::InvalidArgument)));
}

#[test]
fn oversized_fats_overflow_the_layout() {
    let mut p = fat16_params();
    p.fat16 = 20000;
    let bs = parse_boot_sector(&boot_sector(&p)).unwrap();
    assert!(FatFs::layout_overflows(&bs, 20480));
    // a failing check comes first: no overflow then
    assert!(!FatFs::layout_overflows(&bs, 100));
}

#[test]
fn fat_type_thresholds() {
    let bpb32 = BiosParamBlockFat32 {
        fat_sectors_32: 0,
        flags: 0,
        version: 0,
        root_cluster: 7,
        info_sector: 0,
        backup_boot_sector: 0,
    };
    assert_eq!(FatType::from_cluster_count(4084, 0, &bpb32), FatType::FAT12);
    assert_eq!(FatType::from_cluster_count(4085, 0, &bpb32), FatType::FAT16);
    assert_eq!(FatType::from_cluster_count(65524, 0, &bpb32), FatType::FAT16);
    assert_eq!(
        FatType::from_cluster_count(65525, 0, &bpb32),
        FatType::FAT32 { root_cluster: 7 }
    );
}

#[test]
fn fat_entry_meanings() {
    let t16 = FatType::FAT16;
    assert_eq!(FatEntry::from_bytes(&t16, 0xFFF8), FatEntry::End);
    assert_eq!(FatEntry::from_bytes(&t16, 0xFFFF), FatEntry::End);
    assert_eq!(FatEntry::from_bytes(&t16, 0xFFF7), FatEntry::Bad);
    assert_eq!(FatEntry::from_bytes(&t16, 5), FatEntry::Next(5));
    let t12 = FatType::FAT12;
    assert_eq!(FatEntry::from_bytes(&t12, 0xFF8), FatEntry::End);
    assert_eq!(FatEntry::from_bytes(&t12, 0xFF7), FatEntry::Bad);
    assert_eq!(FatEntry::from_bytes(&t12, 0xFF6), FatEntry::Next(0xFF6));
    let t32 = FatType::FAT32 { root_cluster: 2 };
    assert_eq!(FatEntry::from_bytes(&t32, 0x0FFF_FFF8), FatEntry::End);
    assert_eq!(FatEntry::from_bytes(&t32, 0x0FFF_FFF7), FatEntry::Bad);
    assert_eq!(FatEntry::from_bytes(&t32, 0xFFF8), FatEntry::Next(0xFFF8));
}

#[test]
fn fat_entry_location_fat32() {
    let fs = mount(&fat32_params(), 2_000_000).unwrap();
    // FAT starts at sector 32; entries are 4 bytes
    assert_eq!(fs.fat_entry_location(2), Ok((32 * 512, 8)));
    assert_eq!(fs.fat_entry_location(200), Ok((33 * 512, 288)));
    assert_eq!(fs.fat_entry_location(1), Err(Error::InvalidArgument));
    assert_eq!(fs.fat_entry_location(fs.cluster_count + 1).map(|_| ()), Ok(()));
    assert_eq!(fs.fat_entry_location(fs.cluster_count + 2), Err(Error::InvalidArgument));
}

#[test]
fn fat_entry_location_fat16() {
    let fs = mount(&fat16_params(), 20480).unwrap();
    // FAT starts at sector 1; entries are 2 bytes
    assert_eq!(fs.fat_entry_location(300), Ok((2 * 512, 88)));
}

#[test]
fn reads_fat32_entries_ignoring_high_bits() {
    let fs = mount(&fat32_params(), 2_000_000).unwrap();
    let sector = [0x03, 0x00, 0x00, 0xF0, 0xF8, 0xFF, 0xFF, 0x0F, 0xF7, 0xFF, 0xFF, 0xFF];
    assert_eq!(fs.read_fat_entry(&sector, 0), Ok(FatEntry::Next(3)));
    assert_eq!(fs.read_fat_entry(&sector, 4), Ok(FatEntry::End));
    assert_eq!(fs.read_fat_entry(&sector, 8), Ok(FatEntry::Bad));
    assert_eq!(fs.read_fat_entry(&sector, 9), Err(Error::Io));
}

#[test]
fn reads_fat16_entries() {
    let fs = mount(&fat16_params(), 20480).unwrap();
    let sector = [0x34, 0x12, 0xFF, 0xFF];
    assert_eq!(fs.read_fat_entry(&sector, 0), Ok(FatEntry::Next(0x1234)));
    assert_eq!(fs.read_fat_entry(&sector, 2), Ok(FatEntry::End));
    assert_eq!(fs.read_fat_entry(&sector, 3), Err(Error::Io));
}

#[test]
fn cluster_chain_collects_clusters_in_order() {
    let fs = mount(&fat32_params(), 2_000_000).unwrap();
    let mut chain = ClusterChain::new(2, &fs);
    assert_eq!(chain.current(), 2);
    assert_eq!(chain.advance(FatEntry::Next(9)), ChainStep::Continue);
    assert_eq!(chain.current(), 9);
    assert_eq!(chain.advance(FatEntry::Next(4)), ChainStep::Continue);
    assert_eq!(chain.advance(FatEntry::End), ChainStep::Done);
    assert_eq!(chain.into_clusters(), vec![2, 9, 4]);
}

#[test]
fn cluster_chain_single_cluster() {
    let fs = mount(&fat32_params(), 2_000_000).unwrap();
    let mut chain = ClusterChain::new(17, &fs);
    assert_eq!(chain.advance(FatEntry::End), ChainStep::Done);
    assert_eq!(chain.into_clusters(), vec![17]);
}

#[test]
fn bad_cluster_breaks_the_chain() {
    let fs = mount(&fat32_params(), 2_000_000).unwrap();
    let mut chain = ClusterChain::new(2, &fs);
    assert_eq!(chain.advance(FatEntry::Next(3)), ChainStep::Continue);
    assert_eq!(chain.advance(FatEntry::Bad), ChainStep::Failed(Error::Io));
    assert_eq!(chain.current(), 3);
    assert_eq!(chain.into_clusters(), vec![2]);
}

/// Follows a chain through an in-memory FAT the way a mount does, sector by sector.
#[test]
fn walks_chain_through_fat_sectors() {
    let fs = mount(&fat32_params(), 2_000_000).unwrap();
    let mut fat = vec![0u8; 2 * 512];
    put32(&mut fat, 2 * 4, 130);
    put32(&mut fat, 130 * 4, 5);
    put32(&mut fat, 5 * 4, 0x0FFF_FFFF);
    let mut chain = ClusterChain::new(2, &fs);
    loop {
        let (pos, off) = fs.fat_entry_location(chain.current()).unwrap();
        let start = pos as usize - 32 * 512;
        let entry = fs.read_fat_entry(&fat[start..start + 512], off).unwrap();
        match chain.advance(entry) {
            ChainStep::Continue => {}
            ChainStep::Done => break,
            ChainStep::Failed(e) => panic!("{:?}", e),
        }
    }
    assert_eq!(chain.into_clusters(), vec![2, 130, 5]);
}
