//! Definitions of FAT on-disk structures and their little-endian decoding.
//!
//! Every structure is read from a byte buffer at an offset; the read fails
//! exactly when the structure does not fit in the buffer.

use vstd::prelude::*;

verus! {

/// The inode number of the root directory.
pub const FAT_ROOT_INO: u64 = 0;

/// The value of the two bytes at offset 510 of a FAT boot sector.
pub const FAT_BOOT_SECTOR_SIGNATURE: u16 = 0xAA55;

/// The byte offset of the boot sector signature.
pub const FAT_BOOT_SECTOR_SIGNATURE_OFFSET: usize = 510;

/// The smallest cluster count of a FAT16 volume.
pub const MIN_FAT16_CLUSTERS: u32 = 4085;

/// The smallest cluster count of a FAT32 volume.
pub const MIN_FAT32_CLUSTERS: u32 = 65525;

/// The size of one directory entry in bytes.
pub const FAT_DENTRY_SIZE: usize = 32;

/// First name byte of a free directory entry.
pub const FAT_DENTRY_FREE: u8 = 0xE5;

/// First name byte of a free directory entry after which all entries are free.
pub const FAT_DENTRY_FREE_CONSECUTIVE: u8 = 0x00;

/// Directory entry attribute: no attribute.
pub const ATTR_NONE: u8 = 0x00;

/// Directory entry attribute: read only.
pub const ATTR_READ_ONLY: u8 = 0x01;

/// Directory entry attribute: hidden.
pub const ATTR_HIDDEN: u8 = 0x02;

/// Directory entry attribute: system file.
pub const ATTR_SYSTEM: u8 = 0x04;

/// Directory entry attribute: volume label.
pub const ATTR_VOLUME_ID: u8 = 0x08;

/// Directory entry attribute: directory.
pub const ATTR_DIRECTORY: u8 = 0x10;

/// Directory entry attribute: archive.
pub const ATTR_ARCHIVE: u8 = 0x20;

/// Directory entry attributes of a long file name slot.
pub const ATTR_LONG_NAME: u8 = 0x0F;

/// Mask selecting the attributes that identify a long file name slot.
pub const ATTR_LONG_NAME_MASK: u8 = 0x3F;

/// The size of a BIOS parameter block in bytes.
pub const BPB_SIZE: usize = 25;

/// The byte offset of the BIOS parameter block in the boot sector.
pub const BPB_OFFSET: usize = 11;

/// The size of the FAT32 extension of the BIOS parameter block in bytes.
pub const BPB_FAT32_SIZE: usize = 28;

/// The byte offset of the FAT32 extension of the BIOS parameter block.
pub const BPB_FAT32_OFFSET: usize = 36;

/// The little-endian 16-bit value stored at `s[i..i + 2]`.
pub open spec fn le_u16_at(s: Seq<u8>, i: int) -> u16 {
    (s[i] as int + s[i + 1] as int * 256) as u16
}

/// The little-endian 32-bit value stored at `s[i..i + 4]`.
pub open spec fn le_u32_at(s: Seq<u8>, i: int) -> u32 {
    (s[i] as int + s[i + 1] as int * 256 + s[i + 2] as int * 65536 + s[i + 3] as int * 16777216) as u32
}

/// Whether `len` bytes starting at `offset` lie within a buffer of `buf_len` bytes.
pub open spec fn fits(buf_len: int, offset: int, len: int) -> bool {
    offset + len <= buf_len
}

fn fits_exec(buf_len: usize, offset: usize, len: usize) -> (r: bool)
    ensures
        r == fits(buf_len as int, offset as int, len as int),
{
    buf_len >= len && offset <= buf_len - len
}

/// Reads a little-endian `u16` at `offset`; `None` if it does not fit in `data`.
pub fn read_le_u16(data: &[u8], offset: usize) -> (r: Option<u16>)
    ensures
        r == (if fits(data@.len() as int, offset as int, 2) {
            Some(le_u16_at(data@, offset as int))
        } else {
            None
        }),
{
    if !fits_exec(data.len(), offset, 2) {
        return None;
    }
    Some(data[offset] as u16 + data[offset + 1] as u16 * 256)
}

/// Reads a little-endian `u32` at `offset`; `None` if it does not fit in `data`.
pub fn read_le_u32(data: &[u8], offset: usize) -> (r: Option<u32>)
    ensures
        r == (if fits(data@.len() as int, offset as int, 4) {
            Some(le_u32_at(data@, offset as int))
        } else {
            None
        }),
{
    if !fits_exec(data.len(), offset, 4) {
        return None;
    }
    Some(
        data[offset] as u32 + data[offset + 1] as u32 * 256 + data[offset + 2] as u32 * 65536
            + data[offset + 3] as u32 * 16777216,
    )
}

/// The BIOS parameter block, starting at byte 11 of the boot sector.
#[derive(Copy, Clone, Debug)]
pub struct BiosParamBlock {
    /// in bytes
    pub sector_size: u16,
    pub sectors_per_cluster: u8,
    /// from start of volume
    pub reserved_sectors: u16,
    /// count of FATs, usually 2
    pub num_fats: u8,
    /// FAT12/16: count of dentries for root directory; FAT32: `0`
    pub rootdir_entries: u16,
    /// FAT32: `0`, superseded by `total_sectors_32`
    pub total_sectors_16: u16,
    pub media: u8,
    /// size of one FAT; FAT32: `0`, superseded by `BiosParamBlockFat32::fat_sectors_32`
    pub fat_sectors_16: u16,
    pub total_sectors_32: u32,
}

/// The BIOS parameter block stored in `s` at `o`.
pub open spec fn bpb_at(s: Seq<u8>, o: int) -> BiosParamBlock {
    BiosParamBlock {
        sector_size: le_u16_at(s, o),
        sectors_per_cluster: s[o + 2],
        reserved_sectors: le_u16_at(s, o + 3),
        num_fats: s[o + 5],
        rootdir_entries: le_u16_at(s, o + 6),
        total_sectors_16: le_u16_at(s, o + 8),
        media: s[o + 10],
        fat_sectors_16: le_u16_at(s, o + 11),
        total_sectors_32: le_u32_at(s, o + 21),
    }
}

impl BiosParamBlock {
    /// Reads the block at `offset`; `None` if it does not fit in `data`.
    pub fn from_bytes(data: &[u8], offset: usize) -> (r: Option<BiosParamBlock>)
        ensures
            r == (if fits(data@.len() as int, offset as int, BPB_SIZE as int) {
                Some(bpb_at(data@, offset as int))
            } else {
                None
            }),
    {
        if !fits_exec(data.len(), offset, BPB_SIZE) {
            return None;
        }
        let sector_size = read_le_u16(data, offset).unwrap();
        let reserved_sectors = read_le_u16(data, offset + 3).unwrap();
        let rootdir_entries = read_le_u16(data, offset + 6).unwrap();
        let total_sectors_16 = read_le_u16(data, offset + 8).unwrap();
        let fat_sectors_16 = read_le_u16(data, offset + 11).unwrap();
        let total_sectors_32 = read_le_u32(data, offset + 21).unwrap();
        Some(
            BiosParamBlock {
                sector_size,
                sectors_per_cluster: data[offset + 2],
                reserved_sectors,
                num_fats: data[offset + 5],
                rootdir_entries,
                total_sectors_16,
                media: data[offset + 10],
                fat_sectors_16,
                total_sectors_32,
            },
        )
    }
}

/// The FAT32 extension of the BIOS parameter block, at byte 36 of a FAT32 boot sector.
#[derive(Copy, Clone, Debug)]
pub struct BiosParamBlockFat32 {
    pub fat_sectors_32: u32,
    pub flags: u16,
    pub version: u16,
    pub root_cluster: u32,
    pub info_sector: u16,
    pub backup_boot_sector: u16,
}

/// The FAT32 parameter block stored in `s` at `o`.
pub open spec fn bpb32_at(s: Seq<u8>, o: int) -> BiosParamBlockFat32 {
    BiosParamBlockFat32 {
        fat_sectors_32: le_u32_at(s, o),
        flags: le_u16_at(s, o + 4),
        version: le_u16_at(s, o + 6),
        root_cluster: le_u32_at(s, o + 8),
        info_sector: le_u16_at(s, o + 12),
        backup_boot_sector: le_u16_at(s, o + 14),
    }
}

impl BiosParamBlockFat32 {
    /// Reads the block at `offset`; `None` if it does not fit in `data`.
    pub fn from_bytes(data: &[u8], offset: usize) -> (r: Option<BiosParamBlockFat32>)
        ensures
            r == (if fits(data@.len() as int, offset as int, BPB_FAT32_SIZE as int) {
                Some(bpb32_at(data@, offset as int))
            } else {
                None
            }),
    {
        if !fits_exec(data.len(), offset, BPB_FAT32_SIZE) {
            return None;
        }
        Some(
            BiosParamBlockFat32 {
                fat_sectors_32: read_le_u32(data, offset).unwrap(),
                flags: read_le_u16(data, offset + 4).unwrap(),
                version: read_le_u16(data, offset + 6).unwrap(),
                root_cluster: read_le_u32(data, offset + 8).unwrap(),
                info_sector: read_le_u16(data, offset + 12).unwrap(),
                backup_boot_sector: read_le_u16(data, offset + 14).unwrap(),
            },
        )
    }
}

/// A 32-byte directory entry as stored on disk.
#[derive(Copy, Clone, Debug)]
pub struct RawFatDirEntry {
    /// name and extension
    /// `short_name[0] == 0xE5` => free
    /// `short_name[0] == 0x00` => free, and following entries also free
    /// `short_name[0] == 0x05` => actually 0xE5
    pub short_name: [u8; 11],
    pub attributes: u8,
    /// in centiseconds (0-199)
    pub creation_time_cs: u8,
    pub creation_time: u16,
    pub creation_date: u16,
    pub access_date: u16,
    /// high 16 bits of cluster, 0 for FAT12/16
    pub first_cluster_hi: u16,
    pub write_time: u16,
    pub write_date: u16,
    /// low 16 bits of cluster
    pub first_cluster_lo: u16,
    /// in bytes
    pub file_size: u32,
}

/// Whether `e` is the directory entry stored in `s` at `o`.
pub open spec fn is_raw_dentry_at(e: RawFatDirEntry, s: Seq<u8>, o: int) -> bool {
    &&& e.short_name@ == s.subrange(o, o + 11)
    &&& e.attributes == s[o + 11]
    &&& e.creation_time_cs == s[o + 13]
    &&& e.creation_time == le_u16_at(s, o + 14)
    &&& e.creation_date == le_u16_at(s, o + 16)
    &&& e.access_date == le_u16_at(s, o + 18)
    &&& e.first_cluster_hi == le_u16_at(s, o + 20)
    &&& e.write_time == le_u16_at(s, o + 22)
    &&& e.write_date == le_u16_at(s, o + 24)
    &&& e.first_cluster_lo == le_u16_at(s, o + 26)
    &&& e.file_size == le_u32_at(s, o + 28)
}

impl RawFatDirEntry {
    /// Reads the entry at `offset`; `None` if it does not fit in `data`.
    pub fn from_bytes(data: &[u8], offset: usize) -> (r: Option<RawFatDirEntry>)
        ensures
            r is Some <==> fits(data@.len() as int, offset as int, FAT_DENTRY_SIZE as int),
            r matches Some(e) ==> is_raw_dentry_at(e, data@, offset as int),
    {
        if !fits_exec(data.len(), offset, FAT_DENTRY_SIZE) {
            return None;
        }
        let o = offset;
        let short_name = [
            data[o],
            data[o + 1],
            data[o + 2],
            data[o + 3],
            data[o + 4],
            data[o + 5],
            data[o + 6],
            data[o + 7],
            data[o + 8],
            data[o + 9],
            data[o + 10],
        ];
        assert(short_name@ =~= data@.subrange(o as int, o + 11));
        Some(
            RawFatDirEntry {
                short_name,
                attributes: data[o + 11],
                creation_time_cs: data[o + 13],
                creation_time: read_le_u16(data, o + 14).unwrap(),
                creation_date: read_le_u16(data, o + 16).unwrap(),
                access_date: read_le_u16(data, o + 18).unwrap(),
                first_cluster_hi: read_le_u16(data, o + 20).unwrap(),
                write_time: read_le_u16(data, o + 22).unwrap(),
                write_date: read_le_u16(data, o + 24).unwrap(),
                first_cluster_lo: read_le_u16(data, o + 26).unwrap(),
                file_size: read_le_u32(data, o + 28).unwrap(),
            },
        )
    }
}

} // verus!
