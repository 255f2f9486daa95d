//! The volume geometry of a FAT file system, read and validated from its
//! boot sector.
//!
//! Layout of a volume:
//! - reserved sectors (length `reserved_sectors`), holding the boot sector
//!   and the BIOS parameter block (with its FAT32 extension);
//! - the FATs (`num_fats` copies of `fat_sectors` sectors each);
//! - the root directory sectors (`rootdir_sectors`, 0 for FAT32);
//! - the data sectors, grouped into clusters.

use vstd::prelude::*;
use crate::defs::{
    bpb32_at, bpb_at, fits, le_u16_at, read_le_u16, BiosParamBlock, BiosParamBlockFat32,
    BPB_FAT32_OFFSET, BPB_OFFSET, FAT_BOOT_SECTOR_SIGNATURE, FAT_BOOT_SECTOR_SIGNATURE_OFFSET,
};
use crate::error::Error;
use crate::types::{fat_type_for, FatType};

verus! {

/// Whether `n` is a power of two.
pub open spec fn is_power_of_two(n: nat) -> bool
    decreases n,
{
    if n == 0 {
        false
    } else if n == 1 {
        true
    } else {
        n % 2 == 0 && is_power_of_two(n / 2)
    }
}

/// Returns whether `x` is a power of two.
pub fn power_of_two(x: u32) -> (r: bool)
    ensures
        r == is_power_of_two(x as nat),
{
    let mut y = x;
    while y > 1 && y % 2 == 0
        invariant
            is_power_of_two(x as nat) == is_power_of_two(y as nat),
        decreases y,
    {
        y = y / 2;
    }
    y == 1
}

/// Whether a sector size is supported: a power of two from 512 to 4096 bytes.
pub open spec fn valid_sector_size(sector_size: u16) -> bool {
    512 <= sector_size <= 4096 && is_power_of_two(sector_size as nat)
}

/// The parameter blocks of a boot sector.
#[derive(Copy, Clone, Debug)]
pub struct BootSector {
    pub bpb: BiosParamBlock,
    /// Read on every volume; only meaningful on FAT32 volumes.
    pub bpb32: BiosParamBlockFat32,
}

/// Reads the boot sector in `data`, the first block of the volume, and checks
/// its signature and sector size.
///
/// A block too short to hold the signature is an I/O error; a wrong signature
/// or an unsupported sector size is an invalid argument.
pub fn parse_boot_sector(data: &[u8]) -> (r: Result<BootSector, Error>)
    ensures
        !fits(data@.len() as int, FAT_BOOT_SECTOR_SIGNATURE_OFFSET as int, 2) ==> r
            == Err::<BootSector, Error>(Error::Io),
        fits(data@.len() as int, FAT_BOOT_SECTOR_SIGNATURE_OFFSET as int, 2) && le_u16_at(
            data@,
            FAT_BOOT_SECTOR_SIGNATURE_OFFSET as int,
        ) != FAT_BOOT_SECTOR_SIGNATURE ==> r == Err::<BootSector, Error>(Error::InvalidArgument),
        fits(data@.len() as int, FAT_BOOT_SECTOR_SIGNATURE_OFFSET as int, 2) && le_u16_at(
            data@,
            FAT_BOOT_SECTOR_SIGNATURE_OFFSET as int,
        ) == FAT_BOOT_SECTOR_SIGNATURE ==> {
            let bpb = bpb_at(data@, BPB_OFFSET as int);
            if valid_sector_size(bpb.sector_size) {
                r == Ok::<BootSector, Error>(
                    BootSector { bpb, bpb32: bpb32_at(data@, BPB_FAT32_OFFSET as int) },
                )
            } else {
                r == Err::<BootSector, Error>(Error::InvalidArgument)
            }
        },
{
    let signature = match read_le_u16(data, FAT_BOOT_SECTOR_SIGNATURE_OFFSET) {
        Some(s) => s,
        None => return Err(Error::Io),
    };
    if signature != FAT_BOOT_SECTOR_SIGNATURE {
        return Err(Error::InvalidArgument);
    }
    let bpb = match BiosParamBlock::from_bytes(data, BPB_OFFSET) {
        Some(b) => b,
        None => return Err(Error::Io),
    };
    let sector_size = bpb.sector_size;
    if !(sector_size >= 512 && sector_size <= 4096 && power_of_two(sector_size as u32)) {
        return Err(Error::InvalidArgument);
    }
    let bpb32 = match BiosParamBlockFat32::from_bytes(data, BPB_FAT32_OFFSET) {
        Some(b) => b,
        None => return Err(Error::Io),
    };
    Ok(BootSector { bpb, bpb32 })
}

/// The total number of sectors of the volume.
pub open spec fn total_sectors(bs: BootSector) -> u32 {
    if bs.bpb.total_sectors_16 != 0 {
        bs.bpb.total_sectors_16 as u32
    } else {
        bs.bpb.total_sectors_32
    }
}

/// The number of sectors of one FAT.
pub open spec fn fat_sectors(bs: BootSector) -> u32 {
    if bs.bpb.fat_sectors_16 != 0 {
        bs.bpb.fat_sectors_16 as u32
    } else {
        bs.bpb32.fat_sectors_32
    }
}

/// The first sector of the root directory (FAT12/16), right after the FATs.
pub open spec fn first_rootdir_sector(bs: BootSector) -> int {
    bs.bpb.reserved_sectors + bs.bpb.num_fats * fat_sectors(bs)
}

/// The number of sectors the FAT12/16 root directory occupies, rounded up.
pub open spec fn rootdir_sectors(bs: BootSector) -> int {
    (bs.bpb.rootdir_entries * 32 + bs.bpb.sector_size - 1) / (bs.bpb.sector_size as int)
}

/// The first data sector, right after the root directory.
pub open spec fn first_data_sector(bs: BootSector) -> int {
    first_rootdir_sector(bs) + rootdir_sectors(bs)
}

/// The number of data clusters.
pub open spec fn cluster_count(bs: BootSector) -> int {
    (total_sectors(bs) - first_data_sector(bs)) / (bs.bpb.sectors_per_cluster as int)
}

/// Whether the boot sector's parameters pass validation for a device of
/// `sector_count` sectors: at least one reserved sector, a power-of-two
/// cluster size, at least one FAT of nonzero size, and a total sector count
/// that is nonzero and fits on the device.
pub open spec fn boot_params_valid(bs: BootSector, sector_count: u64) -> bool {
    &&& bs.bpb.reserved_sectors > 0
    &&& bs.bpb.sectors_per_cluster > 0
    &&& is_power_of_two(bs.bpb.sectors_per_cluster as nat)
    &&& bs.bpb.num_fats > 0
    &&& 0 < total_sectors(bs)
    &&& total_sectors(bs) <= sector_count
    &&& fat_sectors(bs) > 0
}

/// The powers of two that fit in a byte: 1, 2, 4, ..., 128.
pub proof fn lemma_byte_powers_of_two(n: int)
    requires
        0 <= n <= 255,
    ensures
        is_power_of_two(n as nat) <==> (n == 1 || n == 2 || n == 4 || n == 8 || n == 16 || n == 32
            || n == 64 || n == 128),
    decreases n,
{
    if n > 1 {
        lemma_byte_powers_of_two(n / 2);
    }
}

/// Which boot sectors pass validation, in terms of their fields alone: at
/// least one reserved sector, 1, 2, 4, ..., 128 sectors per cluster (one
/// sector per cluster included), at least one FAT, a nonzero total sector
/// count (the 16-bit count, or the 32-bit one when that is 0) that fits on
/// the device, and a nonzero FAT size (the 16-bit size, or the FAT32 one
/// when that is 0).
pub proof fn lemma_boot_params_by_fields(bs: BootSector, sector_count: u64)
    ensures
        boot_params_valid(bs, sector_count) <==> ({
            let spc = bs.bpb.sectors_per_cluster as int;
            let total = if bs.bpb.total_sectors_16 != 0 {
                bs.bpb.total_sectors_16 as int
            } else {
                bs.bpb.total_sectors_32 as int
            };
            let fat = if bs.bpb.fat_sectors_16 != 0 {
                bs.bpb.fat_sectors_16 as int
            } else {
                bs.bpb32.fat_sectors_32 as int
            };
            &&& bs.bpb.reserved_sectors > 0
            &&& (spc == 1 || spc == 2 || spc == 4 || spc == 8 || spc == 16 || spc == 32 || spc
                == 64 || spc == 128)
            &&& bs.bpb.num_fats > 0
            &&& 0 < total <= sector_count
            &&& fat > 0
        }),
{
    lemma_byte_powers_of_two(bs.bpb.sectors_per_cluster as int);
}

/// Whether the reserved sectors, the FATs and the root directory fit in the
/// volume's total sector count.
pub open spec fn layout_fits(bs: BootSector) -> bool {
    first_data_sector(bs) <= total_sectors(bs)
}

/// The geometry of a mounted FAT volume.
#[derive(Copy, Clone, Debug)]
pub struct FatFs {
    pub fat_type: FatType,
    /// Size of one sector in Bytes.
    pub sector_size: u16,
    /// Number of sectors per cluster.
    pub sectors_per_cluster: u8,
    /// Size of one cluster in Bytes.
    pub cluster_size: u32,
    /// Count of data clusters.
    pub cluster_count: u32,
    pub first_fat_sector: i64,
    pub first_data_sector: u32,
    pub rootdir_entries: u16,
    pub num_fats: u8,
    pub fat_sectors: u32,
}

/// The geometry that a boot sector describes.
pub open spec fn geometry_of(bs: BootSector) -> FatFs {
    FatFs {
        fat_type: fat_type_for(cluster_count(bs) as u32, bs.bpb32.root_cluster),
        sector_size: bs.bpb.sector_size,
        sectors_per_cluster: bs.bpb.sectors_per_cluster,
        cluster_size: (bs.bpb.sector_size * bs.bpb.sectors_per_cluster) as u32,
        cluster_count: cluster_count(bs) as u32,
        first_fat_sector: bs.bpb.reserved_sectors as i64,
        first_data_sector: first_data_sector(bs) as u32,
        rootdir_entries: bs.bpb.rootdir_entries,
        num_fats: bs.bpb.num_fats,
        fat_sectors: fat_sectors(bs),
    }
}

impl FatFs {
    /// The invariant of a geometry read from a valid boot sector.
    pub open spec fn wf(&self) -> bool {
        &&& valid_sector_size(self.sector_size)
        &&& self.sectors_per_cluster > 0
        &&& is_power_of_two(self.sectors_per_cluster as nat)
        &&& self.cluster_size == self.sector_size * self.sectors_per_cluster
        &&& 0 < self.first_fat_sector <= u16::MAX
        &&& self.num_fats > 0
        &&& self.fat_sectors > 0
        &&& self.cluster_count < u32::MAX
        &&& self.fat_type == fat_type_for(self.cluster_count, self.root_cluster())
    }

    /// The root directory cluster named by the FAT32 parameter block (0 otherwise).
    pub open spec fn root_cluster(&self) -> u32 {
        match self.fat_type {
            FatType::FAT32 { root_cluster } => root_cluster,
            _ => 0,
        }
    }

    /// Whether validating `bs` for a device of `sector_count` sectors would
    /// overflow the sector arithmetic: the parameters pass validation but
    /// the FATs and the root directory do not fit in the volume.
    pub fn layout_overflows(bs: &BootSector, sector_count: u64) -> (r: bool)
        requires
            valid_sector_size(bs.bpb.sector_size),
        ensures
            r == (boot_params_valid(*bs, sector_count) && !layout_fits(*bs)),
    {
        let bpb = &bs.bpb;
        let total_sectors: u32 = if bpb.total_sectors_16 != 0 {
            bpb.total_sectors_16 as u32
        } else {
            bpb.total_sectors_32
        };
        let fat_sectors: u32 = if bpb.fat_sectors_16 != 0 {
            bpb.fat_sectors_16 as u32
        } else {
            bs.bpb32.fat_sectors_32
        };
        let valid = bpb.reserved_sectors > 0 && bpb.sectors_per_cluster > 0 && power_of_two(
            bpb.sectors_per_cluster as u32,
        ) && bpb.num_fats > 0 && 0 < total_sectors && total_sectors as u64 <= sector_count
            && fat_sectors > 0;
        let sector_size = bpb.sector_size as u64;
        let nf = bpb.num_fats as u64;
        let fs = fat_sectors as u64;
        assert(nf * fs <= 0xFF * 0xFFFF_FFFF) by (nonlinear_arith)
            requires
                nf <= 0xFF,
                fs <= 0xFFFF_FFFF,
        ;
        let rootdir = (bpb.rootdir_entries as u64 * 32 + sector_size - 1) / sector_size;
        assert(rootdir <= 0xFFFF * 32) by (nonlinear_arith)
            requires
                sector_size >= 1,
                rootdir == (bpb.rootdir_entries * 32 + sector_size - 1) / (sector_size as int),
                bpb.rootdir_entries <= 0xFFFF,
        ;
        let first_data = bpb.reserved_sectors as u64 + nf * fs + rootdir;
        valid && first_data > total_sectors as u64
    }

    /// Validates the boot sector's parameters for a device of `sector_count`
    /// sectors and computes the volume geometry.
    ///
    /// Every failed check is an invalid argument.
    pub fn from_boot_sector(bs: &BootSector, sector_count: u64) -> (r: Result<FatFs, Error>)
        requires
            valid_sector_size(bs.bpb.sector_size),
            boot_params_valid(*bs, sector_count) ==> layout_fits(*bs),
        ensures
            r is Ok <==> boot_params_valid(*bs, sector_count),
            r is Ok <==> ({
                let spc = bs.bpb.sectors_per_cluster as int;
                let total = if bs.bpb.total_sectors_16 != 0 {
                    bs.bpb.total_sectors_16 as int
                } else {
                    bs.bpb.total_sectors_32 as int
                };
                let fat = if bs.bpb.fat_sectors_16 != 0 {
                    bs.bpb.fat_sectors_16 as int
                } else {
                    bs.bpb32.fat_sectors_32 as int
                };
                &&& bs.bpb.reserved_sectors > 0
                &&& (spc == 1 || spc == 2 || spc == 4 || spc == 8 || spc == 16 || spc == 32 || spc
                    == 64 || spc == 128)
                &&& bs.bpb.num_fats > 0
                &&& 0 < total <= sector_count
                &&& fat > 0
            }),
            r is Err ==> r == Err::<FatFs, Error>(Error::InvalidArgument),
            r matches Ok(fs) ==> fs == geometry_of(*bs) && fs.wf(),
    {
        proof {
            lemma_boot_params_by_fields(*bs, sector_count);
        }
        let bpb = &bs.bpb;
        let sector_size = bpb.sector_size;
        let rootdir_entries = bpb.rootdir_entries;
        let first_fat_sector = bpb.reserved_sectors;
        if !(first_fat_sector > 0) {
            return Err(Error::InvalidArgument);
        }
        let sectors_per_cluster = bpb.sectors_per_cluster;
        if !(sectors_per_cluster > 0 && power_of_two(sectors_per_cluster as u32)) {
            return Err(Error::InvalidArgument);
        }
        let num_fats = bpb.num_fats;
        if !(num_fats > 0) {
            return Err(Error::InvalidArgument);
        }
        let total_sectors: u32 = if bpb.total_sectors_16 != 0 {
            bpb.total_sectors_16 as u32
        } else {
            bpb.total_sectors_32
        };
        if !(0 < total_sectors && (total_sectors as u64) <= sector_count) {
            return Err(Error::InvalidArgument);
        }
        let fat_sectors: u32 = if bpb.fat_sectors_16 != 0 {
            bpb.fat_sectors_16 as u32
        } else {
            bs.bpb32.fat_sectors_32
        };
        if !(fat_sectors > 0) {
            return Err(Error::InvalidArgument);
        }
        assert(bs.bpb.num_fats * fat_sectors <= first_rootdir_sector(*bs)) by (nonlinear_arith)
            requires
                first_rootdir_sector(*bs) == bs.bpb.reserved_sectors + bs.bpb.num_fats * fat_sectors,
        ;
        assert(rootdir_sectors(*bs) >= 0) by (nonlinear_arith)
            requires
                bs.bpb.sector_size >= 512,
                rootdir_sectors(*bs) == (bs.bpb.rootdir_entries * 32 + bs.bpb.sector_size - 1) / (
                bs.bpb.sector_size as int),
        ;
        let first_rootdir_sector = (first_fat_sector as u32) + ((num_fats as u32) * fat_sectors);
        let rootdir_sectors: u32 = ((rootdir_entries as u32) * 32 + (sector_size as u32 - 1)) / (
        sector_size as u32);
        let first_data_sector = first_rootdir_sector + rootdir_sectors;
        let data_sectors = total_sectors - first_data_sector;
        let cluster_count = data_sectors / (sectors_per_cluster as u32);
        let fat_type = FatType::from_cluster_count(cluster_count, first_rootdir_sector, &bs.bpb32);
        assert(sector_size as u32 * sectors_per_cluster as u32 <= 4096 * 255) by (nonlinear_arith)
            requires
                sector_size <= 4096,
        ;
        Ok(
            FatFs {
                fat_type,
                sector_size,
                sectors_per_cluster,
                cluster_size: sector_size as u32 * sectors_per_cluster as u32,
                cluster_count,
                first_fat_sector: first_fat_sector as i64,
                first_data_sector,
                rootdir_entries,
                num_fats,
                fat_sectors,
            },
        )
    }
}

} // verus!

verus! {

/// Every data cluster of a volume lies within it: the bytes of cluster
/// `cluster`, for `2 <= cluster <= cluster_count + 1`, end at or before the
/// end of the volume's total sectors.
pub proof fn lemma_data_clusters_within_volume(bs: BootSector, cluster: u32)
    requires
        valid_sector_size(bs.bpb.sector_size),
        bs.bpb.sectors_per_cluster > 0,
        layout_fits(bs),
        2 <= cluster <= cluster_count(bs) + 1,
    ensures
        geometry_of(bs).cluster_addr(cluster) + geometry_of(bs).cluster_size <= total_sectors(bs)
            * bs.bpb.sector_size,
{
    let spc = bs.bpb.sectors_per_cluster as int;
    let ss = bs.bpb.sector_size as int;
    let data = total_sectors(bs) - first_data_sector(bs);
    let cc = cluster_count(bs);
    let fd = first_data_sector(bs);
    assert(0 <= fd) by (nonlinear_arith)
        requires
            fd == first_rootdir_sector(bs) + rootdir_sectors(bs),
            first_rootdir_sector(bs) == bs.bpb.reserved_sectors + bs.bpb.num_fats * fat_sectors(
                bs,
            ),
            rootdir_sectors(bs) == (bs.bpb.rootdir_entries * 32 + ss - 1) / ss,
            ss >= 512,
    ;
    assert(cc * spc <= data) by (nonlinear_arith)
        requires
            spc > 0,
            data >= 0,
            cc == data / spc,
    ;
    assert(((cluster - 2) * spc + fd) * ss + ss * spc <= total_sectors(bs) * ss) by (nonlinear_arith)
        requires
            0 <= cluster - 2 <= cc - 1,
            cc * spc <= data,
            data == total_sectors(bs) - fd,
            spc > 0,
            ss > 0,
    ;
    assert(ss * spc <= 4096 * 255) by (nonlinear_arith)
        requires
            0 < ss <= 4096,
            0 < spc <= 255,
    ;
}

/// The regions of a volume as its geometry lays them out: the data sectors
/// start after the reserved sectors, the FATs and a root directory region
/// just large enough (in whole sectors) for `rootdir_entries` entries of 32
/// bytes; clusters are `sector_size * sectors_per_cluster` bytes; and the
/// cluster count is the number of whole clusters that fit in the sectors
/// after the data start.
pub proof fn lemma_volume_regions(bs: BootSector)
    requires
        valid_sector_size(bs.bpb.sector_size),
        bs.bpb.sectors_per_cluster > 0,
        layout_fits(bs),
    ensures
        ({
            let g = geometry_of(bs);
            let ss = bs.bpb.sector_size as int;
            let spc = bs.bpb.sectors_per_cluster as int;
            let fats_end = bs.bpb.reserved_sectors + bs.bpb.num_fats * fat_sectors(bs);
            let root_bytes = bs.bpb.rootdir_entries * 32;
            &&& g.cluster_size == ss * spc
            &&& g.first_fat_sector == bs.bpb.reserved_sectors
            &&& (g.first_data_sector - fats_end) * ss >= root_bytes
            &&& (g.first_data_sector - fats_end) * ss < root_bytes + ss
            &&& g.first_data_sector + g.cluster_count * spc <= total_sectors(bs)
            &&& g.first_data_sector + (g.cluster_count + 1) * spc > total_sectors(bs)
        }),
{
    let ss = bs.bpb.sector_size as int;
    let spc = bs.bpb.sectors_per_cluster as int;
    let fats_end = bs.bpb.reserved_sectors + bs.bpb.num_fats * fat_sectors(bs);
    let root_bytes = bs.bpb.rootdir_entries * 32;
    let rs = rootdir_sectors(bs);
    assert(0 <= fats_end) by (nonlinear_arith)
        requires
            fats_end == bs.bpb.reserved_sectors + bs.bpb.num_fats * fat_sectors(bs),
    ;
    assert(rs * ss >= root_bytes && rs * ss < root_bytes + ss && rs >= 0) by (nonlinear_arith)
        requires
            ss >= 512,
            root_bytes >= 0,
            rs == (root_bytes + ss - 1) / ss,
    ;
    let fd = first_data_sector(bs);
    let data = total_sectors(bs) - fd;
    let cc = cluster_count(bs);
    assert(cc * spc <= data && (cc + 1) * spc > data) by (nonlinear_arith)
        requires
            spc > 0,
            data >= 0,
            cc == data / spc,
    ;
    assert(ss * spc <= 4096 * 255) by (nonlinear_arith)
        requires
            0 < ss <= 4096,
            0 < spc <= 255,
    ;
}

} // verus!
