//! Inodes and file data: the attributes of the root and of directory
//! entries, the device mapping of file positions, and read/write positions.

use vstd::prelude::*;
use crate::defs::{ATTR_DIRECTORY, FAT_DENTRY_SIZE};
use crate::error::Error;
use crate::fat_time::{fat_nanoseconds, fat_seconds};
use crate::fs::FatFs;
use crate::time::{abs, div_toward_zero, Timespec};
use crate::types::{FatType, RegularFatDirEntry};

verus! {

/// Mode bits: readable by user, group and others.
pub const S_IRUGO: u16 = 0o444;

/// Mode bits: writable by the user.
pub const S_IWUSR: u16 = 0o200;

/// Mode bits: a regular file.
pub const S_IFREG: u16 = 0o100000;

/// Mode bits: a directory.
pub const S_IFDIR: u16 = 0o040000;

/// The owner and group of every inode.
pub const FAT_OWNER_ID: u32 = 1000;

/// The attributes of a new inode.
#[derive(Copy, Clone)]
pub struct InodeParams {
    /// Whether the inode is a regular file (and a directory otherwise).
    pub is_file: bool,
    pub mode: u16,
    /// Size in bytes.
    pub size: i64,
    pub blocks: u64,
    pub nlink: u32,
    pub uid: u32,
    pub gid: u32,
    pub ctime: Timespec,
    pub mtime: Timespec,
    pub atime: Timespec,
}

/// The mode of a file (`is_file`) or a directory.
pub open spec fn inode_mode(is_file: bool) -> u16 {
    if is_file {
        (S_IRUGO | S_IFREG | S_IWUSR) as u16
    } else {
        (S_IRUGO | S_IFDIR) as u16
    }
}

/// The value of the signed 64-bit `v` read as unsigned: negative values wrap around.
pub open spec fn wrap_u64(v: int) -> int {
    if v >= 0 {
        v
    } else {
        v + 0x1_0000_0000_0000_0000
    }
}

/// The smallest multiple of `m` that is at least `x`.
pub open spec fn next_multiple_of(x: int, m: int) -> int {
    (x + m - 1) / m * m
}

fn mode_for(is_file: bool) -> (mode: u16)
    ensures
        mode == inode_mode(is_file),
{
    let mut mode = S_IRUGO;
    if is_file {
        mode |= S_IFREG;
        mode |= S_IWUSR;
    } else {
        mode |= S_IFDIR;
    }
    mode
}

/// How a file position maps to the device.
#[derive(Copy, Clone, Debug, PartialEq, Eq, Structural)]
pub enum IomapMapping {
    /// Past the end of the file: nothing is mapped.
    Hole { offset: i64, length: u64 },
    /// The cluster-sized range at `offset` lies at device byte `addr`.
    Mapped { offset: i64, length: u64, addr: u64 },
}

impl FatFs {
    /// The first cluster of the root directory's cluster chain; `None` where
    /// the root directory is a fixed region (FAT12/16).
    pub fn root_chain_start(&self) -> (r: Option<u32>)
        ensures
            r == (match self.fat_type {
                FatType::FAT32 { root_cluster } => Some(root_cluster),
                _ => None,
            }),
    {
        match self.fat_type {
            FatType::FAT32 { root_cluster } => Some(root_cluster),
            _ => None,
        }
    }

    /// The attributes of the root directory inode.
    ///
    /// On FAT32 the root directory is a cluster chain of `chain_len`
    /// clusters; on FAT12/16 it is a fixed region of `rootdir_entries`
    /// entries. The block count is in 512-byte units, of whole clusters.
    pub fn root_inode_params(&self, chain_len: Option<usize>) -> (p: InodeParams)
        requires
            self.wf(),
            chain_len is Some <==> self.fat_type is FAT32,
            chain_len matches Some(n) ==> n * self.cluster_size <= i64::MAX,
        ensures
            !p.is_file,
            p.mode == inode_mode(false),
            p.nlink == 1,
            p.uid == FAT_OWNER_ID,
            p.gid == FAT_OWNER_ID,
            p.ctime.sec() == 0 && p.ctime.nsec() == 0,
            p.mtime.sec() == 0 && p.mtime.nsec() == 0,
            p.atime.sec() == 0 && p.atime.nsec() == 0,
            match chain_len {
                Some(n) => p.blocks == n * self.cluster_size / 512 && p.size == n * self.cluster_size,
                None => p.size == self.rootdir_entries * 32 && p.blocks == next_multiple_of(
                    self.rootdir_entries * 32,
                    self.cluster_size as int,
                ) / 512,
            },
    {
        let size: i64;
        let blocks: u64;
        match chain_len {
            Some(n) => {
                assert(self.cluster_size >= 1) by (nonlinear_arith)
                    requires
                        self.cluster_size == self.sector_size * self.sectors_per_cluster,
                        self.sector_size >= 512,
                        self.sectors_per_cluster > 0,
                ;
                assert(n <= n * self.cluster_size) by (nonlinear_arith)
                    requires
                        self.cluster_size >= 1,
                ;
                size = n as i64 * self.cluster_size as i64;
                blocks = size as u64 / 512;
            },
            None => {
                size = self.rootdir_entries as i64 * FAT_DENTRY_SIZE as i64;
                let s = size as u64;
                let cs = self.cluster_size as u64;
                assert(cs > 0) by (nonlinear_arith)
                    requires
                        cs == self.sector_size * self.sectors_per_cluster,
                        self.sector_size >= 512,
                        self.sectors_per_cluster > 0,
                ;
                let q = (s + cs - 1) / cs;
                assert(q * cs <= s + cs - 1) by (nonlinear_arith)
                    requires
                        cs > 0,
                        q == (s + cs - 1) / (cs as int),
                ;
                let rounded = q * cs;
                blocks = rounded / 512;
            },
        }
        let t = Timespec::new(0, 0).unwrap();
        InodeParams {
            is_file: false,
            mode: mode_for(false),
            size,
            blocks,
            nlink: 1,
            uid: FAT_OWNER_ID,
            gid: FAT_OWNER_ID,
            ctime: t,
            mtime: t,
            atime: t,
        }
    }

    /// The first cluster of the cluster chain holding `entry`'s data; `None`
    /// for an empty file, which has no clusters.
    pub fn entry_chain_start(entry: &RegularFatDirEntry) -> (r: Option<u32>)
        ensures
            r == (if entry.0.file_size == 0 && entry.0.attributes & ATTR_DIRECTORY == 0 {
                None
            } else {
                Some((entry.0.first_cluster_hi * 65536 + entry.0.first_cluster_lo) as u32)
            }),
    {
        if entry.file_size() == 0 && entry.is_file() {
            None
        } else {
            Some(entry.first_cluster())
        }
    }

    /// The attributes of the inode of directory entry `entry`, whose data
    /// is a cluster chain of `chain_len` clusters (`None` for an empty file).
    ///
    /// A file's size is its recorded size; a directory's size is its chain
    /// length in bytes. The block count is the chain's size in 512-byte
    /// units. A chain longer than `i64::MAX` clusters is an invalid argument
    /// for a directory.
    pub fn entry_inode_params(&self, entry: &RegularFatDirEntry, chain_len: Option<usize>) -> (r:
        Result<InodeParams, Error>)
        requires
            chain_len is None <==> (entry.0.file_size == 0 && entry.0.attributes & ATTR_DIRECTORY == 0),
            chain_len matches Some(n) ==> n * self.cluster_size <= u64::MAX,
            chain_len matches Some(n) ==> (entry.0.attributes & ATTR_DIRECTORY != 0 && n <= i64::MAX
                ==> n * self.cluster_size <= i64::MAX),
        ensures
            ({
                let is_file = entry.0.attributes & ATTR_DIRECTORY == 0;
                let chain: int = match chain_len {
                    Some(n) => n as int,
                    None => 0,
                };
                if !is_file && chain > i64::MAX {
                    r == Err::<InodeParams, Error>(Error::InvalidArgument)
                } else {
                    r matches Ok(p) && p.is_file == is_file && p.mode == inode_mode(is_file)
                        && p.blocks == chain * self.cluster_size / 512 && p.size == (if is_file {
                        entry.0.file_size as int
                    } else {
                        chain * self.cluster_size
                    }) && p.nlink == 1 && p.uid == FAT_OWNER_ID && p.gid == FAT_OWNER_ID
                        && p.ctime.sec() == fat_seconds(
                        entry.0.creation_date,
                        entry.0.creation_time,
                        entry.0.creation_time_cs,
                    ) && p.ctime.nsec() == fat_nanoseconds(entry.0.creation_time_cs)
                        && p.mtime.sec() == fat_seconds(entry.0.write_date, entry.0.write_time, 0)
                        && p.mtime.nsec() == 0 && p.atime.sec() == fat_seconds(
                        entry.0.access_date,
                        0,
                        0,
                    ) && p.atime.nsec() == 0
                }
            }),
    {
        let chain: u64 = match chain_len {
            Some(n) => n as u64,
            None => 0,
        };
        let blocks: u64 = chain * self.cluster_size as u64 / 512;
        let is_file = entry.is_file();
        let size: i64 = if is_file {
            entry.file_size() as i64
        } else {
            if chain > i64::MAX as u64 {
                return Err(Error::InvalidArgument);
            }
            let b = chain as i64;
            let cluster_size = self.cluster_size as i64;
            b * cluster_size
        };
        let ctime = match entry.ctime() {
            Ok(t) => t,
            Err(e) => return Err(e),
        };
        let mtime = match entry.mtime() {
            Ok(t) => t,
            Err(e) => return Err(e),
        };
        let atime = match entry.atime() {
            Ok(t) => t,
            Err(e) => return Err(e),
        };
        Ok(
            InodeParams {
                is_file,
                mode: mode_for(is_file),
                size,
                blocks,
                nlink: 1,
                uid: FAT_OWNER_ID,
                gid: FAT_OWNER_ID,
                ctime,
                mtime,
                atime,
            },
        )
    }
    /// The first sector of the FAT12/16 root directory, right after the FATs.
    pub open spec fn rootdir_start_sector(&self) -> int {
        self.first_fat_sector + self.num_fats * self.fat_sectors
    }

    /// The device byte address of data cluster `cluster`.
    pub open spec fn cluster_addr(&self, cluster: u32) -> int {
        ((cluster - 2) * self.sectors_per_cluster + self.first_data_sector) * self.sector_size
    }

    /// The index, within a file, of the cluster that holds file position
    /// `pos` (rounded toward zero, as signed division does).
    pub open spec fn cluster_index(&self, pos: int) -> int {
        div_toward_zero(pos, self.cluster_size as int)
    }

    /// Maps the file position `pos` of an inode of `size` bytes to the
    /// device, for a request of `length` bytes.
    ///
    /// At or past the end of the file the request is a hole (a negative
    /// `length` there is an invalid argument). Otherwise the cluster holding
    /// `pos` is mapped: the `clusters` of the inode's chain name it, or, for
    /// the FAT12/16 root directory (no chain), it lies in the fixed root
    /// directory region. The device address is an unsigned 64-bit value, so a
    /// negative byte offset into that region wraps around.
    pub fn iomap_begin(&self, size: i64, pos: i64, length: i64, clusters: Option<&Vec<u32>>) -> (r:
        Result<IomapMapping, Error>)
        requires
            self.wf(),
            pos < size ==> match clusters {
                Some(c) => 0 <= self.cluster_index(pos as int) < c@.len() && c@[self.cluster_index(
                    pos as int,
                )] >= 2,
                None => self.cluster_index(pos as int) >= 0 || self.rootdir_start_sector()
                    * self.sector_size + self.cluster_index(pos as int) * self.cluster_size < 0,
            },
        ensures
            pos >= size && length < 0 ==> r == Err::<IomapMapping, Error>(Error::InvalidArgument),
            pos >= size && length >= 0 ==> r == Ok::<IomapMapping, Error>(
                IomapMapping::Hole { offset: pos, length: length as u64 },
            ),
            pos < size ==> ({
                let index = self.cluster_index(pos as int);
                let addr = match clusters {
                    Some(c) => self.cluster_addr(c@[index]),
                    None => self.rootdir_start_sector() * self.sector_size + wrap_u64(
                        index * self.cluster_size,
                    ),
                };
                r == Ok::<IomapMapping, Error>(
                    IomapMapping::Mapped {
                        offset: (index * self.cluster_size) as i64,
                        length: self.cluster_size as u64,
                        addr: addr as u64,
                    },
                )
            }),
    {
        if pos >= size {
            if length < 0 {
                return Err(Error::InvalidArgument);
            }
            return Ok(IomapMapping::Hole { offset: pos, length: length as u64 });
        }
        let sector_size = self.sector_size as u64;
        let cluster_size = self.cluster_size as i64;
        assert(cluster_size >= 512) by (nonlinear_arith)
            requires
                cluster_size == self.sector_size * self.sectors_per_cluster,
                self.sector_size >= 512,
                self.sectors_per_cluster > 0,
        ;
        let cluster_index = pos / cluster_size;
        proof {
            let a = abs(pos as int);
            let q = a / (cluster_size as int);
            assert(cluster_index as int == self.cluster_index(pos as int));
            assert(0 <= q * cluster_size <= a) by (nonlinear_arith)
                requires
                    a >= 0,
                    cluster_size > 0,
                    q == a / (cluster_size as int),
            ;
            assert(cluster_index * cluster_size == if pos >= 0 { q * cluster_size } else { -(q
                * cluster_size) }) by (nonlinear_arith)
                requires
                    cluster_index == if pos >= 0 { q } else { -q },
            ;
        }
        let cluster_offset: u64 = match clusters {
            Some(clusters) => {
                let sectors_per_cluster = self.sectors_per_cluster as u64;
                let first_data_sector = self.first_data_sector as u64;
                let n = clusters.len();
                assert(0 <= cluster_index < n);
                let idx = cluster_index as usize;
                assert(idx as int == cluster_index as int);
                assert(clusters@[idx as int] >= 2);
                let cluster = clusters[idx] as u64;
                assert(((cluster - 2) * sectors_per_cluster + first_data_sector) * sector_size
                    <= (0xFFFF_FFFF * 0xFF + 0xFFFF_FFFF) * 4096) by (nonlinear_arith)
                    requires
                        2 <= cluster <= 0xFFFF_FFFF,
                        sectors_per_cluster <= 0xFF,
                        first_data_sector <= 0xFFFF_FFFF,
                        sector_size <= 4096,
                ;
                assert((cluster - 2) * sectors_per_cluster <= 0xFFFF_FFFF * 0xFF) by (nonlinear_arith)
                    requires
                        2 <= cluster <= 0xFFFF_FFFF,
                        sectors_per_cluster <= 0xFF,
                ;
                let first_cluster_sector = ((cluster - 2) * sectors_per_cluster) + first_data_sector;
                first_cluster_sector * sector_size
            },
            None => {
                let num_fats = self.num_fats as u64;
                let fat_sectors = self.fat_sectors as u64;
                assert(num_fats * fat_sectors <= 0xFF * 0xFFFF_FFFF) by (nonlinear_arith)
                    requires
                        num_fats <= 0xFF,
                        fat_sectors <= 0xFFFF_FFFF,
                ;
                let first_rootdir_sector = (self.first_fat_sector as u64) + (num_fats * fat_sectors);
                assert(first_rootdir_sector * sector_size <= (0xFFFF + 0xFF * 0xFFFF_FFFF) * 4096)
                    by (nonlinear_arith)
                    requires
                        first_rootdir_sector <= 0xFFFF + 0xFF * 0xFFFF_FFFF,
                        sector_size <= 4096,
                ;
                let within = cluster_index * cluster_size;
                proof {
                    assert(within < 0 ==> within as u64 == 0xFFFF_FFFF_FFFF_FFFFu64 - ((-(within
                        + 1)) as u64)) by (bit_vector);
                }
                (first_rootdir_sector * sector_size) + #[verifier::truncate] (within as u64)
            },
        };
        Ok(
            IomapMapping::Mapped {
                offset: cluster_index * cluster_size,
                length: cluster_size as u64,
                addr: cluster_offset,
            },
        )
    }
}

/// The number of bytes left to read at `offset` in a file of `size` bytes;
/// `None` when `offset` lies past the end.
pub fn read_len(size: i64, offset: i64) -> (r: Option<usize>)
    requires
        offset <= size ==> size - offset <= i64::MAX,
    ensures
        offset > size ==> r is None,
        offset <= size ==> r == Some((size - offset) as usize),
{
    if offset > size {
        return None;
    }
    Some((size - offset) as usize)
}

/// One read step: of the `rem` bytes left, at most the `folio_len` bytes
/// of the current folio are read; returns the count and the position after
/// it (the count taken as a signed 64-bit value).
pub fn read_step(rem: usize, folio_len: usize, offset: i64) -> (r: (usize, i64))
    requires
        i64::MIN <= offset + ((if rem < folio_len { rem } else { folio_len }) as i64) <= i64::MAX,
    ensures
        r.0 == (if rem < folio_len { rem } else { folio_len }),
        r.1 == offset + (r.0 as i64),
{
    let n = if rem < folio_len { rem } else { folio_len };
    (n, offset + #[verifier::truncate] (n as i64))
}

/// The file position, and new file size, after writing `len` bytes at
/// position 0: writes start at the beginning of the file.
pub fn write_end(offset: i64, len: usize) -> (end: i64)
    requires
        offset == 0,
    ensures
        end == len as i64,
{
    offset + len as i64
}


} // verus!
