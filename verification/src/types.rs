//! Logic structures for FAT: the FAT variant, decoded FAT entries and
//! classified directory entries.

use vstd::prelude::*;
use crate::defs::{
    fits, is_raw_dentry_at, BiosParamBlockFat32, RawFatDirEntry, ATTR_DIRECTORY, ATTR_LONG_NAME,
    ATTR_LONG_NAME_MASK, ATTR_SYSTEM,
    ATTR_VOLUME_ID, FAT_DENTRY_FREE, FAT_DENTRY_FREE_CONSECUTIVE, FAT_DENTRY_SIZE,
    MIN_FAT16_CLUSTERS, MIN_FAT32_CLUSTERS,
};
use crate::error::Error;
use crate::long_name::{long_units_at, RegularFatLongDirEntry};
use crate::fat_time::{fat_nanoseconds, fat_seconds, timespec_from_fat};
use crate::time::Timespec;

verus! {

/// The FAT variant of a volume, decided by its cluster count.
#[derive(Copy, Clone, Debug, PartialEq, Eq, Structural)]
pub enum FatType {
    FAT12,
    FAT16,
    FAT32 { root_cluster: u32 },
}

/// The FAT variant of a volume with `cluster_count` data clusters, whose
/// FAT32 parameter block names `root_cluster` as the root directory.
pub open spec fn fat_type_for(cluster_count: u32, root_cluster: u32) -> FatType {
    if cluster_count < MIN_FAT16_CLUSTERS {
        FatType::FAT12
    } else if cluster_count < MIN_FAT32_CLUSTERS {
        FatType::FAT16
    } else {
        FatType::FAT32 { root_cluster }
    }
}

impl FatType {
    /// Decides the FAT variant from the number of data clusters.
    pub fn from_cluster_count(
        cluster_count: u32,
        _first_rootdir_sector: u32,
        bpb32: &BiosParamBlockFat32,
    ) -> (t: FatType)
        ensures
            t == fat_type_for(cluster_count, bpb32.root_cluster),
    {
        if cluster_count < MIN_FAT16_CLUSTERS {
            FatType::FAT12
        } else if cluster_count < MIN_FAT32_CLUSTERS {
            FatType::FAT16
        } else {
            let root_cluster = bpb32.root_cluster;
            FatType::FAT32 { root_cluster }
        }
    }
}

/// The meaning of one FAT entry: the next cluster of a chain, the end of a
/// chain, or a bad cluster.
#[derive(Copy, Clone, Debug, PartialEq, Eq, Structural)]
pub enum FatEntry {
    Next(u32),
    End,
    Bad,
}

/// The smallest entry value that marks the end of a chain for a FAT variant;
/// the value just below it marks a bad cluster.
pub open spec fn fat_end_marker(fat_type: FatType) -> u32 {
    match fat_type {
        FatType::FAT12 => 0x0FF8,
        FatType::FAT16 => 0xFFF8,
        FatType::FAT32 { .. } => 0x0FFFFFF8,
    }
}

/// The meaning of the FAT entry value `entry` for a FAT variant.
pub open spec fn fat_entry_meaning(fat_type: FatType, entry: u32) -> FatEntry {
    if entry >= fat_end_marker(fat_type) {
        FatEntry::End
    } else if entry == fat_end_marker(fat_type) - 1 {
        FatEntry::Bad
    } else {
        FatEntry::Next(entry)
    }
}

/// The FAT entry values, per FAT variant: a FAT12 entry ends its chain from
/// 0xFF8 on and marks a bad cluster at 0xFF7, a FAT16 entry from 0xFFF8 and
/// at 0xFFF7, a FAT32 entry from 0x0FFFFFF8 and at 0x0FFFFFF7; every smaller
/// value names the next cluster.
pub proof fn lemma_fat_entry_values(fat_type: FatType, entry: u32)
    ensures
        ({
            let end: int = match fat_type {
                FatType::FAT12 => 0xFF8,
                FatType::FAT16 => 0xFFF8,
                FatType::FAT32 { .. } => 0x0FFF_FFF8,
            };
            &&& entry >= end <==> fat_entry_meaning(fat_type, entry) == FatEntry::End
            &&& entry == end - 1 <==> fat_entry_meaning(fat_type, entry) == FatEntry::Bad
            &&& entry < end - 1 <==> fat_entry_meaning(fat_type, entry) == FatEntry::Next(entry)
        }),
{
}

impl FatEntry {
    /// Decodes the FAT entry value `entry`.
    pub fn from_bytes(fat_type: &FatType, entry: u32) -> (e: FatEntry)
        ensures
            e == fat_entry_meaning(*fat_type, entry),
    {
        match fat_type {
            FatType::FAT12 => {
                if entry >= 0x0FF8 {
                    FatEntry::End
                } else if entry == 0x0FF7 {
                    FatEntry::Bad
                } else {
                    FatEntry::Next(entry)
                }
            },
            FatType::FAT16 => {
                if entry >= 0xFFF8 {
                    FatEntry::End
                } else if entry == 0xFFF7 {
                    FatEntry::Bad
                } else {
                    FatEntry::Next(entry)
                }
            },
            FatType::FAT32 { root_cluster: _ } => {
                if entry >= 0x0FFFFFF8 {
                    FatEntry::End
                } else if entry == 0x0FFFFFF7 {
                    FatEntry::Bad
                } else {
                    FatEntry::Next(entry)
                }
            },
        }
    }
}

/// A directory entry classified by its first name byte and its attributes.
#[derive(Copy, Clone, Debug)]
pub enum FatDirEntry {
    /// The directory entry is free.
    Free,
    /// This directory entry and all following directory entries are free.
    FreeConsecutive,
    /// This is an occupied entry of either a file or directory.
    Entry(RegularFatDirEntry),
    /// A slot holding part of the long name of the entry that follows.
    LongEntry(RegularFatLongDirEntry),
    /// Some other entry: a volume label or a system entry.
    Other,
}

/// Whether `d` is the classification of the directory entry stored in `s` at `o`.
pub open spec fn is_dir_entry_at(d: FatDirEntry, s: Seq<u8>, o: int) -> bool {
    let first = s[o];
    let attributes = s[o + 11];
    if first == FAT_DENTRY_FREE {
        d is Free
    } else if first == FAT_DENTRY_FREE_CONSECUTIVE {
        d is FreeConsecutive
    } else if attributes & ATTR_LONG_NAME_MASK == ATTR_LONG_NAME {
        d matches FatDirEntry::LongEntry(l) && l.name@ == long_units_at(s, o)
    } else if attributes & (ATTR_SYSTEM | ATTR_VOLUME_ID) != 0 {
        d is Other
    } else {
        d matches FatDirEntry::Entry(e) && is_raw_dentry_at(e.0, s, o)
    }
}

/// Which occupied slots hold a file or directory entry, in terms of the slot's
/// first byte and attribute byte alone: a slot that is neither free (first
/// byte 0xE5 or 0x00) nor a long-name slot (attributes & 0x3F == 0x0F) is a
/// file or directory entry exactly when neither its system (0x04) nor its
/// volume label (0x08) bit is set. The read-only, hidden, directory and
/// archive bits never make it anything else.
pub proof fn lemma_entry_classified_by_attributes(d: FatDirEntry, s: Seq<u8>, o: int)
    requires
        is_dir_entry_at(d, s, o),
    ensures
        s[o] != 0xE5u8 && s[o] != 0x00u8 && s[o + 11] & 0x3Fu8 != 0x0Fu8 ==> (d is Entry <==> s[o
            + 11] & 0x0Cu8 == 0),
        s[o] == 0xE5u8 ==> d is Free,
        s[o] == 0x00u8 ==> d is FreeConsecutive,
        s[o] != 0xE5u8 && s[o] != 0x00u8 && s[o + 11] & 0x3Fu8 == 0x0Fu8 ==> d is LongEntry,
{
    assert(ATTR_SYSTEM | ATTR_VOLUME_ID == 0x0Cu8) by (bit_vector);
}

impl FatDirEntry {
    /// Reads and classifies the directory entry at `offset`; `None` if it
    /// does not fit in `data`.
    pub fn from_bytes(data: &[u8], offset: usize) -> (r: Option<FatDirEntry>)
        ensures
            r is Some <==> fits(data@.len() as int, offset as int, FAT_DENTRY_SIZE as int),
            r matches Some(d) ==> is_dir_entry_at(d, data@, offset as int),
            r matches Some(d) ==> ({
                let first = data@[offset as int];
                let attr = data@[offset + 11];
                first != 0xE5u8 && first != 0x00u8 && attr & 0x3Fu8 != 0x0Fu8 ==> (d is Entry
                    <==> attr & 0x0Cu8 == 0)
            }),
    {
        assert(ATTR_SYSTEM | ATTR_VOLUME_ID == 0x0Cu8) by (bit_vector);
        let entry = match RawFatDirEntry::from_bytes(data, offset) {
            Some(e) => e,
            None => return None,
        };
        assert(entry.short_name@[0] == data@[offset as int]);
        match entry.short_name[0] {
            FAT_DENTRY_FREE => return Some(FatDirEntry::Free),
            FAT_DENTRY_FREE_CONSECUTIVE => return Some(FatDirEntry::FreeConsecutive),
            _ => {},
        }
        let attributes = entry.attributes;
        if attributes & ATTR_LONG_NAME_MASK == ATTR_LONG_NAME {
            let long = RegularFatLongDirEntry::from_bytes(data, offset).unwrap();
            return Some(FatDirEntry::LongEntry(long));
        }
        if attributes & (ATTR_SYSTEM | ATTR_VOLUME_ID) != 0 {
            return Some(FatDirEntry::Other);
        }
        Some(FatDirEntry::Entry(RegularFatDirEntry(entry)))
    }
}

/// An occupied directory entry of a file or a directory.
#[derive(Copy, Clone, Debug)]
pub struct RegularFatDirEntry(pub RawFatDirEntry);

/// The length of `s` without its trailing spaces.
pub open spec fn trimmed_len(s: Seq<u8>) -> nat
    decreases s.len(),
{
    if s.len() == 0 {
        0
    } else if s.last() != 0x20u8 {
        s.len()
    } else {
        trimmed_len(s.drop_last())
    }
}

/// The stored 11-byte name with an escaped first byte `0x05` restored to `0xE5`.
pub open spec fn unescaped_short_name(raw: Seq<u8>) -> Seq<u8> {
    if raw[0] == 0x05u8 {
        raw.update(0, 0xE5u8)
    } else {
        raw
    }
}

/// The base name of a stored 8.3 name: its first 8 bytes without trailing spaces.
pub open spec fn short_base(raw: Seq<u8>) -> Seq<u8> {
    let n = unescaped_short_name(raw);
    n.take(trimmed_len(n.take(8)) as int)
}

/// The extension of a stored 8.3 name: its last 3 bytes without trailing spaces.
pub open spec fn short_ext(raw: Seq<u8>) -> Seq<u8> {
    let n = unescaped_short_name(raw);
    n.subrange(8, 8 + trimmed_len(n.subrange(8, 11)) as int)
}

/// The display form of a stored 8.3 name: `BASE.EXT`, or `BASE` without an extension.
pub open spec fn short_display_name(raw: Seq<u8>) -> Seq<u8> {
    if short_ext(raw).len() > 0 {
        short_base(raw) + seq![0x2Eu8] + short_ext(raw)
    } else {
        short_base(raw)
    }
}

/// `n` space bytes.
pub open spec fn spaces(n: nat) -> Seq<u8> {
    Seq::new(n, |i: int| 0x20u8)
}

/// Trimming never lengthens a name: `trimmed_len(s) <= s.len()`.
pub proof fn lemma_trimmed_len_bound(s: Seq<u8>)
    ensures
        trimmed_len(s) <= s.len(),
    decreases s.len(),
{
    if s.len() > 0 && s.last() == 0x20u8 {
        lemma_trimmed_len_bound(s.drop_last());
    }
}

/// The length of `name[start..end]` without its trailing spaces.
fn get_name_len(name: &[u8; 11], start: usize, end: usize) -> (len: usize)
    requires
        start <= end <= 11,
    ensures
        len == trimmed_len(name@.subrange(start as int, end as int)),
        len <= end - start,
{
    let mut i = end;
    while i > start && name[i - 1] == 0x20u8
        invariant
            start <= i <= end <= 11,
            trimmed_len(name@.subrange(start as int, end as int)) == trimmed_len(
                name@.subrange(start as int, i as int),
            ),
        decreases i,
    {
        assert(name@.subrange(start as int, i as int).drop_last() =~= name@.subrange(
            start as int,
            i - 1,
        ));
        i -= 1;
    }
    proof {
        lemma_trimmed_len_bound(name@.subrange(start as int, i as int));
    }
    i - start
}

impl RegularFatDirEntry {
    /// The display form of the 8.3 name, padded with spaces to 12 bytes,
    /// and its length without the padding.
    pub fn name(&self) -> (r: ([u8; 12], usize))
        ensures
            r.1 == short_display_name(self.0.short_name@).len(),
            r.1 <= 12,
            r.0@ == short_display_name(self.0.short_name@) + spaces((12 - r.1) as nat),
    {
        let mut name = self.0.short_name;
        if name[0] == 0x05 {
            name[0] = 0xE5;
        }
        let ghost n = unescaped_short_name(self.0.short_name@);
        assert(name@ =~= n);
        let base_len = get_name_len(&name, 0, 8);
        let ext_len = get_name_len(&name, 8, 11);
        assert(name@.subrange(0, 8) =~= name@.take(8));
        let mut short_name = [0x20u8; 12];
        let mut i: usize = 0;
        while i < base_len
            invariant
                base_len <= 8,
                i <= base_len,
                forall|j: int| 0 <= j < i ==> short_name@[j] == name@[j],
                forall|j: int| i <= j < 12 ==> short_name@[j] == 0x20u8,
            decreases base_len - i,
        {
            short_name[i] = name[i];
            i += 1;
        }
        let len = if ext_len > 0 {
            short_name[base_len] = 0x2Eu8;
            let mut k: usize = 0;
            while k < ext_len
                invariant
                    base_len <= 8,
                    ext_len <= 3,
                    k <= ext_len,
                    forall|j: int| 0 <= j < base_len ==> short_name@[j] == name@[j],
                    short_name@[base_len as int] == 0x2Eu8,
                    forall|j: int|
                        base_len + 1 <= j < base_len + 1 + k ==> #[trigger] short_name@[j] == name@[j
                            + 7 - base_len],
                    forall|j: int| base_len + 1 + k <= j < 12 ==> short_name@[j] == 0x20u8,
                decreases ext_len - k,
            {
                short_name[base_len + 1 + k] = name[8 + k];
                k += 1;
            }
            base_len + 1 + ext_len
        } else {
            base_len
        };
        assert(short_name@ =~= short_display_name(self.0.short_name@) + spaces((12 - len) as nat));
        (short_name, len)
    }

    /// Returns whether the entry represents a file (and a directory otherwise).
    pub fn is_file(&self) -> (r: bool)
        ensures
            r == (self.0.attributes & ATTR_DIRECTORY == 0),
    {
        let attributes = self.0.attributes;
        attributes & ATTR_DIRECTORY == 0
    }

    /// The first cluster of the entry's data: the high and low halves combined.
    pub fn first_cluster(&self) -> (c: u32)
        ensures
            c == self.0.first_cluster_hi * 65536 + self.0.first_cluster_lo,
    {
        let hi = self.0.first_cluster_hi as u32;
        let lo = self.0.first_cluster_lo as u32;
        assert(hi < 65536 ==> hi << 16 == hi * 65536) by (bit_vector);
        (hi << 16) + lo
    }

    /// The file size in bytes.
    pub fn file_size(&self) -> (s: u32)
        ensures
            s == self.0.file_size,
    {
        self.0.file_size
    }

    /// The creation time.
    pub fn ctime(&self) -> (r: Result<Timespec, Error>)
        ensures
            r matches Ok(t) && t.sec() == fat_seconds(
                self.0.creation_date,
                self.0.creation_time,
                self.0.creation_time_cs,
            ) && t.nsec() == fat_nanoseconds(self.0.creation_time_cs),
    {
        timespec_from_fat(self.0.creation_date, self.0.creation_time, self.0.creation_time_cs)
    }

    /// The time of the last write.
    pub fn mtime(&self) -> (r: Result<Timespec, Error>)
        ensures
            r matches Ok(t) && t.sec() == fat_seconds(self.0.write_date, self.0.write_time, 0)
                && t.nsec() == 0,
    {
        timespec_from_fat(self.0.write_date, self.0.write_time, 0)
    }

    /// The time of the last access, which FAT records as a date only.
    pub fn atime(&self) -> (r: Result<Timespec, Error>)
        ensures
            r matches Ok(t) && t.sec() == fat_seconds(self.0.access_date, 0, 0) && t.nsec() == 0,
    {
        timespec_from_fat(self.0.access_date, 0, 0)
    }
}

} // verus!
