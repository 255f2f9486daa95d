//! The file allocation table: where each cluster's entry lies, how an entry
//! decodes, and how a cluster chain is followed.

use vstd::prelude::*;
use crate::defs::{fits, le_u16_at, le_u32_at, read_le_u16, read_le_u32};
use crate::error::Error;
use crate::fs::FatFs;
use crate::types::{fat_entry_meaning, FatEntry, FatType};

verus! {

impl FatFs {
    /// The size in bytes of one FAT entry (FAT16 and FAT32).
    pub open spec fn fat_entry_width(&self) -> int {
        match self.fat_type {
            FatType::FAT32 { .. } => 4,
            _ => 2,
        }
    }

    /// Whether `cluster` names a data cluster: at least 2 and at most `cluster_count + 1`.
    pub open spec fn cluster_in_range(&self, cluster: u32) -> bool {
        2 <= cluster <= self.cluster_count + 1
    }

    /// The byte offset of `cluster`'s entry from the start of the FAT.
    pub open spec fn fat_offset(&self, cluster: u32) -> int {
        cluster * self.fat_entry_width()
    }

    /// The device byte position of the sector holding `cluster`'s FAT entry.
    pub open spec fn fat_sector_pos(&self, cluster: u32) -> int {
        (self.first_fat_sector + self.fat_offset(cluster) / (self.sector_size as int))
            * self.sector_size
    }

    /// The offset of `cluster`'s FAT entry within its sector.
    pub open spec fn fat_entry_offset(&self, cluster: u32) -> int {
        self.fat_offset(cluster) % (self.sector_size as int)
    }

    /// Locates the FAT entry of `cluster`: the device byte position of the
    /// sector that holds it and its offset within that sector.
    ///
    /// A cluster outside `2..=cluster_count + 1` is an invalid argument.
    /// FAT12 entries (packed 12-bit values) are not located.
    pub fn fat_entry_location(&self, cluster: u32) -> (r: Result<(i64, usize), Error>)
        requires
            self.wf(),
            self.fat_type is FAT12 ==> !self.cluster_in_range(cluster),
            self.cluster_in_range(cluster) ==> self.fat_offset(cluster) <= u32::MAX,
        ensures
            !self.cluster_in_range(cluster) ==> r == Err::<(i64, usize), Error>(
                Error::InvalidArgument,
            ),
            self.cluster_in_range(cluster) ==> r == Ok::<(i64, usize), Error>(
                (self.fat_sector_pos(cluster) as i64, self.fat_entry_offset(cluster) as usize),
            ),
            r matches Ok((pos, off)) ==> pos == self.fat_sector_pos(cluster) && off
                == self.fat_entry_offset(cluster) && off < self.sector_size,
            r matches Ok((pos, off)) ==> {
                &&& pos + off == self.first_fat_sector * self.sector_size + cluster * (if self.fat_type is FAT32 {
                    4int
                } else {
                    2int
                })
                &&& (pos as int) % (self.sector_size as int) == 0
                &&& 0 <= off < self.sector_size
            },
    {
        proof {
            if self.cluster_in_range(cluster) {
                lemma_fat_entry_address(*self, cluster);
            }
        }
        if !(2 <= cluster && cluster <= self.cluster_count + 1) {
            return Err(Error::InvalidArgument);
        }
        let sector_size = self.sector_size as i64;
        let fat_offset: u32 = match self.fat_type {
            FatType::FAT32 { root_cluster: _ } => cluster * 4,
            _ => cluster * 2,
        };
        let fat_sector = self.first_fat_sector + (fat_offset as i64 / sector_size);
        let entry_offset = fat_offset % (self.sector_size as u32);
        assert(fat_sector * sector_size <= (0xFFFF + 0xFFFF_FFFF) * 4096) by (nonlinear_arith)
            requires
                0 <= fat_sector <= 0xFFFF + 0xFFFF_FFFF,
                0 < sector_size <= 4096,
        ;
        Ok((fat_sector * sector_size, entry_offset as usize))
    }

    /// Decodes the FAT entry at `entry_offset` in the FAT sector `data`.
    ///
    /// FAT32 ignores the high four bits of an entry. An entry that does not
    /// fit in `data` is an I/O error. FAT12 entries are not decoded.
    pub fn read_fat_entry(&self, data: &[u8], entry_offset: usize) -> (r: Result<FatEntry, Error>)
        requires
            !(self.fat_type is FAT12),
        ensures
            !fits(data@.len() as int, entry_offset as int, self.fat_entry_width()) ==> r
                == Err::<FatEntry, Error>(Error::Io),
            fits(data@.len() as int, entry_offset as int, self.fat_entry_width()) ==> r
                == Ok::<FatEntry, Error>(
                fat_entry_meaning(
                    self.fat_type,
                    if self.fat_type is FAT32 {
                        (le_u32_at(data@, entry_offset as int) % 0x1000_0000) as u32
                    } else {
                        le_u16_at(data@, entry_offset as int) as u32
                    },
                ),
            ),
    {
        match self.fat_type {
            FatType::FAT32 { root_cluster: _ } => {
                let entry = match read_le_u32(data, entry_offset) {
                    Some(e) => e,
                    None => return Err(Error::Io),
                };
                assert(entry & 0x0FFF_FFFF == entry % 0x1000_0000) by (bit_vector);
                let entry = entry & 0x0FFF_FFFF;  // ignore high four bits
                Ok(FatEntry::from_bytes(&self.fat_type, entry))
            },
            _ => {
                let entry = match read_le_u16(data, entry_offset) {
                    Some(e) => e,
                    None => return Err(Error::Io),
                };
                Ok(FatEntry::from_bytes(&self.fat_type, entry as u32))
            },
        }
    }
}

/// The location of a FAT entry addresses the entry's byte in the first FAT,
/// whatever the sector size: the sector's device position plus the offset
/// within it is the FAT's first byte plus `cluster` entries of 4 (FAT32) or
/// 2 (FAT16) bytes, the position is a whole number of sectors, and the
/// offset lies within one sector.
pub proof fn lemma_fat_entry_address(fs: FatFs, cluster: u32)
    requires
        fs.wf(),
    ensures
        fs.fat_sector_pos(cluster) + fs.fat_entry_offset(cluster) == fs.first_fat_sector
            * fs.sector_size + cluster * (if fs.fat_type is FAT32 {
            4int
        } else {
            2int
        }),
        fs.fat_sector_pos(cluster) % (fs.sector_size as int) == 0,
        0 <= fs.fat_entry_offset(cluster) < fs.sector_size,
{
    let ss = fs.sector_size as int;
    let fo = fs.fat_offset(cluster);
    let q = fo / ss;
    let r = fo % ss;
    let f = fs.first_fat_sector as int;
    assert(fo == q * ss + r && 0 <= r < ss) by (nonlinear_arith)
        requires
            ss > 0,
            q == fo / ss,
            r == fo % ss,
    ;
    assert((f + q) * ss + r == f * ss + fo) by (nonlinear_arith)
        requires
            fo == q * ss + r,
    ;
    assert(((f + q) * ss) % ss == 0) by (nonlinear_arith)
        requires
            ss > 0,
    ;
}

/// What a cluster chain walk does after taking in one FAT entry.
#[derive(Copy, Clone, Debug, PartialEq, Eq, Structural)]
pub enum ChainStep {
    /// Read the FAT entry of the (new) current cluster next.
    Continue,
    /// The chain ended; its clusters are complete.
    Done,
    /// The chain is broken.
    Failed(Error),
}

/// A walk along a cluster chain: the clusters collected so far, the FAT
/// entries taken in for them, and the cluster whose FAT entry is to be read
/// next.
pub struct ClusterChain {
    first: u32,
    cursor: u32,
    max_cluster: u32,
    clusters: Vec<u32>,
    links: Ghost<Seq<FatEntry>>,
}

impl ClusterChain {
    /// The walk's invariant: it starts at its first cluster, every cluster
    /// collected is a data cluster, each collected cluster's FAT entry names
    /// the next one, and the last entry taken in names the current cluster
    /// or ends the chain.
    pub closed spec fn wf(self) -> bool {
        &&& self.clusters@.len() == self.links@.len()
        &&& self.clusters@.len() == 0 ==> self.cursor == self.first
        &&& self.clusters@.len() > 0 ==> self.clusters@[0] == self.first
        &&& forall|i: int|
            0 <= i < self.clusters@.len() ==> 2 <= #[trigger] self.clusters@[i] <= self.max_cluster
        &&& forall|i: int|
            0 <= i < self.clusters@.len() - 1 ==> #[trigger] self.links@[i] == FatEntry::Next(
                self.clusters@[i + 1],
            )
        &&& self.clusters@.len() > 0 ==> (self.links@.last() == FatEntry::Next(self.cursor)
            || self.links@.last() == FatEntry::End)
    }

    /// Whether the chain has ended: the last entry taken in is `End`.
    pub closed spec fn complete(self) -> bool {
        self.links@.len() > 0 && self.links@.last() == FatEntry::End
    }

    /// The cluster the chain starts at.
    pub closed spec fn first(self) -> u32 {
        self.first
    }

    /// The cluster whose FAT entry is to be read next.
    pub closed spec fn cursor(self) -> u32 {
        self.cursor
    }

    /// The largest data cluster of the volume.
    pub closed spec fn max_cluster(self) -> u32 {
        self.max_cluster
    }

    /// The clusters collected so far, in chain order.
    pub closed spec fn clusters(self) -> Seq<u32> {
        self.clusters@
    }

    /// The FAT entries taken in for the collected clusters, in order.
    pub closed spec fn links(self) -> Seq<FatEntry> {
        self.links@
    }

    /// Starts a walk at `first_cluster` on the volume `fs`.
    pub fn new(first_cluster: u32, fs: &FatFs) -> (c: ClusterChain)
        requires
            fs.wf(),
        ensures
            c.first() == first_cluster,
            c.cursor() == first_cluster,
            c.max_cluster() == fs.cluster_count + 1,
            c.clusters() == Seq::<u32>::empty(),
            c.links() == Seq::<FatEntry>::empty(),
            c.wf(),
    {
        ClusterChain {
            first: first_cluster,
            cursor: first_cluster,
            max_cluster: fs.cluster_count + 1,
            clusters: Vec::new(),
            links: Ghost(Seq::empty()),
        }
    }

    /// The cluster whose FAT entry is to be read next.
    pub fn current(&self) -> (c: u32)
        ensures
            c == self.cursor(),
    {
        self.cursor
    }

    /// Takes in the FAT entry of the current cluster, a data cluster (its
    /// entry was located).
    ///
    /// The current cluster joins the chain unless its entry marks it bad;
    /// a `Next` entry moves on to the cluster it names, an `End` entry
    /// completes the chain, and a bad cluster is an I/O error.
    pub fn advance(&mut self, entry: FatEntry) -> (step: ChainStep)
        requires
            old(self).wf(),
            !old(self).complete(),
            2 <= old(self).cursor() <= old(self).max_cluster(),
        ensures
            final(self).wf(),
            final(self).complete() == (entry == FatEntry::End),
            final(self).first() == old(self).first(),
            final(self).max_cluster() == old(self).max_cluster(),
            match entry {
                FatEntry::Next(next) => {
                    &&& step == ChainStep::Continue
                    &&& final(self).clusters() == old(self).clusters().push(old(self).cursor())
                    &&& final(self).links() == old(self).links().push(entry)
                    &&& final(self).cursor() == next
                },
                FatEntry::End => {
                    &&& step == ChainStep::Done
                    &&& final(self).clusters() == old(self).clusters().push(old(self).cursor())
                    &&& final(self).links() == old(self).links().push(entry)
                    &&& final(self).cursor() == old(self).cursor()
                },
                FatEntry::Bad => {
                    &&& step == ChainStep::Failed(Error::Io)
                    &&& final(self).clusters() == old(self).clusters()
                    &&& final(self).links() == old(self).links()
                    &&& final(self).cursor() == old(self).cursor()
                },
            },
    {
        match entry {
            FatEntry::Next(next) => {
                let cur = self.cursor;
                let ghost old_clusters = self.clusters@;
                let ghost old_links = self.links@;
                self.clusters.push(cur);
                self.links = Ghost(self.links@.push(entry));
                self.cursor = next;
                proof {
                    assert forall|i: int| 0 <= i < self.clusters@.len() - 1 implies #[trigger] self.links@[i]
                        == FatEntry::Next(self.clusters@[i + 1]) by {
                        if i < old_clusters.len() - 1 {
                            assert(self.links@[i] == old_links[i]);
                            assert(self.clusters@[i + 1] == old_clusters[i + 1]);
                        } else {
                            assert(self.links@[i] == old_links.last());
                        }
                    }
                }
                ChainStep::Continue
            },
            FatEntry::End => {
                let cur = self.cursor;
                let ghost old_clusters = self.clusters@;
                let ghost old_links = self.links@;
                self.clusters.push(cur);
                self.links = Ghost(self.links@.push(entry));
                proof {
                    assert forall|i: int| 0 <= i < self.clusters@.len() - 1 implies #[trigger] self.links@[i]
                        == FatEntry::Next(self.clusters@[i + 1]) by {
                        if i < old_clusters.len() - 1 {
                            assert(self.links@[i] == old_links[i]);
                            assert(self.clusters@[i + 1] == old_clusters[i + 1]);
                        } else {
                            assert(self.links@[i] == old_links.last());
                        }
                    }
                }
                ChainStep::Done
            },
            FatEntry::Bad => ChainStep::Failed(Error::Io),
        }
    }

    /// The clusters collected so far, in chain order: the chain starts at
    /// its first cluster, every cluster is a data cluster, and the FAT entry
    /// taken in for each cluster names the one after it.
    pub fn into_clusters(self) -> (v: Vec<u32>)
        requires
            self.wf(),
        ensures
            v@ == self.clusters(),
            self.links().len() == v@.len(),
            self.complete() ==> self.links().last() == FatEntry::End,
            v@.len() > 0 ==> v@[0] == self.first(),
            forall|i: int| 0 <= i < v@.len() ==> 2 <= #[trigger] v@[i] <= self.max_cluster(),
            forall|i: int|
                0 <= i < v@.len() - 1 ==> #[trigger] self.links()[i] == FatEntry::Next(v@[i + 1]),
    {
        self.clusters
    }
}

/// A completed cluster chain walk is a chain of the FAT: it starts at its
/// first cluster, each cluster is a data cluster whose FAT entry names the
/// next cluster, and the entry of the last cluster ends the chain.
pub proof fn lemma_complete_chain(chain: ClusterChain)
    requires
        chain.wf(),
        chain.complete(),
    ensures
        chain.clusters().len() > 0,
        chain.clusters()[0] == chain.first(),
        chain.links().len() == chain.clusters().len(),
        forall|i: int|
            0 <= i < chain.clusters().len() ==> 2 <= #[trigger] chain.clusters()[i]
                <= chain.max_cluster(),
        forall|i: int|
            0 <= i < chain.clusters().len() - 1 ==> #[trigger] chain.links()[i] == FatEntry::Next(
                chain.clusters()[i + 1],
            ),
        chain.links().last() == FatEntry::End,
{
}

} // verus!
