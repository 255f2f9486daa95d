//! Scanning one page of a directory: listing its entries and looking a name up.
//!
//! A page is scanned slot by slot, 32 bytes each, for every slot that starts
//! before the page's last 32 bytes. A slot whose name starts with `0x00` ends
//! the scan of the page; free slots and other slots (volume labels, system
//! entries) are passed over. Long-name slots are collected; the file or
//! directory entry that follows them takes its long name from them. The
//! collected slots carry over from one page to the next.

use vstd::prelude::*;
use crate::defs::{
    is_raw_dentry_at, le_u16_at, ATTR_DIRECTORY, ATTR_LONG_NAME, ATTR_LONG_NAME_MASK, ATTR_SYSTEM,
    ATTR_VOLUME_ID, FAT_DENTRY_FREE, FAT_DENTRY_FREE_CONSECUTIVE, FAT_DENTRY_SIZE,
};
use crate::error::Error;
use crate::fs::FatFs;
use crate::long_name::{
    long_name_ok, long_name_utf8, long_units_at, slot_units, RegularFatLongDirEntry,
};
use crate::types::{is_dir_entry_at, short_display_name, FatDirEntry, RegularFatDirEntry};

verus! {

/// Whether the scan of a page of `len` bytes visits slot `k`.
pub open spec fn slot_scanned(len: int, k: int) -> bool {
    0 <= k && 32 * k < len - 32
}

/// Whether slot `k` of page `s` ends the directory: its name starts with `0x00`.
pub open spec fn slot_ends_dir(s: Seq<u8>, k: int) -> bool {
    s[32 * k] == FAT_DENTRY_FREE_CONSECUTIVE
}

/// Whether slot `k` of page `s` holds a file or directory entry.
pub open spec fn slot_regular(s: Seq<u8>, k: int) -> bool {
    &&& s[32 * k] != FAT_DENTRY_FREE
    &&& s[32 * k] != FAT_DENTRY_FREE_CONSECUTIVE
    &&& s[32 * k + 11] & (ATTR_SYSTEM | ATTR_VOLUME_ID) == 0
}

/// Whether slot `k` of page `s` holds part of a long name.
pub open spec fn slot_long(s: Seq<u8>, k: int) -> bool {
    &&& s[32 * k] != FAT_DENTRY_FREE
    &&& s[32 * k] != FAT_DENTRY_FREE_CONSECUTIVE
    &&& s[32 * k + 11] & ATTR_LONG_NAME_MASK == ATTR_LONG_NAME
}

/// The units of the long-name slots collected before slot `k` of page `s`,
/// starting from the slots `pending` carried over: long-name slots are
/// added, and a file or directory entry takes (and clears) them.
pub open spec fn pending_before(s: Seq<u8>, pending: Seq<Seq<u16>>, k: int) -> Seq<Seq<u16>>
    decreases k,
{
    if k <= 0 {
        pending
    } else {
        let prev = pending_before(s, pending, k - 1);
        if slot_long(s, k - 1) {
            prev.push(long_units_at(s, 32 * (k - 1)))
        } else if slot_regular(s, k - 1) {
            Seq::empty()
        } else {
            prev
        }
    }
}

/// The name under which slot `k` of page `s` is listed: the long name of the
/// slots collected before it, if any, and its 8.3 name otherwise.
pub open spec fn listed_name(s: Seq<u8>, pending: Seq<Seq<u16>>, k: int) -> Seq<u8> {
    let p = pending_before(s, pending, k);
    if p.len() > 0 {
        long_name_utf8(p)
    } else {
        short_display_name(s.subrange(32 * k, 32 * k + 11))
    }
}

/// Whether the long name of the file or directory entry in slot `k` fails to decode.
pub open spec fn name_fails(s: Seq<u8>, pending: Seq<Seq<u16>>, k: int) -> bool {
    let p = pending_before(s, pending, k);
    slot_regular(s, k) && p.len() > 0 && !long_name_ok(p)
}

/// The slot at which listing page `s` stops, scanning from slot `k` on: the
/// first slot that ends the directory, whose name fails to decode, or that
/// the scan does not visit.
pub open spec fn listing_end_from(s: Seq<u8>, pending: Seq<Seq<u16>>, k: int) -> int
    decreases s.len() - 32 * k,
{
    if !slot_scanned(s.len() as int, k) || slot_ends_dir(s, k) || name_fails(s, pending, k) {
        k
    } else {
        listing_end_from(s, pending, k + 1)
    }
}

/// The slot at which listing page `s` stops.
pub open spec fn listing_end(s: Seq<u8>, pending: Seq<Seq<u16>>) -> int {
    listing_end_from(s, pending, 0)
}

/// Whether listing page `s` stops at an entry whose long name fails to decode.
pub open spec fn listing_fails(s: Seq<u8>, pending: Seq<Seq<u16>>) -> bool {
    let e = listing_end(s, pending);
    slot_scanned(s.len() as int, e) && !slot_ends_dir(s, e)
}

/// The indices of the file and directory slots among the first `n` slots of page `s`.
pub open spec fn regular_slots(s: Seq<u8>, n: int) -> Seq<int>
    decreases n,
{
    if n <= 0 {
        Seq::empty()
    } else if slot_regular(s, n - 1) {
        regular_slots(s, n - 1).push(n - 1)
    } else {
        regular_slots(s, n - 1)
    }
}

/// The file and directory slots of page `s` that are listed, in order.
pub open spec fn listed_slots(s: Seq<u8>, pending: Seq<Seq<u16>>) -> Seq<int> {
    regular_slots(s, listing_end(s, pending))
}

/// Whether a lookup of `name` stops at slot `k` of page `s`: the slot holds
/// a file or directory entry whose long name fails to decode or equals `name`.
pub open spec fn lookup_stops_at(s: Seq<u8>, pending: Seq<Seq<u16>>, name: Seq<u8>, k: int) -> bool {
    let q = pending_before(s, pending, k);
    slot_regular(s, k) && (!long_name_ok(q) || long_name_utf8(q) == name)
}

/// The slot at which a lookup of `name` in page `s` stops, scanning from
/// slot `k` on: the first slot where it stops, that ends the directory, or
/// that the scan does not visit.
pub open spec fn lookup_end_from(s: Seq<u8>, pending: Seq<Seq<u16>>, name: Seq<u8>, k: int) -> int
    decreases s.len() - 32 * k,
{
    if !slot_scanned(s.len() as int, k) || slot_ends_dir(s, k) || lookup_stops_at(
        s,
        pending,
        name,
        k,
    ) {
        k
    } else {
        lookup_end_from(s, pending, name, k + 1)
    }
}

/// The slot at which a lookup of `name` in page `s` stops.
pub open spec fn lookup_end(s: Seq<u8>, pending: Seq<Seq<u16>>, name: Seq<u8>) -> int {
    lookup_end_from(s, pending, name, 0)
}

/// Whether a lookup of `name` in page `s` stops at an entry (found or failed).
pub open spec fn lookup_hits(s: Seq<u8>, pending: Seq<Seq<u16>>, name: Seq<u8>) -> bool {
    let e = lookup_end(s, pending, name);
    slot_scanned(s.len() as int, e) && !slot_ends_dir(s, e)
}

/// One directory entry to hand to the VFS while listing a directory.
#[derive(Debug)]
pub struct DirEmit {
    /// Bytes of directory advanced since the previous emitted entry (or the
    /// start of the page), this entry's slot included.
    pub pos_delta: i64,
    /// The entry's name.
    pub name: Vec<u8>,
    /// The inode number reported for the entry: its first cluster.
    pub ino: u64,
    /// Whether the entry is a file (and a directory otherwise).
    pub is_file: bool,
}

/// The entries of one directory page, and whether listing them failed.
#[derive(Debug)]
pub struct DirListing {
    /// The entries listed, in slot order.
    pub items: Vec<DirEmit>,
    /// The error that stopped the listing after `items`, if any.
    pub failed: Option<Error>,
}

/// Whether `item` lists slot `k` of page `s`, the previously listed slot being `prev`.
pub open spec fn lists_slot(
    item: DirEmit,
    s: Seq<u8>,
    pending: Seq<Seq<u16>>,
    k: int,
    prev: int,
) -> bool {
    let o = 32 * k;
    &&& item.pos_delta == 32 * (k - prev)
    &&& item.name@ == listed_name(s, pending, k)
    &&& item.ino == le_u16_at(s, o + 20) * 65536 + le_u16_at(s, o + 26)
    &&& item.is_file == (s[o + 11] & ATTR_DIRECTORY == 0)
}

/// The slot listed before the `j`-th listed slot, or `-1` for the first.
pub open spec fn previous_slot(slots: Seq<int>, j: int) -> int {
    if j == 0 {
        -1
    } else {
        slots[j - 1]
    }
}

/// The bytes of directory that listing `items` advances through in total.
pub open spec fn total_advance(items: Seq<DirEmit>) -> int
    decreases items.len(),
{
    if items.len() == 0 {
        0
    } else {
        total_advance(items.drop_last()) + items.last().pos_delta
    }
}

/// Listing a page advances the directory position exactly past each listed
/// entry: after the `j`-th item, the position deltas add up to the end of
/// that item's slot.
pub proof fn lemma_listing_advances_to_entry(
    data: Seq<u8>,
    pending: Seq<Seq<u16>>,
    items: Seq<DirEmit>,
    j: int,
)
    requires
        items.len() == listed_slots(data, pending).len(),
        forall|i: int|
            0 <= i < items.len() ==> lists_slot(
                #[trigger] items[i],
                data,
                pending,
                listed_slots(data, pending)[i],
                previous_slot(listed_slots(data, pending), i),
            ),
        0 < j <= items.len(),
    ensures
        total_advance(items.take(j)) == 32 * (listed_slots(data, pending)[j - 1] + 1),
    decreases j,
{
    let slots = listed_slots(data, pending);
    assert(items.take(j).drop_last() =~= items.take(j - 1));
    assert(items.take(j).last() == items[j - 1]);
    assert(lists_slot(items[j - 1], data, pending, slots[j - 1], previous_slot(slots, j - 1)));
    assert(total_advance(items.take(j)) == total_advance(items.take(j - 1)) + items[j
        - 1].pos_delta);
    if j > 1 {
        lemma_listing_advances_to_entry(data, pending, items, j - 1);
        assert(previous_slot(slots, j - 1) == slots[j - 2]);
    } else {
        assert(items.take(0) =~= Seq::<DirEmit>::empty());
        assert(total_advance(items.take(0)) == 0);
    }
}

/// The display name of `entry` as a byte vector.
fn display_name(entry: &RegularFatDirEntry) -> (v: Vec<u8>)
    ensures
        v@ == short_display_name(entry.0.short_name@),
{
    let (bytes, len) = entry.name();
    let mut v: Vec<u8> = Vec::new();
    let mut i: usize = 0;
    while i < len
        invariant
            len <= 12,
            i <= len,
            bytes@.len() == 12,
            v@ == bytes@.take(i as int),
        decreases len - i,
    {
        v.push(bytes[i]);
        assert(bytes@.take(i + 1) =~= bytes@.take(i as int).push(bytes@[i as int]));
        i += 1;
    }
    assert(bytes@.take(len as int) =~= short_display_name(entry.0.short_name@));
    v
}

/// The kinds of slots, in terms of a slot's first byte and attribute byte
/// alone: an occupied slot (first byte neither 0xE5 nor 0x00) holds a file or
/// directory entry exactly when neither its system (0x04) nor its volume
/// label (0x08) bit is set, and part of a long name exactly when its
/// attributes & 0x3F are 0x0F; it is never both.
pub proof fn lemma_slot_kinds(s: Seq<u8>, k: int)
    ensures
        slot_regular(s, k) <==> (s[32 * k] != 0xE5u8 && s[32 * k] != 0x00u8 && s[32 * k + 11]
            & 0x0Cu8 == 0),
        slot_long(s, k) <==> (s[32 * k] != 0xE5u8 && s[32 * k] != 0x00u8 && s[32 * k + 11]
            & 0x3Fu8 == 0x0Fu8),
        !(slot_regular(s, k) && slot_long(s, k)),
        slot_ends_dir(s, k) <==> s[32 * k] == 0x00u8,
{
    let a = s[32 * k + 11];
    assert(a & 0x3F == 0x0F ==> a & 0x0C != 0) by (bit_vector);
    assert(ATTR_SYSTEM | ATTR_VOLUME_ID == 0x0Cu8) by (bit_vector);
}

/// The first `n` slots' file and directory slots include every such slot below `n`.
proof fn lemma_regular_slots_contain(s: Seq<u8>, n: int, k: int)
    requires
        0 <= k < n,
        slot_regular(s, k),
    ensures
        regular_slots(s, n).contains(k),
    decreases n,
{
    if k == n - 1 {
        assert(regular_slots(s, n).last() == k);
    } else {
        lemma_regular_slots_contain(s, n - 1, k);
        let i = choose|i: int| 0 <= i < regular_slots(s, n - 1).len() && #[trigger] regular_slots(s, n - 1)[i] == k;
        assert(regular_slots(s, n)[i] == k);
    }
}

/// Listing a page lists every file and directory entry before the slot where
/// the listing stops, whatever its read-only, hidden, directory or archive
/// bits: an occupied slot whose system and volume label bits are clear is listed.
pub proof fn lemma_listing_includes_entries(s: Seq<u8>, pending: Seq<Seq<u16>>, k: int)
    requires
        0 <= k < listing_end(s, pending),
        s[32 * k] != 0xE5u8,
        s[32 * k] != 0x00u8,
        s[32 * k + 11] & 0x0Cu8 == 0,
    ensures
        listed_slots(s, pending).contains(k),
{
    lemma_slot_kinds(s, k);
    lemma_regular_slots_contain(s, listing_end(s, pending), k);
}

/// A lookup continuing from slot `j` stops no later than slot `k`, when slot
/// `k` is a file or directory entry named `name` and no slot from `j` to `k`
/// ends the directory.
proof fn lemma_lookup_end_from_bound(
    s: Seq<u8>,
    pending: Seq<Seq<u16>>,
    name: Seq<u8>,
    j: int,
    k: int,
)
    requires
        0 <= j <= k,
        slot_scanned(s.len() as int, k),
        slot_regular(s, k),
        long_name_ok(pending_before(s, pending, k)),
        long_name_utf8(pending_before(s, pending, k)) == name,
        forall|i: int| 0 <= i <= k ==> !#[trigger] slot_ends_dir(s, i),
    ensures
        j <= lookup_end_from(s, pending, name, j) <= k,
        slot_scanned(s.len() as int, lookup_end_from(s, pending, name, j)),
        !slot_ends_dir(s, lookup_end_from(s, pending, name, j)),
    decreases k - j,
{
    assert(!slot_ends_dir(s, j));
    if j < k && !lookup_stops_at(s, pending, name, j) {
        lemma_lookup_end_from_bound(s, pending, name, j + 1, k);
    }
}

/// A lookup finds every entry, file or directory, whose long name is the
/// name looked up: if slot `k` holds an occupied slot whose system and volume
/// label bits are clear, whose long name decodes to `name`, and no earlier
/// slot ends the directory (its first byte 0x00, see `lemma_slot_kinds`), the
/// lookup stops at an entry no later than `k`.
pub proof fn lemma_lookup_reaches_named_entry(
    s: Seq<u8>,
    pending: Seq<Seq<u16>>,
    name: Seq<u8>,
    k: int,
)
    requires
        slot_scanned(s.len() as int, k),
        s[32 * k] != 0xE5u8,
        s[32 * k] != 0x00u8,
        s[32 * k + 11] & 0x0Cu8 == 0,
        long_name_ok(pending_before(s, pending, k)),
        long_name_utf8(pending_before(s, pending, k)) == name,
        forall|i: int| 0 <= i < k ==> !#[trigger] slot_ends_dir(s, i),
    ensures
        lookup_hits(s, pending, name),
        lookup_end(s, pending, name) <= k,
        lookup_end(s, pending, name) == k ==> lookup_stops_at(s, pending, name, k),
{
    lemma_slot_kinds(s, k);
    lemma_lookup_end_from_bound(s, pending, name, 0, k);
}

/// The slot facts that classifying the slot at `32 * k` gives.
proof fn lemma_classified_slot(d: FatDirEntry, s: Seq<u8>, k: int)
    requires
        0 <= k,
        32 * k + 32 <= s.len(),
        is_dir_entry_at(d, s, 32 * k),
    ensures
        d is FreeConsecutive <==> slot_ends_dir(s, k),
        d is Entry <==> slot_regular(s, k),
        d is LongEntry <==> slot_long(s, k),
        d matches FatDirEntry::Entry(e) ==> is_raw_dentry_at(e.0, s, 32 * k),
        d matches FatDirEntry::LongEntry(l) ==> l.name@ == long_units_at(s, 32 * k),
{
    let a = s[32 * k + 11];
    assert(a & 0x3F == 0x0F ==> a & 0x0C != 0) by (bit_vector);
    assert(ATTR_SYSTEM | ATTR_VOLUME_ID == 0x0C) by (bit_vector);
}

/// The slot units after taking in one more long-name slot.
proof fn lemma_slot_units_push(es: Seq<RegularFatLongDirEntry>, l: RegularFatLongDirEntry)
    ensures
        slot_units(es.push(l)) == slot_units(es).push(l.name@),
{
    assert(slot_units(es.push(l)) =~= slot_units(es).push(l.name@));
}

/// Returns whether `a` and `b` hold the same bytes.
fn bytes_equal(a: &[u8], b: &[u8]) -> (r: bool)
    ensures
        r == (a@ == b@),
{
    if a.len() != b.len() {
        return false;
    }
    let mut i: usize = 0;
    while i < a.len()
        invariant
            a@.len() == b@.len(),
            i <= a@.len(),
            forall|j: int| 0 <= j < i ==> a@[j] == b@[j],
        decreases a@.len() - i,
    {
        if a[i] != b[i] {
            return false;
        }
        i += 1;
    }
    assert(a@ =~= b@);
    true
}

impl FatFs {
    /// Lists the files and directories in one page of a directory, in slot
    /// order, up to the slot that ends the directory.
    ///
    /// `long_entries` holds the long-name slots collected so far (carried
    /// over from earlier pages) and is left holding those collected after
    /// the last listed entry. An entry whose long name has an unpaired
    /// surrogate stops the listing with an I/O error.
    pub fn read_dir_page(data: &[u8], long_entries: &mut Vec<RegularFatLongDirEntry>) -> (r:
        DirListing)
        requires
            data@.len() <= i64::MAX,
        ensures
            ({
                let p = slot_units(old(long_entries)@);
                &&& r.items@.len() == listed_slots(data@, p).len()
                &&& forall|j: int|
                    0 <= j < r.items@.len() ==> lists_slot(
                        #[trigger] r.items@[j],
                        data@,
                        p,
                        listed_slots(data@, p)[j],
                        previous_slot(listed_slots(data@, p), j),
                    )
                &&& r.failed == (if listing_fails(data@, p) {
                    Some(Error::Io)
                } else {
                    None
                })
                &&& slot_units(final(long_entries)@) == pending_before(
                    data@,
                    p,
                    listing_end(data@, p),
                )
            }),
    {
        let ghost s = data@;
        let ghost p = slot_units(long_entries@);
        let mut items: Vec<DirEmit> = Vec::new();
        let mut offset: usize = 0;
        let mut acc: i64 = 0;
        let ghost mut k: int = 0;
        let ghost mut last: int = -1;
        let limit = if data.len() >= FAT_DENTRY_SIZE {
            data.len() - FAT_DENTRY_SIZE
        } else {
            0
        };
        let mut failed: Option<Error> = None;
        loop
            invariant_except_break
                failed is None,
            invariant
                s == data@,
                s.len() <= i64::MAX,
                data.len() == s.len(),
                p == slot_units(old(long_entries)@),
                limit == (if s.len() >= 32 { s.len() - 32 } else { 0 }),
                0 <= k,
                offset == 32 * k,
                offset <= s.len(),
                listing_end(s, p) == listing_end_from(s, p, k),
                slot_units(long_entries@) == pending_before(s, p, k),
                last == (if regular_slots(s, k).len() == 0 {
                    -1
                } else {
                    regular_slots(s, k).last()
                }),
                -1 <= last < k,
                acc == 32 * (k - 1 - last),
                items@.len() == regular_slots(s, k).len(),
                forall|j: int|
                    0 <= j < items@.len() ==> lists_slot(
                        #[trigger] items@[j],
                        s,
                        p,
                        regular_slots(s, k)[j],
                        previous_slot(regular_slots(s, k), j),
                    ),
            ensures
                listing_end(s, p) == k,
                slot_units(long_entries@) == pending_before(s, p, k),
                failed == (if listing_fails(s, p) {
                    Some(Error::Io)
                } else {
                    None
                }),
                items@.len() == regular_slots(s, k).len(),
                forall|j: int|
                    0 <= j < items@.len() ==> lists_slot(
                        #[trigger] items@[j],
                        s,
                        p,
                        regular_slots(s, k)[j],
                        previous_slot(regular_slots(s, k), j),
                    ),
            decreases s.len() - offset,
        {
            if !(offset < limit) {
                assert(!slot_scanned(s.len() as int, k));
                break;
            }
            let pos_delta = acc + FAT_DENTRY_SIZE as i64;
            let d = match FatDirEntry::from_bytes(data, offset) {
                Some(d) => d,
                None => {
                    assert(false);
                    break;
                },
            };
            proof {
                lemma_classified_slot(d, s, k);
            }
            match d {
                FatDirEntry::FreeConsecutive => {
                    break;
                },
                FatDirEntry::LongEntry(long) => {
                    proof {
                        lemma_slot_units_push(long_entries@, long);
                    }
                    long_entries.push(long);
                    assert(regular_slots(s, k + 1) == regular_slots(s, k));
                    acc = pos_delta;
                },
                FatDirEntry::Entry(entry) => {
                    let name = if long_entries.len() == 0 {
                        display_name(&entry)
                    } else {
                        let mut long_name: Vec<u8> = Vec::new();
                        let parsed = FatFs::parse_utf16_long_entries(
                            long_entries.as_slice(),
                            &mut long_name,
                        );
                        if parsed.is_err() {
                            assert(name_fails(s, p, k));
                            failed = Some(Error::Io);
                            break;
                        }
                        assert(long_name@ =~= long_name_utf8(slot_units(long_entries@)));
                        long_name
                    };
                    let is_file = entry.is_file();
                    let ino = entry.first_cluster() as u64;
                    let item = DirEmit { pos_delta, name, ino, is_file };
                    proof {
                        assert(!name_fails(s, p, k));
                        assert(entry.0.short_name@ == s.subrange(32 * k, 32 * k + 11));
                        assert(regular_slots(s, k + 1) == regular_slots(s, k).push(k));
                        assert(lists_slot(item, s, p, k, last));
                    }
                    items.push(item);
                    long_entries.clear();
                    acc = 0;
                    proof {
                        last = k;
                    }
                },
                _ => {
                    assert(regular_slots(s, k + 1) == regular_slots(s, k));
                    acc = pos_delta;
                },
            }
            offset += FAT_DENTRY_SIZE;
            proof {
                k = k + 1;
            }
        }
        DirListing { items, failed }
    }

    /// Looks `name` up in one page of a directory: the first file or
    /// directory entry the scan visits whose long name equals `name`, with
    /// its slot's offset in the page. An entry's long name is decoded from
    /// the long-name slots collected before it (empty if there are none).
    ///
    /// `long_entries` holds the long-name slots collected so far (carried
    /// over from earlier pages) and is left holding those collected before
    /// the slot where the lookup stopped. A long name with an unpaired
    /// surrogate met before a match is an I/O error.
    pub fn lookup_page(
        data: &[u8],
        name: &[u8],
        long_entries: &mut Vec<RegularFatLongDirEntry>,
    ) -> (r: Result<Option<(usize, RegularFatDirEntry)>, Error>)
        ensures
            ({
                let p = slot_units(old(long_entries)@);
                let e = lookup_end(data@, p, name@);
                &&& slot_units(final(long_entries)@) == pending_before(data@, p, e)
                &&& !lookup_hits(data@, p, name@) ==> r == Ok::<
                    Option<(usize, RegularFatDirEntry)>,
                    Error,
                >(None)
                &&& lookup_hits(data@, p, name@) && !long_name_ok(pending_before(data@, p, e))
                    ==> r == Err::<Option<(usize, RegularFatDirEntry)>, Error>(Error::Io)
                &&& lookup_hits(data@, p, name@) && long_name_ok(pending_before(data@, p, e)) ==> (
                r matches Ok(Some((offset, entry))) && offset == 32 * e && is_raw_dentry_at(
                    entry.0,
                    data@,
                    offset as int,
                ))
            }),
    {
        let ghost s = data@;
        let ghost p = slot_units(long_entries@);
        let mut long_name_scratch: Vec<u8> = Vec::new();
        let mut offset: usize = 0;
        let ghost mut k: int = 0;
        while data.len() - offset > FAT_DENTRY_SIZE
            invariant
                s == data@,
                data.len() == s.len(),
                p == slot_units(old(long_entries)@),
                0 <= k,
                offset == 32 * k,
                offset <= s.len(),
                lookup_end(s, p, name@) == lookup_end_from(s, p, name@, k),
                slot_units(long_entries@) == pending_before(s, p, k),
                long_name_scratch@ == Seq::<u8>::empty(),
            decreases s.len() - offset,
        {
            let d = match FatDirEntry::from_bytes(data, offset) {
                Some(d) => d,
                None => {
                    assert(false);
                    return Ok(None);
                },
            };
            proof {
                lemma_classified_slot(d, s, k);
            }
            match d {
                FatDirEntry::FreeConsecutive => {
                    return Ok(None);
                },
                FatDirEntry::LongEntry(long) => {
                    proof {
                        lemma_slot_units_push(long_entries@, long);
                    }
                    long_entries.push(long);
                },
                FatDirEntry::Entry(entry) => {
                    let parsed = FatFs::parse_utf16_long_entries(
                        long_entries.as_slice(),
                        &mut long_name_scratch,
                    );
                    if parsed.is_err() {
                        return Err(Error::Io);
                    }
                    assert(long_name_scratch@ =~= long_name_utf8(slot_units(long_entries@)));
                    if bytes_equal(long_name_scratch.as_slice(), name) {
                        return Ok(Some((offset, entry)));
                    }
                    long_entries.clear();
                    long_name_scratch.clear();
                },
                _ => {},
            }
            offset += FAT_DENTRY_SIZE;
            proof {
                k = k + 1;
            }
        }
        Ok(None)
    }
}

} // verus!
