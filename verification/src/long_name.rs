//! Long file names: the UTF-16 name units of long-name directory slots,
//! decoded and re-encoded as UTF-8.

use vstd::prelude::*;
use vstd::utf8::{encode_scalar, encode_utf8, encode_utf8_valid_utf8, is_scalar, valid_utf8};
use crate::defs::{fits, le_u16_at, read_le_u16, FAT_DENTRY_SIZE};
use crate::error::Error;
use crate::fs::FatFs;

verus! {

/// The number of UTF-16 name units one long-name slot holds.
pub const LONG_NAME_UNITS: usize = 13;

/// The name units of one long-name directory slot.
#[derive(Copy, Clone, Debug)]
pub struct RegularFatLongDirEntry {
    pub name: [u16; 13],
}

/// The byte offset, within a long-name slot, of its `i`-th name unit: units
/// 0-4 at bytes 1..11, units 5-10 at bytes 14..26, units 11-12 at bytes 28..32.
pub open spec fn long_unit_offset(i: int) -> int {
    if i < 5 {
        1 + 2 * i
    } else if i < 11 {
        14 + 2 * (i - 5)
    } else {
        28 + 2 * (i - 11)
    }
}

/// The 13 name units of the long-name slot stored in `s` at `o`.
pub open spec fn long_units_at(s: Seq<u8>, o: int) -> Seq<u16> {
    Seq::new(13, |i: int| le_u16_at(s, o + long_unit_offset(i)))
}

/// The name units of each slot of `es`.
pub open spec fn slot_units(es: Seq<RegularFatLongDirEntry>) -> Seq<Seq<u16>> {
    es.map_values(|e: RegularFatLongDirEntry| e.name@)
}

impl RegularFatLongDirEntry {
    /// Reads the name units of the long-name slot at `offset`; `None` if the
    /// slot does not fit in `data`.
    pub fn from_bytes(data: &[u8], offset: usize) -> (r: Option<RegularFatLongDirEntry>)
        ensures
            r is Some <==> fits(data@.len() as int, offset as int, FAT_DENTRY_SIZE as int),
            r matches Some(l) ==> l.name@ == long_units_at(data@, offset as int),
    {
        if !(data.len() >= FAT_DENTRY_SIZE && offset <= data.len() - FAT_DENTRY_SIZE) {
            assert(!fits(data@.len() as int, offset as int, FAT_DENTRY_SIZE as int));
            return None;
        }
        let mut name = [0u16; 13];
        let mut i: usize = 0;
        while i < LONG_NAME_UNITS
            invariant
                i <= LONG_NAME_UNITS,
                offset + 32 <= data@.len(),
                data.len() == data@.len(),
                forall|j: int| 0 <= j < i ==> name@[j] == le_u16_at(data@, offset + long_unit_offset(j)),
            decreases LONG_NAME_UNITS - i,
        {
            let at: usize = if i < 5 {
                1 + 2 * i
            } else if i < 11 {
                14 + 2 * (i - 5)
            } else {
                28 + 2 * (i - 11)
            };
            assert(at as int == long_unit_offset(i as int) && at <= 30);
            name[i] = read_le_u16(data, offset + at).unwrap();
            i += 1;
        }
        assert(name@ =~= long_units_at(data@, offset as int));
        Some(RegularFatLongDirEntry { name })
    }

    /// The slot's UTF-16 name units, in name order.
    pub fn name_contents(&self) -> (units: [u16; 13])
        ensures
            units == self.name,
    {
        self.name
    }
}

/// The name units of the slots `es`, taken from the last slot to the first.
pub open spec fn units_last_to_first(es: Seq<Seq<u16>>) -> Seq<u16>
    decreases es.len(),
{
    if es.len() == 0 {
        Seq::empty()
    } else {
        es.last() + units_last_to_first(es.drop_last())
    }
}

/// The units of `s` before its first zero unit (all of `s` if it has none).
pub open spec fn until_nul(s: Seq<u16>) -> Seq<u16>
    decreases s.len(),
{
    if s.len() == 0 || s[0] == 0 {
        Seq::empty()
    } else {
        seq![s[0]] + until_nul(s.drop_first())
    }
}

/// The UTF-16 units of the long name held by the slots `es`, which are
/// stored in reverse name order.
pub open spec fn long_name_units(es: Seq<Seq<u16>>) -> Seq<u16> {
    until_nul(units_last_to_first(es))
}

/// Whether the long name held by slots with units `es` decodes: it has no
/// unpaired surrogate.
pub open spec fn long_name_ok(es: Seq<Seq<u16>>) -> bool {
    utf16_ok(long_name_units(es))
}

/// The UTF-8 bytes of the long name held by slots with units `es` (up to
/// its first unpaired surrogate).
pub open spec fn long_name_utf8(es: Seq<Seq<u16>>) -> Seq<u8> {
    utf8_of(utf16_prefix(long_name_units(es)))
}

/// Whether `u` is a UTF-16 surrogate unit.
pub open spec fn is_surrogate(u: u16) -> bool {
    0xD800 <= u <= 0xDFFF
}

/// Whether `u` is a leading (high) surrogate unit.
pub open spec fn is_high_surrogate(u: u16) -> bool {
    0xD800 <= u <= 0xDBFF
}

/// Whether `u` is a trailing (low) surrogate unit.
pub open spec fn is_low_surrogate(u: u16) -> bool {
    0xDC00 <= u <= 0xDFFF
}

/// The scalar a surrogate pair encodes.
pub open spec fn surrogate_pair_scalar(hi: u16, lo: u16) -> u32 {
    (0x10000 + (hi - 0xD800) * 0x400 + (lo - 0xDC00)) as u32
}

/// The scalars that UTF-16 units decode to, up to the first unpaired surrogate.
pub open spec fn utf16_prefix(s: Seq<u16>) -> Seq<u32>
    decreases s.len(),
{
    if s.len() == 0 {
        Seq::empty()
    } else if !is_surrogate(s[0]) {
        seq![s[0] as u32] + utf16_prefix(s.drop_first())
    } else if is_high_surrogate(s[0]) && s.len() >= 2 && is_low_surrogate(s[1]) {
        seq![surrogate_pair_scalar(s[0], s[1])] + utf16_prefix(s.subrange(2, s.len() as int))
    } else {
        Seq::empty()
    }
}

/// Whether UTF-16 units are well formed: every surrogate is part of a pair.
pub open spec fn utf16_ok(s: Seq<u16>) -> bool
    decreases s.len(),
{
    if s.len() == 0 {
        true
    } else if !is_surrogate(s[0]) {
        utf16_ok(s.drop_first())
    } else if is_high_surrogate(s[0]) && s.len() >= 2 && is_low_surrogate(s[1]) {
        utf16_ok(s.subrange(2, s.len() as int))
    } else {
        false
    }
}

/// The UTF-8 encoding of a sequence of scalars.
pub open spec fn utf8_of(scalars: Seq<u32>) -> Seq<u8>
    decreases scalars.len(),
{
    if scalars.len() == 0 {
        Seq::empty()
    } else {
        encode_scalar(scalars[0]) + utf8_of(scalars.drop_first())
    }
}

/// UTF-16 units without surrogates (values outside 0xD800..=0xDFFF) always
/// decode, each unit to the scalar of the same value.
pub proof fn lemma_utf16_without_surrogates(s: Seq<u16>)
    requires
        forall|i: int| 0 <= i < s.len() ==> !(0xD800u16 <= #[trigger] s[i] <= 0xDFFFu16),
    ensures
        utf16_ok(s),
        utf16_prefix(s).len() == s.len(),
        forall|i: int| 0 <= i < s.len() ==> #[trigger] utf16_prefix(s)[i] == s[i] as u32,
    decreases s.len(),
{
    if s.len() > 0 {
        let rest = s.drop_first();
        assert forall|i: int| 0 <= i < rest.len() implies !(0xD800u16 <= #[trigger] rest[i]
            <= 0xDFFFu16) by {
            assert(rest[i] == s[i + 1]);
        }
        lemma_utf16_without_surrogates(rest);
        assert(!(0xD800u16 <= s[0] <= 0xDFFFu16));
        let p = utf16_prefix(s);
        assert forall|i: int| 0 <= i < s.len() implies #[trigger] p[i] == s[i] as u32 by {
            if i > 0 {
                assert(p[i] == utf16_prefix(rest)[i - 1]);
                assert(rest[i - 1] == s[i]);
            }
        }
    }
}

/// A long name whose units hold no surrogate decodes, and its UTF-8 bytes
/// encode exactly its units, one character per unit.
pub proof fn lemma_long_name_without_surrogates(es: Seq<Seq<u16>>)
    requires
        forall|i: int|
            0 <= i < long_name_units(es).len() ==> !(0xD800u16 <= #[trigger] long_name_units(
                es,
            )[i] <= 0xDFFFu16),
    ensures
        long_name_ok(es),
        long_name_utf8(es) == utf8_of(long_name_units(es).map_values(|u: u16| u as u32)),
{
    let units = long_name_units(es);
    lemma_utf16_without_surrogates(units);
    assert(utf16_prefix(units) =~= units.map_values(|u: u16| u as u32));
}

/// Surrogate pairs decode every supplementary character: for each scalar
/// `c` in 0x10000..=0x10FFFF, the pair that UTF-16 encodes it as (high
/// unit 0xD800 plus the top ten bits of `c - 0x10000`, low unit 0xDC00 plus
/// the bottom ten bits) decodes to `c`, followed by what the rest decodes to.
pub proof fn lemma_utf16_pair_round_trip(c: u32, rest: Seq<u16>)
    requires
        0x10000 <= c <= 0x10FFFF,
    ensures
        ({
            let hi = (0xD800 + (c - 0x10000) / 0x400) as u16;
            let lo = (0xDC00 + (c - 0x10000) % 0x400) as u16;
            &&& utf16_prefix(seq![hi, lo] + rest) == seq![c] + utf16_prefix(rest)
            &&& utf16_ok(seq![hi, lo] + rest) == utf16_ok(rest)
        }),
{
    let hi = (0xD800 + (c - 0x10000) / 0x400) as u16;
    let lo = (0xDC00 + (c - 0x10000) % 0x400) as u16;
    let s = seq![hi, lo] + rest;
    assert(s[0] == hi && s[1] == lo);
    assert(s.subrange(2, s.len() as int) =~= rest);
    let v = c - 0x10000;
    assert(v == (v / 0x400) * 0x400 + v % 0x400 && 0 <= v % 0x400 < 0x400 && v / 0x400 < 0x400)
        by (nonlinear_arith)
        requires
            0 <= v <= 0xFFFFF,
    ;
}

/// Encoding one more scalar appends its encoding.
pub proof fn lemma_utf8_of_push(scalars: Seq<u32>, c: u32)
    ensures
        utf8_of(scalars.push(c)) == utf8_of(scalars) + encode_scalar(c),
    decreases scalars.len(),
{
    if scalars.len() == 0 {
        assert(scalars.push(c).drop_first() =~= Seq::<u32>::empty());
        assert(utf8_of(Seq::<u32>::empty()) == Seq::<u8>::empty());
        assert(utf8_of(scalars.push(c)) =~= encode_scalar(c));
    } else {
        assert(scalars.push(c).drop_first() =~= scalars.drop_first().push(c));
        lemma_utf8_of_push(scalars.drop_first(), c);
        assert(utf8_of(scalars.push(c)) =~= utf8_of(scalars) + encode_scalar(c));
    }
}

/// The characters that a sequence of Unicode scalars denotes.
pub open spec fn scalars_to_chars(scalars: Seq<u32>) -> Seq<char> {
    scalars.map_values(|c: u32| c as char)
}

/// Every unit or pair that UTF-16 decoding accepts denotes a Unicode scalar.
pub proof fn lemma_utf16_prefix_scalars(s: Seq<u16>)
    ensures
        forall|i: int| 0 <= i < utf16_prefix(s).len() ==> is_scalar(#[trigger] utf16_prefix(s)[i]),
    decreases s.len(),
{
    if s.len() == 0 {
    } else if !is_surrogate(s[0]) {
        lemma_utf16_prefix_scalars(s.drop_first());
        let p = utf16_prefix(s);
        assert forall|i: int| 0 <= i < p.len() implies is_scalar(#[trigger] p[i]) by {
            if i > 0 {
                assert(p[i] == utf16_prefix(s.drop_first())[i - 1]);
            }
        }
    } else if is_high_surrogate(s[0]) && s.len() >= 2 && is_low_surrogate(s[1]) {
        let rest = s.subrange(2, s.len() as int);
        lemma_utf16_prefix_scalars(rest);
        let p = utf16_prefix(s);
        assert forall|i: int| 0 <= i < p.len() implies is_scalar(#[trigger] p[i]) by {
            if i > 0 {
                assert(p[i] == utf16_prefix(rest)[i - 1]);
            }
        }
    }
}

/// Encoding scalars one by one is the UTF-8 encoding of the characters they denote.
pub proof fn lemma_utf8_of_chars(scalars: Seq<u32>)
    requires
        forall|i: int| 0 <= i < scalars.len() ==> is_scalar(#[trigger] scalars[i]),
    ensures
        utf8_of(scalars) == encode_utf8(scalars_to_chars(scalars)),
    decreases scalars.len(),
{
    if scalars.len() > 0 {
        let rest = scalars.drop_first();
        assert forall|i: int| 0 <= i < rest.len() implies is_scalar(#[trigger] rest[i]) by {
            assert(rest[i] == scalars[i + 1]);
        }
        lemma_utf8_of_chars(rest);
        assert(scalars_to_chars(scalars).drop_first() =~= scalars_to_chars(rest));
        assert(is_scalar(scalars[0]));
        assert(scalars_to_chars(scalars)[0] as u32 == scalars[0]);
    } else {
        assert(scalars_to_chars(scalars) =~= Seq::<char>::empty());
    }
}

/// The bytes a long name decodes to are valid UTF-8, encoding exactly the
/// characters decoded from its UTF-16 units.
pub proof fn lemma_long_name_valid_utf8(units: Seq<u16>)
    ensures
        valid_utf8(utf8_of(utf16_prefix(units))),
        utf8_of(utf16_prefix(units)) == encode_utf8(scalars_to_chars(utf16_prefix(units))),
{
    lemma_utf16_prefix_scalars(units);
    lemma_utf8_of_chars(utf16_prefix(units));
    encode_utf8_valid_utf8(scalars_to_chars(utf16_prefix(units)));
}

/// Slots taken last to first: one more slot in front comes last.
proof fn lemma_units_prepend(x: Seq<u16>, es: Seq<Seq<u16>>)
    ensures
        units_last_to_first(seq![x] + es) == units_last_to_first(es) + x,
    decreases es.len(),
{
    if es.len() == 0 {
        assert((seq![x] + es).drop_last() =~= Seq::<Seq<u16>>::empty());
        assert((seq![x] + es).last() == x);
        assert(units_last_to_first(Seq::<Seq<u16>>::empty()) =~= Seq::<u16>::empty());
        assert(units_last_to_first(seq![x] + es) =~= x + Seq::<u16>::empty());
        assert(x + Seq::<u16>::empty() =~= x);
    } else {
        assert((seq![x] + es).drop_last() =~= seq![x] + es.drop_last());
        lemma_units_prepend(x, es.drop_last());
        assert(units_last_to_first(seq![x] + es) =~= units_last_to_first(es) + x);
    }
}

/// Cutting at the first zero unit: when `s[..p]` holds no zero and `p` ends
/// `s` or holds a zero, the cut keeps exactly `s[..p]`.
proof fn lemma_until_nul_take(s: Seq<u16>, p: int)
    requires
        0 <= p <= s.len(),
        forall|i: int| 0 <= i < p ==> s[i] != 0,
        p == s.len() || s[p] == 0,
    ensures
        until_nul(s) == s.take(p),
    decreases s.len(),
{
    if s.len() == 0 || s[0] == 0 {
        assert(s.take(p) =~= Seq::<u16>::empty());
    } else {
        lemma_until_nul_take(s.drop_first(), p - 1);
        assert(until_nul(s) =~= s.take(p));
    }
}

/// Appends the UTF-8 encoding of the scalar `c` to `dest`.
fn push_utf8(dest: &mut Vec<u8>, c: u32)
    requires
        is_scalar(c),
    ensures
        final(dest)@ == old(dest)@ + encode_scalar(c),
{
    if c <= 0x7F {
        dest.push((c & 0x7F) as u8);
    } else if c <= 0x7FF {
        dest.push(0xC0 | ((c >> 6) & 0x1F) as u8);
        dest.push(0x80 | (c & 0x3F) as u8);
    } else if c <= 0xFFFF {
        dest.push(0xE0 | ((c >> 12) & 0x0F) as u8);
        dest.push(0x80 | ((c >> 6) & 0x3F) as u8);
        dest.push(0x80 | (c & 0x3F) as u8);
    } else {
        dest.push(0xF0 | ((c >> 18) & 0x7) as u8);
        dest.push(0x80 | ((c >> 12) & 0x3F) as u8);
        dest.push(0x80 | ((c >> 6) & 0x3F) as u8);
        dest.push(0x80 | (c & 0x3F) as u8);
    }
    assert(final(dest)@ =~= old(dest)@ + encode_scalar(c));
}

/// The UTF-16 units of the long name held by `entries`, cut at the first zero unit.
fn collect_long_name_units(entries: &[RegularFatLongDirEntry]) -> (units: Vec<u16>)
    ensures
        units@ == long_name_units(slot_units(entries@)),
{
    let mut flat: Vec<u16> = Vec::new();
    let mut i = entries.len();
    assert(entries@.subrange(i as int, entries@.len() as int) =~= Seq::<
        RegularFatLongDirEntry,
    >::empty());
    assert(slot_units(entries@.subrange(i as int, entries@.len() as int)) =~= Seq::<
        Seq<u16>,
    >::empty());
    while i > 0
        invariant
            i <= entries@.len(),
            flat@ == units_last_to_first(slot_units(entries@.subrange(i as int, entries@.len() as int))),
        decreases i,
    {
        let contents = entries[i - 1].name_contents();
        let mut j: usize = 0;
        let ghost before = flat@;
        while j < LONG_NAME_UNITS
            invariant
                j <= LONG_NAME_UNITS,
                contents@.len() == LONG_NAME_UNITS,
                flat@ == before + contents@.take(j as int),
            decreases LONG_NAME_UNITS - j,
        {
            flat.push(contents[j]);
            assert(contents@.take(j + 1) =~= contents@.take(j as int).push(contents@[j as int]));
            j += 1;
        }
        assert(contents@.take(LONG_NAME_UNITS as int) =~= contents@);
        proof {
            let rest = slot_units(entries@.subrange(i as int, entries@.len() as int));
            assert(slot_units(entries@.subrange(i - 1, entries@.len() as int)) =~= seq![
                entries@[i - 1].name@,
            ] + rest);
            lemma_units_prepend(entries@[i - 1].name@, rest);
        }
        i -= 1;
    }
    assert(entries@.subrange(0, entries@.len() as int) =~= entries@);
    let mut units: Vec<u16> = Vec::new();
    let mut p: usize = 0;
    while p < flat.len() && flat[p] != 0
        invariant
            p <= flat@.len(),
            units@ == flat@.take(p as int),
            forall|k: int| 0 <= k < p ==> flat@[k] != 0,
        decreases flat@.len() - p,
    {
        units.push(flat[p]);
        assert(flat@.take(p + 1) =~= flat@.take(p as int).push(flat@[p as int]));
        p += 1;
    }
    proof {
        lemma_until_nul_take(flat@, p as int);
    }
    units
}

impl FatFs {
    /// Decodes the long name held by `entries` (long-name slots in on-disk
    /// order, which is reverse name order) and appends it to `dest` as UTF-8.
    ///
    /// The name ends at its first zero unit. An unpaired surrogate is an I/O
    /// error; the scalars before it have been appended by then.
    pub fn parse_utf16_long_entries(
        entries: &[RegularFatLongDirEntry],
        dest: &mut Vec<u8>,
    ) -> (r: Result<(), Error>)
        ensures
            r is Ok <==> long_name_ok(slot_units(entries@)),
            (forall|i: int|
                0 <= i < long_name_units(slot_units(entries@)).len() ==> !(0xD800u16
                    <= #[trigger] long_name_units(slot_units(entries@))[i] <= 0xDFFFu16)) ==> r is Ok
                && final(dest)@ == old(dest)@ + utf8_of(
                long_name_units(slot_units(entries@)).map_values(|u: u16| u as u32),
            ),
            r is Err ==> r == Err::<(), Error>(Error::Io),
            final(dest)@ == old(dest)@ + long_name_utf8(slot_units(entries@)),
    {
        proof {
            if forall|i: int|
                0 <= i < long_name_units(slot_units(entries@)).len() ==> !(0xD800u16
                    <= #[trigger] long_name_units(slot_units(entries@))[i] <= 0xDFFFu16) {
                lemma_long_name_without_surrogates(slot_units(entries@));
            }
        }
        let units = collect_long_name_units(entries);
        let ghost all = units@;
        let ghost start = dest@;
        let ghost mut done: Seq<u32> = Seq::empty();
        let n = units.len();
        let mut p: usize = 0;
        assert(all.skip(0) =~= all);
        while p < n
            invariant
                n == all.len(),
                units@ == all,
                all == long_name_units(slot_units(entries@)),
                start == old(dest)@,
                p <= n,
                utf16_prefix(all) == done + utf16_prefix(all.skip(p as int)),
                utf16_ok(all) == utf16_ok(all.skip(p as int)),
                dest@ == start + utf8_of(done),
            decreases n - p,
        {
            let u = units[p];
            let ghost rest = all.skip(p as int);
            assert(rest[0] == u);
            if u < 0xD800 || u > 0xDFFF {
                let c = u as u32;
                push_utf8(dest, c);
                proof {
                    lemma_utf8_of_push(done, c);
                    assert(rest.drop_first() =~= all.skip(p + 1));
                    assert(done.push(c) + utf16_prefix(all.skip(p + 1)) =~= done + utf16_prefix(
                        rest,
                    ));
                    done = done.push(c);
                }
                p += 1;
            } else if u <= 0xDBFF && p + 1 < n && units[p + 1] >= 0xDC00 && units[p + 1] <= 0xDFFF {
                let lo = units[p + 1];
                assert(rest[1] == lo);
                let c = 0x10000 + (u as u32 - 0xD800) * 0x400 + (lo as u32 - 0xDC00);
                assert(c == surrogate_pair_scalar(u, lo));
                push_utf8(dest, c);
                proof {
                    lemma_utf8_of_push(done, c);
                    assert(rest.subrange(2, rest.len() as int) =~= all.skip(p + 2));
                    assert(done.push(c) + utf16_prefix(all.skip(p + 2)) =~= done + utf16_prefix(
                        rest,
                    ));
                    done = done.push(c);
                }
                p += 2;
            } else {
                assert(rest.len() == n - p);
                if p + 1 < n {
                    assert(rest[1] == units@[p + 1]);
                }
                assert(!utf16_ok(rest));
                assert(utf16_prefix(rest) =~= Seq::<u32>::empty());
                assert(done + utf16_prefix(rest) =~= done);
                return Err(Error::Io);
            }
        }
        assert(all.skip(n as int) =~= Seq::<u16>::empty());
        assert(done + utf16_prefix(all.skip(n as int)) =~= done);
        Ok(())
    }
}

} // verus!
