//! Byte-stream framer: locates access-unit (NAL) boundaries in a flat buffer
//! of start-code-delimited units, by scanning for the 3-byte `00 00 01` or
//! 4-byte `00 00 00 01` pattern.  A candidate span shorter than four bytes is
//! never an access unit: it is a resync signal, and the caller skips exactly
//! one byte before retrying.

use vstd::prelude::*;

verus! {

/// True when the bytes of `s` beginning at `pos` spell a start code:
/// `00 00 01`, or `00 00 00 01`.  Only positions with a full four-byte
/// window in view (`pos + 3 < s.len()`) are ever tested by the scan.
pub open spec fn start_code_at(s: Seq<u8>, pos: int) -> bool {
    &&& s[pos] == 0u8
    &&& s[pos + 1] == 0u8
    &&& (s[pos + 2] == 1u8 || (s[pos + 2] == 0u8 && s[pos + 3] == 1u8))
}

/// Position of the first start code at or after `pos`, where the scan only
/// tests positions with a full four-byte window; `s.len()` when none is
/// found before the window runs out.
pub open spec fn scan_from(s: Seq<u8>, pos: int) -> int
    decreases s.len() - pos,
{
    if pos + 3 < s.len() {
        if start_code_at(s, pos) {
            pos
        } else {
            scan_from(s, pos + 1)
        }
    } else {
        s.len() as int
    }
}

/// Length assigned to the candidate unit at the front of `s`: the offset of
/// the first start code found scanning from offset 3 (skipping the unit's
/// own start code), or all of `s` when the unscanned remainder drops to
/// three bytes or fewer (tail flush).
pub open spec fn nal_size_spec(s: Seq<u8>) -> int {
    scan_from(s, 3)
}

/// The scan result stays within the buffer, and when it lands before the
/// end it is the first start-code position at or after the scan origin.
pub proof fn lemma_scan_from_bounds(s: Seq<u8>, pos: int)
    requires
        0 <= pos,
    ensures
        scan_from(s, pos) <= s.len(),
        scan_from(s, pos) < s.len() ==> pos <= scan_from(s, pos)
            && scan_from(s, pos) + 3 < s.len()
            && start_code_at(s, scan_from(s, pos)),
        forall|i: int|
            pos <= i < scan_from(s, pos) && i + 3 < s.len() ==> !start_code_at(s, i),
    decreases s.len() - pos,
{
    if pos + 3 < s.len() {
        if !start_code_at(s, pos) {
            lemma_scan_from_bounds(s, pos + 1);
        }
    }
}

/// Boundary of the access unit at the front of `buf`: the distance to the
/// next start code, or `size` (the whole remainder) when none is in view.
/// A result below four tells the caller to resynchronize by one byte.
pub fn get_nal_size(buf: &[u8], size: usize) -> (r: usize)
    requires
        size == buf@.len(),
    ensures
        r == nal_size_spec(buf@),
{
    let mut pos: usize = 3;
    while pos < size && size - pos > 3
        invariant
            size == buf@.len(),
            3 <= pos,
            pos <= size || pos == 3,
            scan_from(buf@, 3) == scan_from(buf@, pos as int),
        decreases size - pos,
    {
        if buf[pos] == 0 && buf[pos + 1] == 0 && buf[pos + 2] == 1 {
            return pos;
        }
        if buf[pos] == 0 && buf[pos + 1] == 0 && buf[pos + 2] == 0 && buf[pos + 3] == 1 {
            return pos;
        }
        pos = pos + 1;
    }
    size
}

/// Length the framer assigns to the candidate unit beginning at absolute
/// offset `c` of the buffer, i.e. `nal_size_spec` of the remainder.
pub open spec fn unit_len_at(s: Seq<u8>, c: int) -> int {
    nal_size_spec(s.subrange(c, s.len() as int))
}

/// The candidate length at any in-bounds cursor is at least one and never
/// reaches past the end of the buffer, so the framer strictly advances.
pub proof fn lemma_unit_len_at_bounds(s: Seq<u8>, c: int)
    requires
        0 <= c < s.len(),
    ensures
        1 <= unit_len_at(s, c),
        c + unit_len_at(s, c) <= s.len(),
{
    lemma_scan_from_bounds(s.subrange(c, s.len() as int), 3);
}

/// The access units the framer emits from cursor `c` onward, as
/// `(offset, length)` pairs: a candidate shorter than four bytes is skipped
/// by one byte, any other is emitted and consumed whole.
pub open spec fn units_from(s: Seq<u8>, c: int) -> Seq<(int, int)>
    decreases s.len() - c,
        when 0 <= c
        via units_from_decreases
{
    if c >= s.len() {
        Seq::empty()
    } else if unit_len_at(s, c) < 4 {
        units_from(s, c + 1)
    } else {
        seq![(c, unit_len_at(s, c))] + units_from(s, c + unit_len_at(s, c))
    }
}

#[via_fn]
proof fn units_from_decreases(s: Seq<u8>, c: int) {
    if 0 <= c < s.len() {
        lemma_unit_len_at_bounds(s, c);
    }
}

/// How many single-byte resync skips the framer performs from cursor `c`
/// onward.
pub open spec fn skips_from(s: Seq<u8>, c: int) -> int
    decreases s.len() - c,
        when 0 <= c
        via skips_from_decreases
{
    if c >= s.len() {
        0
    } else if unit_len_at(s, c) < 4 {
        1 + skips_from(s, c + 1)
    } else {
        skips_from(s, c + unit_len_at(s, c))
    }
}

#[via_fn]
proof fn skips_from_decreases(s: Seq<u8>, c: int) {
    if 0 <= c < s.len() {
        lemma_unit_len_at_bounds(s, c);
    }
}

/// Sum of the lengths of a sequence of `(offset, length)` unit spans.
pub open spec fn total_unit_len(units: Seq<(int, int)>) -> int
    decreases units.len(),
{
    if units.len() == 0 {
        0
    } else {
        units[0].1 + total_unit_len(units.drop_first())
    }
}

/// Every emitted unit lies within the buffer, is at least four bytes long,
/// and begins at or after the cursor the framing started from.
pub proof fn lemma_units_from_wf(s: Seq<u8>, c: int)
    requires
        0 <= c <= s.len(),
    ensures
        forall|i: int|
            0 <= i < units_from(s, c).len() ==> {
                &&& c <= #[trigger] units_from(s, c)[i].0
                &&& 4 <= units_from(s, c)[i].1
                &&& units_from(s, c)[i].0 + units_from(s, c)[i].1 <= s.len()
            },
    decreases s.len() - c,
{
    if c < s.len() {
        lemma_unit_len_at_bounds(s, c);
        let n = unit_len_at(s, c);
        if n < 4 {
            lemma_units_from_wf(s, c + 1);
            assert(units_from(s, c) == units_from(s, c + 1));
        } else {
            lemma_units_from_wf(s, c + n);
            let rest = units_from(s, c + n);
            let whole = seq![(c, n)] + rest;
            assert(units_from(s, c) == whole);
            assert forall|i: int| 0 <= i < whole.len() implies {
                &&& c <= #[trigger] whole[i].0
                &&& 4 <= whole[i].1
                &&& whole[i].0 + whole[i].1 <= s.len()
            } by {
                if i > 0 {
                    assert(whole[i] == rest[i - 1]);
                }
            }
        }
    }
}

/// Framer termination and accounting law: over one whole buffer, the
/// emitted unit lengths and the single-byte resync skips together account
/// for every byte exactly once.
pub proof fn lemma_framer_partition(s: Seq<u8>)
    ensures
        total_unit_len(units_from(s, 0)) + skips_from(s, 0) == s.len(),
{
    lemma_framer_partition_from(s, 0);
}

proof fn lemma_framer_partition_from(s: Seq<u8>, c: int)
    requires
        0 <= c <= s.len(),
    ensures
        total_unit_len(units_from(s, c)) + skips_from(s, c) == s.len() - c,
    decreases s.len() - c,
{
    if c < s.len() {
        lemma_unit_len_at_bounds(s, c);
        let n = unit_len_at(s, c);
        if n < 4 {
            lemma_framer_partition_from(s, c + 1);
        } else {
            lemma_framer_partition_from(s, c + n);
            let rest = units_from(s, c + n);
            let whole = seq![(c, n)] + rest;
            assert(whole.drop_first() =~= rest);
        }
    }
}

/// One framer step over a fixed buffer, as seen by the caller of
/// `get_nal_size`: an access unit, a one-byte resync skip, or the end of
/// the buffer.
#[derive(PartialEq, Eq, Structural, Clone, Copy, Debug)]
pub enum FramerStep {
    /// An access unit of `len >= 4` bytes beginning at `offset`.
    Unit { offset: usize, len: usize },
    /// The candidate at `offset` was shorter than four bytes; one byte was
    /// skipped to resynchronize.
    Skip { offset: usize },
    /// The buffer is fully consumed.
    Done,
}

/// Cursor of the lazy, non-restartable unit sequence over one buffer.
pub struct Framer {
    /// Offset of the first unconsumed byte.
    pub cursor: usize,
}

impl Framer {
    /// A framer positioned at the start of a buffer.
    pub fn new() -> (r: Framer)
        ensures
            r.cursor == 0,
    {
        Framer { cursor: 0 }
    }

    /// Advance by one framing step.  A `Skip` result moves the cursor by
    /// exactly one byte — resynchronization makes strict progress — and a
    /// `Unit` result consumes the unit whole.
    pub fn step(&mut self, data: &[u8]) -> (r: FramerStep)
        requires
            old(self).cursor <= data@.len(),
        ensures
            final(self).cursor <= data@.len(),
            old(self).cursor == data@.len() ==> r == FramerStep::Done
                && final(self).cursor == old(self).cursor,
            old(self).cursor < data@.len() && unit_len_at(data@, old(self).cursor as int) < 4
                ==> r == (FramerStep::Skip { offset: old(self).cursor })
                && final(self).cursor == old(self).cursor + 1,
            old(self).cursor < data@.len() && unit_len_at(data@, old(self).cursor as int) >= 4
                ==> r == (FramerStep::Unit {
                    offset: old(self).cursor,
                    len: unit_len_at(data@, old(self).cursor as int) as usize,
                })
                && final(self).cursor == old(self).cursor
                    + unit_len_at(data@, old(self).cursor as int),
    {
        if self.cursor >= data.len() {
            return FramerStep::Done;
        }
        proof {
            lemma_unit_len_at_bounds(data@, self.cursor as int);
        }
        let rest = vstd::slice::slice_subrange(data, self.cursor, data.len());
        let n = get_nal_size(rest, data.len() - self.cursor);
        if n < 4 {
            let offset = self.cursor;
            self.cursor = self.cursor + 1;
            FramerStep::Skip { offset }
        } else {
            let offset = self.cursor;
            self.cursor = self.cursor + n;
            FramerStep::Unit { offset, len: n }
        }
    }
}

/// An access unit located inside the caller's buffer.
#[derive(PartialEq, Eq, Structural, Clone, Copy, Debug)]
pub struct NalUnit {
    /// Offset of the unit's first byte (the start code included).
    pub offset: usize,
    /// Length of the unit in bytes; at least four.
    pub len: usize,
}

/// The `(offset, length)` spans of a sequence of located units.
pub open spec fn units_view(v: Seq<NalUnit>) -> Seq<(int, int)> {
    v.map_values(|u: NalUnit| (u.offset as int, u.len as int))
}

/// Split a whole buffer into its access units, resynchronizing over stray
/// bytes.  Returns the units in stream order together with the number of
/// single-byte skips; units and skips together cover the buffer exactly.
pub fn split_units(data: &[u8]) -> (r: (Vec<NalUnit>, usize))
    ensures
        units_view(r.0@) == units_from(data@, 0),
        r.1 == skips_from(data@, 0),
        total_unit_len(units_view(r.0@)) + r.1 == data@.len(),
        forall|i: int|
            0 <= i < r.0@.len() ==> {
                &&& 4 <= (#[trigger] r.0@[i]).len
                &&& r.0@[i].offset + r.0@[i].len <= data@.len()
            },
{
    let mut framer = Framer::new();
    let mut units: Vec<NalUnit> = Vec::new();
    let mut skips: usize = 0;
    proof {
        lemma_skips_from_le(data@, 0);
    }
    while framer.cursor < data.len()
        invariant
            framer.cursor <= data@.len(),
            units_from(data@, 0) =~= units_view(units@) + units_from(
                data@,
                framer.cursor as int,
            ),
            skips_from(data@, 0) == skips + skips_from(data@, framer.cursor as int),
            skips_from(data@, 0) <= data@.len(),
            skips <= data@.len(),
        decreases data@.len() - framer.cursor,
    {
        let ghost c = framer.cursor as int;
        proof {
            lemma_unit_len_at_bounds(data@, c);
            lemma_skips_from_le(data@, c);
        }
        match framer.step(data) {
            FramerStep::Unit { offset, len } => {
                let ghost before = units@;
                units.push(NalUnit { offset, len });
                proof {
                    assert(units_view(units@) =~= units_view(before).push(
                        (offset as int, len as int),
                    ));
                    assert(units_view(before) + units_from(data@, c) =~= units_view(units@)
                        + units_from(data@, c + len));
                }
            },
            FramerStep::Skip { offset: _ } => {
                proof {
                    lemma_skips_from_le(data@, c + 1);
                    assert(skips_from(data@, c) == 1 + skips_from(data@, c + 1));
                }
                skips = skips + 1;
            },
            FramerStep::Done => {},
        }
    }
    proof {
        lemma_framer_partition(data@);
        lemma_units_from_wf(data@, 0);
        assert forall|i: int| 0 <= i < units@.len() implies {
            &&& 4 <= (#[trigger] units@[i]).len
            &&& units@[i].offset + units@[i].len <= data@.len()
        } by {
            assert(units_view(units@) =~= units_from(data@, 0));
            assert(units_view(units@)[i] == (units@[i].offset as int, units@[i].len as int));
            assert(units_from(data@, 0)[i].0 == units@[i].offset as int);
            assert(units_from(data@, 0)[i].1 == units@[i].len as int);
        }
    }
    (units, skips)
}

/// There are never more skips left than bytes left.
proof fn lemma_skips_from_le(s: Seq<u8>, c: int)
    requires
        0 <= c <= s.len(),
    ensures
        skips_from(s, c) <= s.len() - c,
        0 <= skips_from(s, c),
    decreases s.len() - c,
{
    if c < s.len() {
        lemma_unit_len_at_bounds(s, c);
        let n = unit_len_at(s, c);
        if n < 4 {
            lemma_skips_from_le(s, c + 1);
        } else {
            lemma_skips_from_le(s, c + n);
        }
    }
}

} // verus!
