//! A fixed-size grid of small numbers that is kept as one value, as a short
//! palette with a half-byte index per cell, or as one number per cell, and
//! its encoding in the wire format.

use vstd::prelude::*;
use vstd::arithmetic::power2::pow2;
use crate::bits::bit_width;
use crate::bits::compact_u64s_len;
use crate::bits::spec_bit_width;
use crate::bits::spec_compact_u64s_len;
use crate::wire::packed_bytes;
use crate::wire::var_int_bytes;
use crate::wire::write_packed;
use crate::wire::write_u8;
use crate::wire::write_var_u32;

verus! {

/// The most entries a palette can have: an index is a half-byte.
pub const MAX_PALETTE_LEN: usize = 16;

/// What a paletted container holds, and in which of its three forms.
pub enum Palette {
    /// Every cell holds the same value.
    Single(u32),
    /// Cell `i` holds `palette[indices[i]]`.
    Indirect { palette: Seq<u32>, indices: Seq<u8> },
    /// Cell `i` holds `cells[i]`.
    Direct { cells: Seq<u32> },
}

/// The larger of two numbers.
pub open spec fn spec_max(a: nat, b: nat) -> nat {
    if a >= b {
        a
    } else {
        b
    }
}

/// The variable-length forms of the palette's entries, one after the other.
pub open spec fn palette_entries_bytes(palette: Seq<u32>) -> Seq<u8>
    decreases palette.len(),
{
    if palette.len() == 0 {
        Seq::empty()
    } else {
        palette_entries_bytes(palette.drop_last()) + var_int_bytes(palette.last())
    }
}

/// The encoding of a grid with one number per cell: the width in bits, the
/// number of 64-bit words, and the cells packed at that width. It has no
/// palette.
pub open spec fn direct_encoding(cells: Seq<u32>, direct_bits: nat) -> Seq<u8> {
    seq![direct_bits as u8] + var_int_bytes(
        spec_compact_u64s_len(cells.len(), direct_bits) as u32,
    ) + packed_bytes(cells.map_values(|v: u32| v as u64), direct_bits)
}

/// The different values among `cells`, in the order in which each appears
/// first.
pub open spec fn distinct_values(cells: Seq<u32>) -> Seq<u32>
    decreases cells.len(),
{
    if cells.len() == 0 {
        Seq::empty()
    } else {
        let before = distinct_values(cells.drop_last());
        if before.contains(cells.last()) {
            before
        } else {
            before.push(cells.last())
        }
    }
}

/// The different values among `cells` are all different, each of them is
/// among `cells`, and each of `cells` is among them.
pub proof fn lemma_distinct_values(cells: Seq<u32>)
    ensures
        distinct_values(cells).no_duplicates(),
        distinct_values(cells).len() <= cells.len(),
        cells.len() > 0 ==> distinct_values(cells).len() > 0,
        forall|i: int| 0 <= i < cells.len() ==> distinct_values(cells).contains(#[trigger] cells[i]),
        forall|k: int|
            0 <= k < distinct_values(cells).len() ==> cells.contains(
                #[trigger] distinct_values(cells)[k],
            ),
    decreases cells.len(),
{
    if cells.len() > 0 {
        let front = cells.drop_last();
        let before = distinct_values(front);
        let values = distinct_values(cells);
        lemma_distinct_values(front);
        assert forall|i: int| 0 <= i < cells.len() implies values.contains(#[trigger] cells[i]) by {
            if i < front.len() {
                assert(before.contains(front[i]));
                let k = choose|k: int| 0 <= k < before.len() && before[k] == front[i];
                assert(values[k] == cells[i]);
            } else if before.contains(cells.last()) {
            } else {
                assert(values[before.len() as int] == cells[i]);
            }
        }
        assert forall|k: int| 0 <= k < values.len() implies cells.contains(#[trigger] values[k]) by {
            if k < before.len() {
                assert(front.contains(before[k]));
                let i = choose|i: int| 0 <= i < front.len() && front[i] == before[k];
                assert(cells[i] == values[k]);
            } else {
                assert(cells[cells.len() - 1] == values[k]);
            }
        }
        if !before.contains(cells.last()) {
            assert forall|a: int, b: int|
                0 <= a < values.len() && 0 <= b < values.len() && a != b implies values[a]
                != values[b] by {
                if a < before.len() && b < before.len() {
                    assert(before[a] != before[b]);
                } else if a < before.len() {
                    assert(before.contains(before[a]));
                } else if b < before.len() {
                    assert(before.contains(before[b]));
                }
            }
        }
    }
}

/// The different values of the first `n` cells come first among the
/// different values of all cells.
pub proof fn lemma_distinct_values_of_prefix(cells: Seq<u32>, n: int)
    requires
        0 <= n <= cells.len(),
    ensures
        distinct_values(cells.take(n)).len() <= distinct_values(cells).len(),
        distinct_values(cells.take(n)) == distinct_values(cells).take(
            distinct_values(cells.take(n)).len() as int,
        ),
    decreases cells.len() - n,
{
    if n == cells.len() {
        assert(cells.take(n) =~= cells);
        assert(distinct_values(cells).take(distinct_values(cells).len() as int) =~= distinct_values(
            cells,
        ));
    } else {
        lemma_distinct_values_of_prefix(cells, n + 1);
        assert(cells.take(n + 1).drop_last() =~= cells.take(n));
        let shorter = distinct_values(cells.take(n));
        assert(shorter =~= distinct_values(cells).take(shorter.len() as int));
    }
}

impl Palette {
    /// The container in the smallest form that holds its cells: one value
    /// where all cells are the same; a palette of the different values, in
    /// the order in which each appears first, where there are at most
    /// sixteen; and as it is where there are more. A container that is kept
    /// as one value stays as it is.
    pub open spec fn shrink_to_fit(self, len: nat) -> Palette {
        let cells = self.cells(len);
        let values = distinct_values(cells);
        if self is Single || values.len() > MAX_PALETTE_LEN {
            self
        } else if values.len() == 1 {
            Palette::Single(values[0])
        } else {
            Palette::Indirect {
                palette: values,
                indices: Seq::new(len, |i: int| values.index_of(cells[i]) as u8),
            }
        }
    }

    /// The palette has between two and sixteen entries, all different, every
    /// cell's index points into it, and there is one cell per position.
    pub open spec fn wf(self, len: nat) -> bool {
        match self {
            Palette::Single(_) => true,
            Palette::Indirect { palette, indices } => {
                &&& 2 <= palette.len() <= MAX_PALETTE_LEN
                &&& palette.no_duplicates()
                &&& indices.len() == len
                &&& forall|i: int| 0 <= i < len ==> (#[trigger] indices[i]) < palette.len()
            },
            Palette::Direct { cells } => cells.len() == len,
        }
    }

    /// The value of every cell, in order.
    pub open spec fn cells(self, len: nat) -> Seq<u32> {
        match self {
            Palette::Single(v) => Seq::new(len, |i: int| v),
            Palette::Indirect { palette, indices } => Seq::new(
                len,
                |i: int| palette[indices[i] as int],
            ),
            Palette::Direct { cells } => cells,
        }
    }

    /// The container after cell `idx` is set to `val`. One value becomes a
    /// palette of two when another value arrives; a palette takes a new value
    /// while it has room, and gives way to one number per cell when it is
    /// full. Writing the value that a cell already holds changes nothing.
    pub open spec fn set(self, len: nat, idx: int, val: u32) -> Palette {
        match self {
            Palette::Single(old) => if old == val {
                self
            } else {
                Palette::Indirect {
                    palette: seq![old, val],
                    indices: Seq::new(
                        len,
                        |i: int|
                            if i == idx {
                                1u8
                            } else {
                                0u8
                            },
                    ),
                }
            },
            Palette::Indirect { palette, indices } => if palette.contains(val) {
                Palette::Indirect {
                    palette,
                    indices: indices.update(idx, palette.index_of(val) as u8),
                }
            } else if palette.len() < MAX_PALETTE_LEN {
                Palette::Indirect {
                    palette: palette.push(val),
                    indices: indices.update(idx, palette.len() as u8),
                }
            } else {
                Palette::Direct { cells: self.cells(len).update(idx, val) }
            },
            Palette::Direct { cells } => Palette::Direct { cells: cells.update(idx, val) },
        }
    }

    /// The width of an index when the container is written with its palette.
    pub open spec fn bits_per_entry(self, min_indirect_bits: nat) -> nat {
        match self {
            Palette::Indirect { palette, indices } => spec_max(
                min_indirect_bits,
                spec_bit_width((palette.len() - 1) as nat),
            ),
            _ => 0,
        }
    }

    /// Whether the container is written with one number per cell: it is kept
    /// that way, or its palette needs wider indices than `max_indirect_bits`.
    pub open spec fn encodes_direct(self, min_indirect_bits: nat, max_indirect_bits: nat) -> bool {
        match self {
            Palette::Single(_) => false,
            Palette::Indirect { .. } => self.bits_per_entry(min_indirect_bits) > max_indirect_bits,
            Palette::Direct { .. } => true,
        }
    }

    /// Whether the container can be written at these widths: when it is
    /// written with one number per cell, `direct_bits` is at least one and
    /// every cell is below two to the power `direct_bits`.
    pub open spec fn encodable(
        self,
        len: nat,
        min_indirect_bits: nat,
        max_indirect_bits: nat,
        direct_bits: nat,
    ) -> bool {
        self.encodes_direct(min_indirect_bits, max_indirect_bits) ==> {
            &&& 1 <= direct_bits
            &&& forall|i: int| 0 <= i < len ==> (#[trigger] self.cells(len)[i]) < pow2(direct_bits)
        }
    }

    /// The bytes of the container in the wire format.
    ///
    /// One value: width zero, the value, and a word count of zero. A palette:
    /// the index width, the number of entries, the entries, the word count,
    /// and the indices packed at that width. One number per cell: see
    /// [`direct_encoding`].
    pub open spec fn encoding(
        self,
        len: nat,
        min_indirect_bits: nat,
        max_indirect_bits: nat,
        direct_bits: nat,
    ) -> Seq<u8> {
        match self {
            Palette::Single(v) => seq![0u8] + var_int_bytes(v) + var_int_bytes(0),
            Palette::Indirect { palette, indices } => {
                let bits = self.bits_per_entry(min_indirect_bits);
                if bits > max_indirect_bits {
                    direct_encoding(self.cells(len), direct_bits)
                } else {
                    seq![bits as u8] + var_int_bytes(palette.len() as u32) + palette_entries_bytes(
                        palette,
                    ) + var_int_bytes(spec_compact_u64s_len(len, bits) as u32) + packed_bytes(
                        indices.map_values(|p: u8| p as u64),
                        bits,
                    )
                }
            },
            Palette::Direct { cells } => direct_encoding(cells, direct_bits),
        }
    }
}

/// Setting a cell keeps the container well formed, changes that cell and no
/// other.
pub proof fn lemma_set_cells(p: Palette, len: nat, idx: int, val: u32)
    requires
        p.wf(len),
        0 <= idx < len,
    ensures
        p.set(len, idx, val).wf(len),
        p.set(len, idx, val).cells(len) == p.cells(len).update(idx, val),
{
    let q = p.set(len, idx, val);
    match p {
        Palette::Single(old) => {
            if old != val {
                let palette = seq![old, val];
                assert(palette.no_duplicates());
            }
        },
        Palette::Indirect { palette, indices } => {
            if palette.contains(val) {
                let k = palette.index_of(val);
                assert(0 <= k < palette.len() && palette[k] == val);
            } else if palette.len() < MAX_PALETTE_LEN {
                let wider = palette.push(val);
                assert(wider.no_duplicates()) by {
                    assert forall|i: int, j: int|
                        0 <= i < wider.len() && 0 <= j < wider.len() && i != j implies wider[i]
                        != wider[j] by {
                        if i < palette.len() && j < palette.len() {
                            assert(palette[i] != palette[j]);
                        } else if i < palette.len() {
                            assert(palette.contains(palette[i]));
                        } else if j < palette.len() {
                            assert(palette.contains(palette[j]));
                        }
                    }
                }
            }
        },
        Palette::Direct { cells } => {},
    }
    assert(q.cells(len) =~= p.cells(len).update(idx, val));
}

/// Writing into a cell the value that it holds leaves the container as it
/// is, form and all.
pub proof fn lemma_set_same_value(p: Palette, len: nat, idx: int)
    requires
        p.wf(len),
        0 <= idx < len,
    ensures
        p.set(len, idx, p.cells(len)[idx]) == p,
{
    match p {
        Palette::Single(old) => {},
        Palette::Indirect { palette, indices } => {
            let k = indices[idx] as int;
            assert(palette[k] == p.cells(len)[idx]);
            assert(palette.contains(palette[k]));
            let found = palette.index_of(palette[k]);
            assert(0 <= found < palette.len() && palette[found] == palette[k]);
            assert(found == k);
            assert(indices.update(idx, found as u8) =~= indices);
        },
        Palette::Direct { cells } => {
            assert(cells.update(idx, cells[idx]) =~= cells);
        },
    }
}

/// The palette of the palette form, with two cell indices in each byte.
pub struct Indirect {
    palette: Vec<u32>,
    indices: Vec<u8>,
}

/// The half of byte `b` that belongs to cell `idx`: the low half for an even
/// cell, the high half for an odd one.
pub open spec fn spec_half(b: u8, idx: int) -> u8 {
    if idx % 2 == 0 {
        b % 16
    } else {
        b / 16
    }
}

impl Indirect {
    pub closed spec fn palette_view(&self) -> Seq<u32> {
        self.palette@
    }

    pub closed spec fn indices_view(&self, len: nat) -> Seq<u8> {
        Seq::new(len, |i: int| spec_half(self.indices@[i / 2], i))
    }

    pub closed spec fn bytes_len(&self) -> nat {
        self.indices@.len()
    }

    fn index_at(&self, idx: usize) -> (p: u8)
        requires
            idx / 2 < self.bytes_len(),
        ensures
            p == spec_half(self.indices@[idx as int / 2], idx as int),
            p < 16,
    {
        let b: u8 = self.indices[idx / 2];
        if idx % 2 == 0 {
            b % 16
        } else {
            b / 16
        }
    }

    fn position(&self, val: u32) -> (found: Option<usize>)
        ensures
            match found {
                Some(k) => k < self.palette@.len() && self.palette@[k as int] == val,
                None => !self.palette@.contains(val),
            },
    {
        let mut k: usize = 0;
        while k < self.palette.len()
            invariant
                k <= self.palette@.len(),
                forall|j: int| 0 <= j < k ==> self.palette@[j] != val,
            decreases self.palette@.len() - k,
        {
            if self.palette[k] == val {
                return Some(k);
            }
            k = k + 1;
        }
        None
    }

    fn put_index(&mut self, idx: usize, p: u8)
        requires
            idx / 2 < old(self).bytes_len(),
            p < 16,
        ensures
            final(self).palette@ == old(self).palette@,
            final(self).indices@.len() == old(self).indices@.len(),
            forall|len: nat|
                idx < len && (len + 1) / 2 == old(self).bytes_len() ==> (#[trigger] final(self).indices_view(len))
                    == old(self).indices_view(len).update(idx as int, p),
    {
        let b: u8 = self.indices[idx / 2];
        let nb: u8 = if idx % 2 == 0 {
            b / 16 * 16 + p
        } else {
            b % 16 + p * 16
        };
        self.indices[idx / 2] = nb;
        assert forall|len: nat| idx < len && (len + 1) / 2 == old(self).bytes_len() implies (
        #[trigger] self.indices_view(len)) == old(self).indices_view(len).update(
            idx as int,
            p,
        ) by {
            assert(self.indices_view(len) =~= old(self).indices_view(len).update(idx as int, p));
        }
    }
}

/// A grid of `LEN` cells.
pub enum PalettedContainer<const LEN: usize> {
    Single(u32),
    Indirect(Indirect),
    Direct(Vec<u32>),
}

impl<const LEN: usize> View for PalettedContainer<LEN> {
    type V = Palette;

    closed spec fn view(&self) -> Palette {
        match self {
            PalettedContainer::Single(v) => Palette::Single(*v),
            PalettedContainer::Indirect(ind) => Palette::Indirect {
                palette: ind.palette_view(),
                indices: ind.indices_view(LEN as nat),
            },
            PalettedContainer::Direct(cells) => Palette::Direct { cells: cells@ },
        }
    }
}

impl<const LEN: usize> PalettedContainer<LEN> {
    /// The container has at least one cell, its length fits the wire format,
    /// and its content is well formed.
    pub closed spec fn wf(&self) -> bool {
        &&& 0 < LEN <= u32::MAX
        &&& self@.wf(LEN as nat)
        &&& match self {
            PalettedContainer::Indirect(ind) => ind.bytes_len() == (LEN + 1) / 2,
            _ => true,
        }
    }

    /// The value of every cell, in order.
    pub open spec fn cells(&self) -> Seq<u32> {
        self@.cells(LEN as nat)
    }

    /// What `wf` says of the content.
    pub proof fn lemma_wf(&self)
        requires
            self.wf(),
        ensures
            0 < LEN <= u32::MAX,
            self@.wf(LEN as nat),
            self.cells().len() == LEN,
    {
    }

    /// A container whose cells all hold zero.
    pub fn new() -> (c: Self)
        requires
            0 < LEN <= u32::MAX,
        ensures
            c.wf(),
            c@ == Palette::Single(0),
    {
        PalettedContainer::Single(0)
    }

    /// Sets every cell to `val`.
    pub fn fill(&mut self, val: u32)
        requires
            old(self).wf(),
        ensures
            final(self).wf(),
            final(self)@ == Palette::Single(val),
    {
        *self = PalettedContainer::Single(val);
    }

    /// The value of cell `idx`.
    pub fn get(&self, idx: usize) -> (val: u32)
        requires
            self.wf(),
            idx < LEN,
        ensures
            val == self.cells()[idx as int],
    {
        match self {
            PalettedContainer::Single(v) => *v,
            PalettedContainer::Indirect(ind) => {
                let p = ind.index_at(idx);
                assert(p == self@->Indirect_indices[idx as int]);
                ind.palette[p as usize]
            },
            PalettedContainer::Direct(cells) => cells[idx],
        }
    }

    /// A copy of the container, in the same form.
    pub fn duplicate(&self) -> (copy: Self)
        requires
            self.wf(),
        ensures
            copy.wf(),
            copy@ == self@,
    {
        match self {
            PalettedContainer::Single(v) => PalettedContainer::Single(*v),
            PalettedContainer::Indirect(ind) => {
                let palette = ind.palette.clone();
                let indices = ind.indices.clone();
                assert(palette@ =~= ind.palette@);
                assert(indices@ =~= ind.indices@);
                PalettedContainer::Indirect(Indirect { palette, indices })
            },
            PalettedContainer::Direct(cells) => {
                let copy = cells.clone();
                assert(copy@ =~= cells@);
                PalettedContainer::Direct(copy)
            },
        }
    }

    /// The one value of the container, if it is kept as one value.
    pub fn as_single(&self) -> (single: Option<u32>)
        ensures
            match single {
                Some(v) => self@ == Palette::Single(v),
                None => !(self@ is Single),
            },
    {
        match self {
            PalettedContainer::Single(v) => Some(*v),
            _ => None,
        }
    }

    /// The value of every cell, in order.
    pub fn to_cells(&self) -> (cells: Vec<u32>)
        requires
            self.wf(),
        ensures
            cells@ == self.cells(),
    {
        let mut cells: Vec<u32> = Vec::new();
        let mut i: usize = 0;
        while i < LEN
            invariant
                self.wf(),
                i <= LEN,
                cells@ == self.cells().take(i as int),
            decreases LEN - i,
        {
            let v = self.get(i);
            cells.push(v);
            assert(cells@ =~= self.cells().take(i + 1));
            i = i + 1;
        }
        assert(self.cells().take(LEN as int) =~= self.cells());
        cells
    }

    /// Sets cell `idx` to `val` and returns the value that it held.
    pub fn set(&mut self, idx: usize, val: u32) -> (old_val: u32)
        requires
            old(self).wf(),
            idx < LEN,
        ensures
            final(self).wf(),
            final(self)@ == old(self)@.set(LEN as nat, idx as int, val),
            final(self).cells() == old(self).cells().update(idx as int, val),
            old_val == old(self).cells()[idx as int],
    {
        let old_val = self.get(idx);
        proof {
            lemma_set_cells(self@, LEN as nat, idx as int, val);
        }
        match self {
            PalettedContainer::Single(v) => {
                let single: u32 = *v;
                if single != val {
                    let mut indices: Vec<u8> = vec![0u8; LEN / 2 + LEN % 2];
                    let mark: u8 = if idx % 2 == 0 {
                        1
                    } else {
                        16
                    };
                    indices[idx / 2] = mark;
                    let mut palette: Vec<u32> = Vec::new();
                    palette.push(single);
                    palette.push(val);
                    let ind = Indirect { palette, indices };
                    assert(ind.palette_view() =~= seq![single, val]);
                    let ghost target = old(self)@.set(LEN as nat, idx as int, val);
                    assert(ind.indices_view(LEN as nat) =~= target->Indirect_indices);
                    *self = PalettedContainer::Indirect(ind);
                }
            },
            PalettedContainer::Indirect(ind) => {
                let ghost before = ind.palette_view();
                match ind.position(val) {
                    Some(k) => {
                        proof {
                            let chosen = before.index_of(val);
                            assert(before.contains(val));
                            assert(0 <= chosen < before.len() && before[chosen] == val);
                            assert(chosen == k);
                        }
                        ind.put_index(idx, k as u8);
                    },
                    None => {
                        if ind.palette.len() < MAX_PALETTE_LEN {
                            let k = ind.palette.len();
                            ind.palette.push(val);
                            ind.put_index(idx, k as u8);
                        } else {
                            let mut cells = self.to_cells();
                            cells[idx] = val;
                            *self = PalettedContainer::Direct(cells);
                        }
                    },
                }
            },
            PalettedContainer::Direct(cells) => {
                cells[idx] = val;
            },
        }
        old_val
    }

    /// Brings the container into the smallest form that holds its cells.
    pub fn shrink_to_fit(&mut self)
        requires
            old(self).wf(),
        ensures
            final(self).wf(),
            final(self)@ == old(self)@.shrink_to_fit(LEN as nat),
            final(self).cells() == old(self).cells(),
    {
        if self.as_single().is_some() {
            return ;
        }
        let cells = self.to_cells();
        let mut ind = Indirect { palette: Vec::new(), indices: vec![0u8; LEN / 2 + LEN % 2] };
        let mut i: usize = 0;
        assert(cells@.take(0) =~= Seq::<u32>::empty());
        while i < LEN
            invariant
                0 < LEN <= u32::MAX,
                cells@.len() == LEN,
                i <= LEN,
                *self == *old(self),
                old(self).wf(),
                !(old(self)@ is Single),
                cells@ == old(self).cells(),
                ind.palette@ == distinct_values(cells@.take(i as int)),
                ind.palette@.len() <= MAX_PALETTE_LEN,
                ind.bytes_len() == (LEN + 1) / 2,
                forall|j: int|
                    0 <= j < i ==> (#[trigger] ind.indices_view(LEN as nat)[j]) < ind.palette@.len()
                        && ind.palette@[ind.indices_view(LEN as nat)[j] as int] == cells@[j],
            decreases LEN - i,
        {
            let v = cells[i];
            assert(cells@.take(i + 1).drop_last() =~= cells@.take(i as int));
            let ghost before = ind.indices_view(LEN as nat);
            let k: usize = match ind.position(v) {
                Some(k) => k,
                None => {
                    if ind.palette.len() >= MAX_PALETTE_LEN {
                        proof {
                            lemma_distinct_values_of_prefix(cells@, i + 1);
                        }
                        return ;
                    }
                    ind.palette.push(v);
                    ind.palette.len() - 1
                },
            };
            ind.put_index(i, k as u8);
            assert(ind.indices_view(LEN as nat) == before.update(i as int, k as u8));
            i = i + 1;
        }
        proof {
            assert(cells@.take(LEN as int) =~= cells@);
            lemma_distinct_values(cells@);
            let values = distinct_values(cells@);
            let target = old(self)@.shrink_to_fit(LEN as nat);
            assert forall|j: int| 0 <= j < LEN implies ind.indices_view(LEN as nat)[j]
                == values.index_of(cells@[j]) as u8 by {
                let p = ind.indices_view(LEN as nat)[j] as int;
                assert(values[p] == cells@[j]);
                assert(values.contains(cells@[j]));
                let q = values.index_of(cells@[j]);
                assert(0 <= q < values.len() && values[q] == cells@[j]);
                assert(p == q);
            }
            if values.len() != 1 {
                assert(ind.indices_view(LEN as nat) =~= target->Indirect_indices);
            } else {
                assert(Seq::new(LEN as nat, |i: int| values[0]) =~= cells@);
            }
        }
        if ind.palette.len() == 1 {
            *self = PalettedContainer::Single(ind.palette[0]);
        } else {
            *self = PalettedContainer::Indirect(ind);
            assert(self.cells() =~= cells@);
        }
    }

    /// Whether the container can be written at these widths.
    pub fn can_encode(
        &self,
        min_indirect_bits: usize,
        max_indirect_bits: usize,
        direct_bits: usize,
    ) -> (ok: bool)
        requires
            self.wf(),
        ensures
            ok == self@.encodable(
                LEN as nat,
                min_indirect_bits as nat,
                max_indirect_bits as nat,
                direct_bits as nat,
            ),
    {
        let direct = match self {
            PalettedContainer::Single(_) => false,
            PalettedContainer::Indirect(ind) => {
                let width = bit_width(ind.palette.len() - 1);
                let bits: usize = if min_indirect_bits >= width {
                    min_indirect_bits
                } else {
                    width
                };
                bits > max_indirect_bits
            },
            PalettedContainer::Direct(_) => true,
        };
        if !direct {
            return true;
        }
        if direct_bits < 1 {
            return false;
        }
        if direct_bits >= 32 {
            proof {
                vstd::arithmetic::power2::lemma2_to64();
                if direct_bits > 32 {
                    vstd::arithmetic::power2::lemma_pow2_strictly_increases(32, direct_bits as nat);
                }
            }
            return true;
        }
        let mut limit: u32 = 1;
        let mut i: usize = 0;
        proof {
            vstd::arithmetic::power2::lemma2_to64();
        }
        while i < direct_bits
            invariant
                i <= direct_bits < 32,
                limit == pow2(i as nat),
                pow2(31) == 0x8000_0000,
            decreases direct_bits - i,
        {
            proof {
                vstd::arithmetic::power2::lemma_pow2_strictly_increases(i as nat, 31);
                vstd::arithmetic::power2::lemma_pow2_unfold((i + 1) as nat);
            }
            limit = limit * 2;
            i = i + 1;
        }
        let mut k: usize = 0;
        while k < LEN
            invariant
                self.wf(),
                k <= LEN,
                1 <= direct_bits,
                limit == pow2(direct_bits as nat),
                self@.encodes_direct(min_indirect_bits as nat, max_indirect_bits as nat),
                forall|j: int| 0 <= j < k ==> (#[trigger] self.cells()[j]) < limit,
            decreases LEN - k,
        {
            if self.get(k) >= limit {
                assert(!(self@.cells(LEN as nat)[k as int] < pow2(direct_bits as nat)));
                return false;
            }
            k = k + 1;
        }
        assert forall|i: int| 0 <= i < LEN implies (#[trigger] self@.cells(LEN as nat)[i]) < pow2(
            direct_bits as nat,
        ) by {
            assert(self.cells()[i] < limit);
        }
        true
    }

    /// The index of every cell of the palette form, as 64-bit numbers.
    fn indices_u64(ind: &Indirect) -> (vals: Vec<u64>)
        requires
            0 < LEN,
            ind.bytes_len() == (LEN + 1) / 2,
        ensures
            vals@ == ind.indices_view(LEN as nat).map_values(|p: u8| p as u64),
    {
        let mut vals: Vec<u64> = Vec::new();
        let mut i: usize = 0;
        while i < LEN
            invariant
                ind.bytes_len() == (LEN + 1) / 2,
                i <= LEN,
                vals@ == ind.indices_view(LEN as nat).map_values(|p: u8| p as u64).take(i as int),
            decreases LEN - i,
        {
            let p = ind.index_at(i);
            vals.push(p as u64);
            assert(vals@ =~= ind.indices_view(LEN as nat).map_values(|p: u8| p as u64).take(i + 1));
            i = i + 1;
        }
        assert(vals@ =~= ind.indices_view(LEN as nat).map_values(|p: u8| p as u64));
        vals
    }

    /// Appends the encoding with one number per cell.
    fn write_direct(&self, writer: &mut Vec<u8>, direct_bits: usize)
        requires
            self.wf(),
            1 <= direct_bits <= 64,
        ensures
            final(writer)@ == old(writer)@ + direct_encoding(self.cells(), direct_bits as nat),
    {
        let cells = self.to_cells();
        let mut vals: Vec<u64> = Vec::new();
        let mut i: usize = 0;
        while i < cells.len()
            invariant
                i <= cells.len(),
                vals@ == cells@.map_values(|v: u32| v as u64).take(i as int),
            decreases cells.len() - i,
        {
            vals.push(cells[i] as u64);
            assert(vals@ =~= cells@.map_values(|v: u32| v as u64).take(i + 1));
            i = i + 1;
        }
        assert(vals@ =~= cells@.map_values(|v: u32| v as u64));
        write_u8(writer, direct_bits as u8);
        write_var_u32(writer, compact_u64s_len(LEN, direct_bits) as u32);
        write_packed(writer, &vals, direct_bits);
        assert(writer@ =~= old(writer)@ + direct_encoding(self.cells(), direct_bits as nat));
    }

    /// Appends the encoding of the container in the wire format.
    ///
    /// A palette is written with indices of `min_indirect_bits` bits or as
    /// many as its last index needs, whichever is more; if that is more than
    /// `max_indirect_bits`, the cells are written one number each at
    /// `direct_bits` bits, as a container kept in that form always is.
    pub fn encode_mc_format(
        &self,
        writer: &mut Vec<u8>,
        min_indirect_bits: usize,
        max_indirect_bits: usize,
        direct_bits: usize,
    )
        requires
            self.wf(),
            min_indirect_bits <= max_indirect_bits <= 64,
            direct_bits <= 64,
            self@.encodable(
                LEN as nat,
                min_indirect_bits as nat,
                max_indirect_bits as nat,
                direct_bits as nat,
            ),
        ensures
            final(writer)@ == old(writer)@ + self@.encoding(
                LEN as nat,
                min_indirect_bits as nat,
                max_indirect_bits as nat,
                direct_bits as nat,
            ),
    {
        match self {
            PalettedContainer::Single(v) => {
                write_u8(writer, 0);
                write_var_u32(writer, *v);
                write_var_u32(writer, 0);
                assert(writer@ =~= old(writer)@ + (seq![0u8] + var_int_bytes(*v) + var_int_bytes(0)));
            },
            PalettedContainer::Indirect(ind) => {
                let width = bit_width(ind.palette.len() - 1);
                let bits: usize = if min_indirect_bits >= width {
                    min_indirect_bits
                } else {
                    width
                };
                assert(bits == self@.bits_per_entry(min_indirect_bits as nat));
                if bits > max_indirect_bits {
                    self.write_direct(writer, direct_bits);
                } else {
                    assert(bits >= 1) by {
                        reveal_with_fuel(spec_bit_width, 2);
                    }
                    write_u8(writer, bits as u8);
                    write_var_u32(writer, ind.palette.len() as u32);
                    let ghost start = writer@;
                    let mut k: usize = 0;
                    while k < ind.palette.len()
                        invariant
                            k <= ind.palette@.len(),
                            writer@ == start + palette_entries_bytes(ind.palette@.take(k as int)),
                        decreases ind.palette@.len() - k,
                    {
                        write_var_u32(writer, ind.palette[k]);
                        assert(ind.palette@.take(k + 1).drop_last() =~= ind.palette@.take(k as int));
                        assert(writer@ =~= start + palette_entries_bytes(ind.palette@.take(k + 1)));
                        k = k + 1;
                    }
                    assert(ind.palette@.take(k as int) =~= ind.palette@);
                    write_var_u32(writer, compact_u64s_len(LEN, bits) as u32);
                    let vals = Self::indices_u64(ind);
                    write_packed(writer, &vals, bits);
                    assert(writer@ =~= old(writer)@ + self@.encoding(
                        LEN as nat,
                        min_indirect_bits as nat,
                        max_indirect_bits as nat,
                        direct_bits as nat,
                    ));
                }
            },
            PalettedContainer::Direct(_) => {
                self.write_direct(writer, direct_bits);
            },
        }
    }
}

} // verus!
