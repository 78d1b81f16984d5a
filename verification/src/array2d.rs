//! A mutable two-dimensional view of a slice: rows of `row_length`
//! elements, each starting `pitch` elements after the one before.

use vstd::prelude::*;

verus! {

/// How many elements lie between the starts of two consecutive rows.
#[derive(Debug, Clone, Copy, PartialEq, Eq, Structural)]
pub struct RowPitch(usize);

impl View for RowPitch {
    type V = usize;

    closed spec fn view(&self) -> usize {
        self.0
    }
}

impl RowPitch {
    pub fn new(val: usize) -> (r: Self)
        ensures
            r@ == val,
    {
        RowPitch(val)
    }

    pub fn val(&self) -> (r: usize)
        ensures
            r == self@,
    {
        self.0
    }
}

/// How many elements of a row are in use.
#[derive(Debug, Clone, Copy, PartialEq, Eq, Structural)]
pub struct RowLength(usize);

impl View for RowLength {
    type V = usize;

    closed spec fn view(&self) -> usize {
        self.0
    }
}

impl RowLength {
    pub fn new(val: usize) -> (r: Self)
        ensures
            r@ == val,
    {
        RowLength(val)
    }

    pub fn val(&self) -> (r: usize)
        ensures
            r == self@,
    {
        self.0
    }
}

/// The index of a row.
#[derive(Debug, Clone, Copy, PartialEq, Eq, Structural)]
pub struct RowIndex(usize);

impl View for RowIndex {
    type V = usize;

    closed spec fn view(&self) -> usize {
        self.0
    }
}

impl RowIndex {
    pub fn new(val: usize) -> (r: Self)
        ensures
            r@ == val,
    {
        RowIndex(val)
    }

    pub fn val(&self) -> (r: usize)
        ensures
            r == self@,
    {
        self.0
    }
}

/// A row and a column.
#[derive(Debug, Clone, Copy, PartialEq, Eq, Structural)]
pub struct Coord2D {
    row: usize,
    col: usize,
}

impl View for Coord2D {
    type V = (usize, usize);

    closed spec fn view(&self) -> (usize, usize) {
        (self.row, self.col)
    }
}

impl Coord2D {
    pub fn new(row: usize, col: usize) -> (r: Self)
        ensures
            r@ == (row, col),
    {
        Coord2D { row, col }
    }

    pub fn row(&self) -> (r: usize)
        ensures
            r == self@.0,
    {
        self.row
    }

    pub fn col(&self) -> (r: usize)
        ensures
            r == self@.1,
    {
        self.col
    }
}

/// Rows of `row_length` elements of `slice`, each starting `pitch`
/// elements after the one before.
pub struct Array2DRefMut<'a, T> {
    slice: &'a mut [T],
    pitch: RowPitch,
    row_length: RowLength,
}

/// Whether rows of `row_length` elements, `pitch` apart, tile `len`
/// elements: there is at least one element, rows are not empty, the pitch
/// is no shorter than a row, and the elements make whole rows.
pub open spec fn valid_shape(len: nat, row_length: nat, pitch: nat) -> bool {
    &&& len > 0
    &&& row_length > 0
    &&& pitch > 0
    &&& pitch >= row_length
    &&& len % pitch == 0
}

/// The elements of row `row` of `s`.
pub open spec fn row_of<T>(s: Seq<T>, row: nat, row_length: nat, pitch: nat) -> Seq<T> {
    s.subrange((row * pitch) as int, (row * pitch + row_length) as int)
}

/// `&mut s[start..end]` (`IndexMut<Range<usize>>` of slices): the elements
/// from `start` up to `end`, to change in place. Claimed: that part of the
/// elements, changes to it are changes to `s` there, and, as for any slice,
/// its length stays as it is; within bounds it does not panic.
#[verifier::external_body]
fn slice_range_mut<T>(s: &mut [T], start: usize, end: usize) -> (r: &mut [T])
    requires
        start <= end <= old(s)@.len(),
    ensures
        r@ == old(s)@.subrange(start as int, end as int),
        final(r)@.len() == r@.len(),
        final(s)@ == old(s)@.subrange(0, start as int) + final(r)@ + old(s)@.subrange(
            end as int,
            old(s)@.len() as int,
        ),
    no_unwind
{
    &mut s[start..end]
}

/// `&mut s[i]` (`IndexMut<usize>` of slices): the element at `i`, to change
/// in place. Claimed: that element, and a change to it is a change to `s`
/// at `i`.
#[verifier::external_body]
fn slice_elt_mut<T>(s: &mut [T], i: usize) -> (r: &mut T)
    requires
        i < old(s)@.len(),
    ensures
        *r == old(s)@[i as int],
        final(s)@ == old(s)@.update(i as int, *final(r)),
{
    &mut s[i]
}

/// Changing element `col` of the part of `s` from `start` to `end` changes
/// element `start + col` of `s`.
proof fn lemma_update_in_row<T>(s: Seq<T>, start: int, end: int, col: int)
    requires
        0 <= start <= start + col < end <= s.len(),
    ensures
        forall|x: T|
            #![trigger s.update(start + col, x)]
            s.subrange(0, start) + s.subrange(start, end).update(col, x) + s.subrange(end, s.len() as int)
                == s.update(start + col, x),
{
    assert forall|x: T|
        #![trigger s.update(start + col, x)]
        s.subrange(0, start) + s.subrange(start, end).update(col, x) + s.subrange(end, s.len() as int)
            == s.update(start + col, x) by {
        assert(s.subrange(0, start) + s.subrange(start, end).update(col, x) + s.subrange(end, s.len() as int)
            =~= s.update(start + col, x));
    }
}

/// A row that exists lies inside the elements.
proof fn lemma_row_in_bounds(len: nat, row: nat, row_length: nat, pitch: nat)
    requires
        valid_shape(len, row_length, pitch),
        row < len / pitch,
    ensures
        row * pitch + row_length <= row * pitch + pitch <= len,
{
    assert(row * pitch + pitch <= len) by (nonlinear_arith)
        requires
            row < len / pitch,
            pitch > 0,
            len % pitch == 0,
    {
        assert(len == (len / pitch) * pitch + len % pitch);
        assert(row + 1 <= len / pitch);
        assert((row + 1) * pitch <= (len / pitch) * pitch);
    }
}

impl<'a, T> Array2DRefMut<'a, T> {
    /// The elements.
    pub closed spec fn spec_slice(&self) -> Seq<T> {
        self.slice@
    }

    /// The distance between the starts of two rows.
    pub closed spec fn spec_pitch(&self) -> usize {
        self.pitch@
    }

    /// The number of elements in a row.
    pub closed spec fn spec_row_length(&self) -> usize {
        self.row_length@
    }

    /// The number of rows.
    pub open spec fn spec_num_rows(&self) -> nat {
        self.spec_slice().len() / self.spec_pitch() as nat
    }

    /// The elements of row `row`.
    pub open spec fn spec_row(&self, row: nat) -> Seq<T> {
        row_of(
            self.spec_slice(),
            row,
            self.spec_row_length() as nat,
            self.spec_pitch() as nat,
        )
    }

    /// Every view has a valid shape: `new` makes it so, and nothing changes
    /// the number of elements, the pitch or the row length.
    #[verifier::type_invariant]
    spec fn shape_invariant(self) -> bool {
        valid_shape(self.slice@.len(), self.row_length@ as nat, self.pitch@ as nat)
    }

    /// Whether the view has a valid shape.
    pub open spec fn wf(&self) -> bool {
        valid_shape(
            self.spec_slice().len(),
            self.spec_row_length() as nat,
            self.spec_pitch() as nat,
        )
    }

    /// The view of `slice` as rows of `row_length` elements, `pitch` apart.
    pub fn new(slice: &'a mut [T], row_length: RowLength, pitch: RowPitch) -> (r: Self)
        requires
            valid_shape(old(slice)@.len(), row_length@ as nat, pitch@ as nat),
        ensures
            r.wf(),
            r.spec_slice() == old(slice)@,
            r.spec_row_length() == row_length@,
            r.spec_pitch() == pitch@,
    {
        Self { slice, pitch, row_length }
    }

    /// The distance between the starts of two rows.
    pub fn pitch(&self) -> (r: usize)
        ensures
            r == self.spec_pitch(),
    {
        self.pitch.val()
    }

    /// The number of elements in a row.
    pub fn row_length(&self) -> (r: usize)
        ensures
            r == self.spec_row_length(),
    {
        self.row_length.val()
    }

    /// The number of rows.
    pub fn num_rows(&self) -> (r: usize)
        ensures
            r == self.spec_num_rows(),
    {
        proof {
            use_type_invariant(self);
        }
        self.slice.len() / self.pitch()
    }

    /// The elements of row `row`, where there is such a row.
    pub fn get_row(&self, row: RowIndex) -> (r: Option<&[T]>)
        ensures
            match r {
                Some(s) => row@ < self.spec_num_rows() && s@ == self.spec_row(row@ as nat),
                None => row@ >= self.spec_num_rows(),
            },
    {
        proof {
            use_type_invariant(self);
        }
        if row.val() >= self.num_rows() {
            return None;
        }
        proof {
            lemma_row_in_bounds(
                self.slice@.len(),
                row@ as nat,
                self.row_length@ as nat,
                self.pitch@ as nat,
            );
        }
        let r = row.val();
        let p = self.pitch();
        let n = self.row_length();
        let len = self.slice.len();
        assert(r * p + n <= len);
        let start = r * p;
        let end = start + n;
        Some(&self.slice[start..end])
    }

    /// The elements of row `row`, to change, where there is such a row;
    /// what is written into them is written into the view's elements.
    pub fn get_row_mut(&mut self, row: RowIndex) -> (r: Option<&mut [T]>)
        ensures
            final(self).wf(),
            final(self).spec_pitch() == old(self).spec_pitch(),
            final(self).spec_row_length() == old(self).spec_row_length(),
            r is None ==> row@ >= old(self).spec_num_rows() && final(self).spec_slice() == old(
                self,
            ).spec_slice(),
            r is Some ==> {
                let start = row@ * old(self).spec_pitch();
                let end = start + old(self).spec_row_length();
                &&& row@ < old(self).spec_num_rows()
                &&& r.unwrap()@ == old(self).spec_row(row@ as nat)
                &&& final(self).spec_slice() == old(self).spec_slice().subrange(0, start)
                    + final(r.unwrap())@ + old(self).spec_slice().subrange(
                    end,
                    old(self).spec_slice().len() as int,
                )
            },
    {
        proof {
            use_type_invariant(&*self);
        }
        if row.val() >= self.num_rows() {
            return None;
        }
        proof {
            lemma_row_in_bounds(
                self.slice@.len(),
                row@ as nat,
                self.row_length@ as nat,
                self.pitch@ as nat,
            );
        }
        let r = row.val();
        let p = self.pitch();
        let n = self.row_length();
        let len = self.slice.len();
        assert(r * p + n <= len);
        let start = r * p;
        let full_row = slice_range_mut(self.slice, start, start + n);
        Some(full_row)
    }

    /// The element at `index`, where its row exists and its column lies
    /// within the row's length.
    pub fn get_elt(&self, index: Coord2D) -> (r: Option<&T>)
        ensures
            match r {
                Some(e) => index@.0 < self.spec_num_rows() && index@.1 < self.spec_row_length()
                    && *e == self.spec_slice()[index@.0 * self.spec_pitch() + index@.1],
                None => !(index@.0 < self.spec_num_rows() && index@.1
                    < self.spec_row_length()),
            },
    {
        proof {
            use_type_invariant(self);
        }
        let row = match self.get_row(RowIndex::new(index.row())) {
            Some(row) => row,
            None => {
                return None;
            },
        };
        proof {
            lemma_row_in_bounds(
                self.spec_slice().len(),
                index@.0 as nat,
                self.spec_row_length() as nat,
                self.spec_pitch() as nat,
            );
        }
        let col = index.col();
        if col < row.len() {
            Some(&row[col])
        } else {
            None
        }
    }

    /// The element at `index`, to change, where its row exists and its
    /// column lies within the row's length.
    pub fn get_elt_mut(&mut self, index: Coord2D) -> (r: Option<&mut T>)
        ensures
            final(self).wf(),
            final(self).spec_pitch() == old(self).spec_pitch(),
            final(self).spec_row_length() == old(self).spec_row_length(),
            r is None ==> !(index@.0 < old(self).spec_num_rows() && index@.1 < old(
                self,
            ).spec_row_length()) && final(self).spec_slice() == old(self).spec_slice(),
            r is Some ==> {
                let at = index@.0 * old(self).spec_pitch() + index@.1;
                &&& index@.0 < old(self).spec_num_rows()
                &&& index@.1 < old(self).spec_row_length()
                &&& *r.unwrap() == old(self).spec_slice()[at]
                &&& final(self).spec_slice() == old(self).spec_slice().update(
                    at,
                    *final(r.unwrap()),
                )
            },
    {
        proof {
            use_type_invariant(&*self);
        }
        proof {
            if index@.0 < self.spec_num_rows() {
                lemma_row_in_bounds(
                    self.spec_slice().len(),
                    index@.0 as nat,
                    self.spec_row_length() as nat,
                    self.spec_pitch() as nat,
                );
            }
        }
        let ghost old_slice = self.spec_slice();
        proof {
            if index@.0 < self.spec_num_rows() && index@.1 < self.spec_row_length() {
                let start = index@.0 * self.spec_pitch();
                lemma_update_in_row(
                    old_slice,
                    start,
                    start + self.spec_row_length(),
                    index@.1 as int,
                );
            }
        }
        let row = match self.get_row_mut(RowIndex::new(index.row())) {
            Some(row) => row,
            None => {
                return None;
            },
        };
        let col = index.col();
        if col < row.len() {
            let elt = slice_elt_mut(row, col);
            Some(elt)
        } else {
            None
        }
    }
}

/// A view of a valid shape, as `new` makes it and as the methods that
/// change it keep it, has at least one row, rows of at least one element
/// that fit in the pitch, and exactly as many elements as its rows span.
pub proof fn law_valid_view_shape<T>(a: &Array2DRefMut<'_, T>)
    requires
        a.wf(),
    ensures
        a.spec_slice().len() > 0,
        0 < a.spec_row_length() <= a.spec_pitch(),
        a.spec_num_rows() >= 1,
        a.spec_slice().len() == a.spec_num_rows() * a.spec_pitch(),
{
    let len = a.spec_slice().len();
    let p = a.spec_pitch() as nat;
    assert(len == (len / p) * p && len / p >= 1) by (nonlinear_arith)
        requires
            len > 0,
            p > 0,
            len % p == 0,
    {
        assert(len == (len / p) * p + len % p);
        if len / p == 0 {
            assert(len == len % p);
        }
    }
}

impl<T> core::ops::Index<RowIndex> for Array2DRefMut<'_, T> {
    type Output = [T];

    fn index(&self, index: RowIndex) -> (r: &Self::Output)
        ensures
            r@ == self.spec_row(index@ as nat),
    {
        self.get_row(index).unwrap()
    }
}

impl<T> vstd::std_specs::core::IndexSpecImpl<RowIndex> for Array2DRefMut<'_, T> {
    /// A row can be indexed where it exists.
    open spec fn index_req(&self, index: &RowIndex) -> bool {
        index@ < self.spec_num_rows()
    }
}

impl<T> core::ops::Index<Coord2D> for Array2DRefMut<'_, T> {
    type Output = T;

    fn index(&self, index: Coord2D) -> (r: &Self::Output)
        ensures
            *r == self.spec_slice()[index@.0 * self.spec_pitch() + index@.1],
    {
        self.get_elt(index).unwrap()
    }
}

impl<T> vstd::std_specs::core::IndexSpecImpl<Coord2D> for Array2DRefMut<'_, T> {
    /// An element can be indexed where its row exists and its column lies
    /// within the row's length.
    open spec fn index_req(&self, index: &Coord2D) -> bool {
        index@.0 < self.spec_num_rows() && index@.1 < self.spec_row_length()
    }
}

} // verus!
