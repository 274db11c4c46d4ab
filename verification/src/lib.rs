//! Two-dimensional views over a flat, contiguous buffer.
//!
//! A view exposes row-major access to a borrowed slice: each row starts
//! `stride` elements after the previous one and exposes `row_length`
//! elements. The stride may exceed the row length, which leaves a gap of
//! inaccessible padding between consecutive rows. Nothing is copied: a view
//! holds only the borrowed slice and the two dimensions.

use vstd::prelude::*;

verus! {

broadcast use vstd::slice::group_slice_axioms;

/// The starting offset of row `i`: rows begin every `stride` elements.
pub open spec fn row_origin(stride: nat, i: nat) -> nat {
    i * stride
}

/// Whether row `i` lies entirely inside a buffer of `buf_len` elements.
pub open spec fn row_in_bounds(buf_len: nat, row_len: nat, stride: nat, i: nat) -> bool {
    row_origin(stride, i) + row_len <= buf_len
}

/// The contents of row `i`: the `row_len` elements starting at the row's origin.
pub open spec fn row_spec<T>(buf: Seq<T>, row_len: nat, stride: nat, i: nat) -> Seq<T>
    recommends
        row_in_bounds(buf.len(), row_len, stride, i),
{
    buf.subrange(row_origin(stride, i) as int, (row_origin(stride, i) + row_len) as int)
}

/// The cursor left behind after one step of row iteration: the buffer minus
/// its first `stride` elements, or the empty buffer when fewer than `stride`
/// remain.
pub open spec fn cursor_step<T>(buf: Seq<T>, stride: nat) -> Seq<T> {
    if stride <= buf.len() {
        buf.skip(stride as int)
    } else {
        buf.skip(buf.len() as int)
    }
}

/// The cursor after `steps` rounds of row iteration over `buf`.
pub open spec fn cursor_after<T>(buf: Seq<T>, stride: nat, steps: nat) -> Seq<T>
    decreases steps,
{
    if steps == 0 {
        buf
    } else {
        cursor_step(cursor_after(buf, stride, (steps - 1) as nat), stride)
    }
}

/// A buffer of exactly `x * y` elements, viewed with row length and stride
/// both `y`, has exactly `x` addressable rows, each of `y` elements.
/// (With a row length of zero every index is addressable, so the row count
/// is only meaningful for positive `y`.)
pub proof fn lemma_grid_rows<T>(buf: Seq<T>, x: nat, y: nat, i: nat)
    requires
        buf.len() == x * y,
        y >= 1,
    ensures
        row_in_bounds(buf.len(), y, y, i) <==> i < x,
        i < x ==> row_spec(buf, y, y, i).len() == y,
{
    assert(i * y + y <= x * y <==> i < x) by (nonlinear_arith)
        requires
            y >= 1,
    ;
}

/// Element `k` of row `i` is element `i * stride + k` of the flat buffer.
pub proof fn lemma_row_element<T>(buf: Seq<T>, row_len: nat, stride: nat, i: nat, k: nat)
    requires
        row_in_bounds(buf.len(), row_len, stride, i),
        k < row_len,
    ensures
        row_spec(buf, row_len, stride, i)[k as int] == buf[(i * stride + k) as int],
{
}

/// Writing a row leaves that row holding exactly what was written, and every
/// element outside the row's region unchanged. The first argument shape is
/// the buffer a mutable row lookup leaves behind once its row has been
/// overwritten with `new_row`.
pub proof fn lemma_row_after_write<T>(buf: Seq<T>, row_len: nat, stride: nat, i: nat, new_row: Seq<T>)
    requires
        row_in_bounds(buf.len(), row_len, stride, i),
        new_row.len() == row_len,
    ensures
        ({
            let origin = row_origin(stride, i) as int;
            let written = buf.take(origin) + new_row + buf.skip(origin + row_len);
            &&& written.len() == buf.len()
            &&& row_spec(written, row_len, stride, i) == new_row
            &&& forall|j: int|
                0 <= j < buf.len() && !(origin <= j < origin + row_len) ==> written[j] == buf[j]
        }),
{
    let origin = row_origin(stride, i) as int;
    let written = buf.take(origin) + new_row + buf.skip(origin + row_len);
    assert(row_spec(written, row_len, stride, i) =~= new_row);
}

/// Row iteration visits the same rows that indexed lookup addresses: as long
/// as the cursor has not been clamped, after `i` rounds it stands `i * stride`
/// elements into the buffer, and the row it would yield next is row `i`.
pub proof fn lemma_iteration_matches_rows<T>(buf: Seq<T>, row_len: nat, stride: nat, i: nat)
    requires
        i * stride <= buf.len(),
    ensures
        cursor_after(buf, stride, i) == buf.skip((i * stride) as int),
        row_in_bounds(buf.len(), row_len, stride, i) ==> cursor_after(buf, stride, i).take(
            row_len as int,
        ) == row_spec(buf, row_len, stride, i),
    decreases i,
{
    if i == 0 {
        assert(buf.skip(0) =~= buf);
    } else {
        let j = (i - 1) as nat;
        assert(j * stride + stride == i * stride) by (nonlinear_arith)
            requires
                i >= 1,
                j == i - 1,
        ;
        lemma_iteration_matches_rows::<T>(buf, row_len, stride, j);
        let prev = cursor_after(buf, stride, j);
        assert(prev == buf.skip((j * stride) as int));
        assert(stride <= prev.len());
        assert(cursor_after(buf, stride, i) == cursor_step(prev, stride));
        assert(prev.skip(stride as int) =~= buf.skip((i * stride) as int));
    }
    if row_in_bounds(buf.len(), row_len, stride, i) {
        assert(buf.skip((i * stride) as int).take(row_len as int) =~= row_spec(
            buf,
            row_len,
            stride,
            i,
        ));
    }
}

/// Exhaustion is sticky: once fewer than `row_len` elements remain under the
/// cursor, every further round of iteration again has fewer than `row_len`
/// remaining, so a finished iteration reports the end from then on.
pub proof fn lemma_exhaustion_is_sticky<T>(buf: Seq<T>, row_len: nat, stride: nat)
    requires
        buf.len() < row_len,
    ensures
        cursor_step(buf, stride).len() < row_len,
{
}

/// Reading through a view downgraded from a mutable view observes the same
/// values as reading through the mutable view itself: two views over the
/// same buffer with the same dimensions address the same rows and see the
/// same contents at every index.
pub proof fn lemma_downgrade_observes_same<T>(m: &Slice2DMut<'_, T>, r: &Slice2D<'_, T>, i: nat)
    requires
        r.buf() == m.buf(),
        r.row_len() == m.row_len(),
        r.stride() == m.stride(),
    ensures
        row_in_bounds(r.buf().len(), r.row_len(), r.stride(), i) <==> row_in_bounds(
            m.buf().len(),
            m.row_len(),
            m.stride(),
            i,
        ),
        row_spec(r.buf(), r.row_len(), r.stride(), i) == row_spec(
            m.buf(),
            m.row_len(),
            m.stride(),
            i,
        ),
{
}

/// An immutable two-dimensional view over a borrowed slice. Copying the
/// view copies only the cursor, never the buffer, so a copy can be iterated
/// without disturbing the original.
#[derive(Clone, Copy)]
pub struct Slice2D<'t, T> {
    /// Elements between the starts of consecutive rows.
    pub stride: usize,
    /// Elements exposed per row.
    pub len: usize,
    /// The borrowed buffer, advanced in place by row iteration.
    pub slice: &'t [T],
}

impl<'t, T> Slice2D<'t, T> {
    /// The elements currently reachable through the view's cursor.
    pub open spec fn buf(&self) -> Seq<T> {
        self.slice@
    }

    /// The number of elements each row exposes.
    pub open spec fn row_len(&self) -> nat {
        self.len as nat
    }

    /// The number of elements between the starts of consecutive rows.
    pub open spec fn stride(&self) -> nat {
        self.stride as nat
    }

    /// Checked row lookup: the row's elements if row `index` lies within the
    /// buffer, and no row otherwise. Out-of-range indices are a normal
    /// absence, not a fault.
    pub fn get(&self, index: usize) -> (r: Option<&[T]>)
        ensures
            r is Some <==> row_in_bounds(self.buf().len(), self.row_len(), self.stride(), index as nat),
            r matches Some(row) ==> row@ == row_spec(self.buf(), self.row_len(), self.stride(), index as nat),
    {
        let n = self.slice.len();
        match index.checked_mul(self.stride) {
            Some(origin) => match origin.checked_add(self.len) {
                Some(end) => {
                    if end <= n {
                        Some(vstd::slice::slice_subrange(self.slice, origin, end))
                    } else {
                        None
                    }
                }
                None => None,
            },
            None => None,
        }
    }

    /// Trusted row lookup: the caller guarantees that row `index` lies within
    /// the buffer; out-of-range indices are a programming error, ruled out by
    /// the precondition rather than checked at run time.
    pub fn index(&self, index: usize) -> (row: &[T])
        requires
            row_in_bounds(self.buf().len(), self.row_len(), self.stride(), index as nat),
        ensures
            row@ == row_spec(self.buf(), self.row_len(), self.stride(), index as nat),
    {
        proof {
            // The buffer's length fits in usize, so the row region's bounds do too.
            assert(self.slice@.len() == vstd::slice::spec_slice_len(self.slice));
        }
        let origin = index * self.stride;
        vstd::slice::slice_subrange(self.slice, origin, origin + self.len)
    }

    /// Advances the view's own cursor by one row. Yields the first
    /// `row_length` elements of the remaining buffer, or nothing once fewer
    /// than `row_length` remain; either way the cursor then moves forward by
    /// `stride` elements, stopping at the end of the buffer. Exhaustion is
    /// sticky for any positive row length: once too few elements remain, the
    /// cursor only shrinks further. A zero row length never exhausts and
    /// yields an endless succession of empty rows.
    pub fn next(&mut self) -> (r: Option<&'t [T]>)
        ensures
            final(self).row_len() == old(self).row_len(),
            final(self).stride() == old(self).stride(),
            r is Some <==> old(self).row_len() <= old(self).buf().len(),
            r matches Some(row) ==> row@ == old(self).buf().take(old(self).row_len() as int),
            final(self).buf() == old(self).buf().skip(
                if old(self).stride() <= old(self).buf().len() {
                    old(self).stride() as int
                } else {
                    old(self).buf().len() as int
                },
            ),
    {
        let n = self.slice.len();
        let result = if self.len <= n {
            Some(vstd::slice::slice_subrange(self.slice, 0, self.len))
        } else {
            None
        };
        let advance = if self.stride <= n {
            self.stride
        } else {
            n
        };
        self.slice = vstd::slice::slice_subrange(self.slice, advance, n);
        result
    }
}

/// A mutable two-dimensional view over an exclusively borrowed slice.
pub struct Slice2DMut<'t, T> {
    /// Elements between the starts of consecutive rows.
    pub stride: usize,
    /// Elements exposed per row.
    pub len: usize,
    /// The exclusively borrowed buffer.
    pub slice: &'t mut [T],
}

impl<'t, T> Slice2DMut<'t, T> {
    /// The elements the view currently grants access to.
    pub open spec fn buf(&self) -> Seq<T> {
        (*self.slice)@
    }

    /// The number of elements each row exposes.
    pub open spec fn row_len(&self) -> nat {
        self.len as nat
    }

    /// The number of elements between the starts of consecutive rows.
    pub open spec fn stride(&self) -> nat {
        self.stride as nat
    }

    /// Hands out a shorter-lived mutable view of the same elements and
    /// dimensions. While the re-borrow is alive it is the only usable
    /// mutable view; whatever it writes is what this view sees afterwards.
    pub fn reborrow(&mut self) -> (r: Slice2DMut<'_, T>)
        ensures
            r.buf() == old(self).buf(),
            r.row_len() == old(self).row_len(),
            r.stride() == old(self).stride(),
            final(self).row_len() == old(self).row_len(),
            final(self).stride() == old(self).stride(),
            final(self).buf() == (*final(r.slice))@,
    {
        Slice2DMut { stride: self.stride, len: self.len, slice: &mut *self.slice }
    }

    /// Shares the view read-only: the resulting immutable view covers the
    /// same elements with the same dimensions, and lives only as long as
    /// this borrow, so the mutable view stays the sole owner of the
    /// exclusive access.
    pub fn downgrade(&self) -> (r: Slice2D<'_, T>)
        ensures
            r.buf() == self.buf(),
            r.row_len() == self.row_len(),
            r.stride() == self.stride(),
    {
        Slice2D { stride: self.stride, len: self.len, slice: &*self.slice }
    }

    /// Checked mutable row lookup: exclusive access to the row's elements if
    /// row `index` lies within the buffer, and no row otherwise. Writes
    /// through the row land directly in the backing buffer; the elements
    /// before and after the row are untouched.
    pub fn get_mut(&mut self, index: usize) -> (r: Option<&mut [T]>)
        ensures
            final(self).row_len() == old(self).row_len(),
            final(self).stride() == old(self).stride(),
            r is Some <==> row_in_bounds(
                old(self).buf().len(),
                old(self).row_len(),
                old(self).stride(),
                index as nat,
            ),
            r matches Some(row) ==> {
                &&& row@ == row_spec(old(self).buf(), old(self).row_len(), old(self).stride(), index as nat)
                &&& final(self).buf() == old(self).buf().take(
                    row_origin(old(self).stride(), index as nat) as int,
                ) + (*final(row))@ + old(self).buf().skip(
                    (row_origin(old(self).stride(), index as nat) + old(self).row_len()) as int,
                )
            },
            r is None ==> final(self).buf() == old(self).buf(),
    {
        let n = self.slice.len();
        match index.checked_mul(self.stride) {
            Some(origin) => match origin.checked_add(self.len) {
                Some(end) => {
                    if end <= n {
                        let (_head, rest) = self.slice.split_at_mut(origin);
                        let (row, _tail) = rest.split_at_mut(self.len);
                        Some(row)
                    } else {
                        None
                    }
                }
                None => None,
            },
            None => None,
        }
    }

    /// Checked row lookup, identical in contract to the immutable view's.
    pub fn get(&self, index: usize) -> (r: Option<&[T]>)
        ensures
            r is Some <==> row_in_bounds(self.buf().len(), self.row_len(), self.stride(), index as nat),
            r matches Some(row) ==> row@ == row_spec(self.buf(), self.row_len(), self.stride(), index as nat),
    {
        let n = self.slice.len();
        match index.checked_mul(self.stride) {
            Some(origin) => match origin.checked_add(self.len) {
                Some(end) => {
                    if end <= n {
                        Some(vstd::slice::slice_subrange(&*self.slice, origin, end))
                    } else {
                        None
                    }
                }
                None => None,
            },
            None => None,
        }
    }

    /// Trusted row lookup: the caller guarantees that row `index` lies within
    /// the buffer.
    pub fn index(&self, index: usize) -> (row: &[T])
        requires
            row_in_bounds(self.buf().len(), self.row_len(), self.stride(), index as nat),
        ensures
            row@ == row_spec(self.buf(), self.row_len(), self.stride(), index as nat),
    {
        proof {
            // The buffer's length fits in usize, so the row region's bounds do too.
            assert((*self.slice)@.len() == vstd::slice::spec_slice_len(&*self.slice));
        }
        let origin = index * self.stride;
        vstd::slice::slice_subrange(&*self.slice, origin, origin + self.len)
    }

    /// Trusted mutable row lookup: the caller guarantees that row `index`
    /// lies within the buffer; writes through the row land directly in the
    /// backing buffer, and the elements before and after the row are
    /// untouched.
    pub fn index_mut(&mut self, index: usize) -> (row: &mut [T])
        requires
            row_in_bounds(old(self).buf().len(), old(self).row_len(), old(self).stride(), index as nat),
        ensures
            final(self).row_len() == old(self).row_len(),
            final(self).stride() == old(self).stride(),
            row@ == row_spec(old(self).buf(), old(self).row_len(), old(self).stride(), index as nat),
            final(self).buf() == old(self).buf().take(
                row_origin(old(self).stride(), index as nat) as int,
            ) + (*final(row))@ + old(self).buf().skip(
                (row_origin(old(self).stride(), index as nat) + old(self).row_len()) as int,
            ),
    {
        proof {
            // The buffer's length fits in usize, so the row region's bounds do too.
            assert((*self.slice)@.len() == vstd::slice::spec_slice_len(&*self.slice));
        }
        let origin = index * self.stride;
        let (_head, rest) = self.slice.split_at_mut(origin);
        let (row, _tail) = rest.split_at_mut(self.len);
        row
    }
}

/// Construction of two-dimensional views from a flat buffer.
pub trait Slice2DExt {
    type Item;

    /// The elements of the buffer the views will expose.
    spec fn spec_elements(&self) -> Seq<Self::Item>;

    /// An immutable view with row length `len` and stride `stride`.
    /// Always succeeds; a trailing incomplete row is simply unreachable.
    fn slice2d(&self, len: usize, stride: usize) -> (r: Slice2D<'_, Self::Item>)
        ensures
            r.buf() == self.spec_elements(),
            r.row_len() == len as nat,
            r.stride() == stride as nat,
    ;

    /// A mutable view with row length `len` and stride `stride`.
    /// Always succeeds; a trailing incomplete row is simply unreachable.
    fn slice2d_mut(&mut self, len: usize, stride: usize) -> (r: Slice2DMut<'_, Self::Item>)
        ensures
            r.buf() == old(self).spec_elements(),
            r.row_len() == len as nat,
            r.stride() == stride as nat,
            final(self).spec_elements() == (*final(r.slice))@,
    ;

    /// An immutable view with `x` contiguous rows of `y` elements each.
    /// Succeeds exactly when the buffer holds `x * y` elements; the result
    /// is then the explicit-mode view with row length and stride both `y`.
    fn get_slice2d(&self, x: usize, y: usize) -> (r: Option<Slice2D<'_, Self::Item>>)
        ensures
            r is Some <==> self.spec_elements().len() == x * y,
            r matches Some(v) ==> {
                &&& v.buf() == self.spec_elements()
                &&& v.row_len() == y as nat
                &&& v.stride() == y as nat
            },
    ;

    /// A mutable view with `x` contiguous rows of `y` elements each.
    /// Succeeds exactly when the buffer holds `x * y` elements; the result
    /// is then the explicit-mode view with row length and stride both `y`.
    fn get_slice2d_mut(&mut self, x: usize, y: usize) -> (r: Option<Slice2DMut<'_, Self::Item>>)
        ensures
            r is Some <==> old(self).spec_elements().len() == x * y,
            r matches Some(v) ==> {
                &&& v.buf() == old(self).spec_elements()
                &&& v.row_len() == y as nat
                &&& v.stride() == y as nat
                &&& final(self).spec_elements() == (*final(v.slice))@
            },
            r is None ==> final(self).spec_elements() == old(self).spec_elements(),
    ;
}

impl<T> Slice2DExt for [T] {
    type Item = T;

    open spec fn spec_elements(&self) -> Seq<T> {
        self@
    }

    fn slice2d(&self, len: usize, stride: usize) -> (r: Slice2D<'_, T>) {
        Slice2D { stride, len, slice: self }
    }

    fn slice2d_mut(&mut self, len: usize, stride: usize) -> (r: Slice2DMut<'_, T>) {
        Slice2DMut { stride, len, slice: self }
    }

    fn get_slice2d(&self, x: usize, y: usize) -> (r: Option<Slice2D<'_, T>>) {
        let n = self.len();
        match x.checked_mul(y) {
            Some(total) => {
                if n == total {
                    Some(Slice2D { stride: y, len: y, slice: self })
                } else {
                    None
                }
            }
            None => None,
        }
    }

    fn get_slice2d_mut(&mut self, x: usize, y: usize) -> (r: Option<Slice2DMut<'_, T>>) {
        let n = self.len();
        match x.checked_mul(y) {
            Some(total) => {
                if n == total {
                    Some(Slice2DMut { stride: y, len: y, slice: self })
                } else {
                    None
                }
            }
            None => None,
        }
    }
}

} // verus!
