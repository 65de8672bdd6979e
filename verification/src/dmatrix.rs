//! Runtime-sized matrices: the element count always equals rows times
//! columns, so the API is a constructor, getters and a teardown.
use crate::scalar::Scalar;
use vstd::prelude::*;

verus! {

/// `std`'s `<Box<[T]> as AsMut<[T]>>::as_mut`: the boxed slice, to be changed
/// in place. What is written through the slice is what the box then holds,
/// and the slice keeps its length: a `[T]` behind a `&mut` can have its
/// elements replaced, never its length. The call does not panic.
#[verifier::external_body]
fn boxed_slice_mut<T>(b: &mut Box<[T]>) -> (s: &mut [T])
    ensures
        s@ == old(b)@,
        final(b)@ == final(s)@,
        final(s)@.len() == s@.len(),
    no_unwind
{
    b.as_mut()
}

/// A matrix whose shape is known only at run time; `data` holds
/// `nrows * ncols` elements.
#[derive(Debug)]
pub struct DMatrix<T: Scalar> {
    data: Box<[T]>,
    shape: (usize, usize),
}

impl<T: Scalar> DMatrix<T> {
    /// The element count is rows times columns, for every matrix.
    #[verifier::type_invariant]
    spec fn shape_matches(self) -> bool {
        self.data@.len() == self.shape.0 * self.shape.1
    }

    /// The elements.
    pub closed spec fn spec_data(self) -> Seq<T> {
        self.data@
    }

    /// `(rows, columns)`.
    pub closed spec fn spec_shape(self) -> (usize, usize) {
        self.shape
    }

    /// A matrix of the given shape; `data` must hold `nrows * ncols` elements.
    pub fn new(data: Box<[T]>, shape: (usize, usize)) -> (m: Self)
        requires
            data@.len() == shape.0 * shape.1,
        ensures
            m.spec_data() == data@,
            m.spec_shape() == shape,
    {
        DMatrix { data, shape }
    }

    /// The elements: as many as rows times columns.
    pub fn data(&self) -> (d: &[T])
        ensures
            d@ == self.spec_data(),
            d@.len() == self.spec_shape().0 * self.spec_shape().1,
    {
        proof {
            use_type_invariant(self);
        }
        &self.data
    }

    /// The elements, to be changed in place; the shape stays, and so does the
    /// element count.
    pub fn data_mut(&mut self) -> (d: &mut [T])
        ensures
            d@ == old(self).spec_data(),
            d@.len() == old(self).spec_shape().0 * old(self).spec_shape().1,
            final(self).spec_data() == final(d)@,
            final(self).spec_shape() == old(self).spec_shape(),
    {
        proof {
            use_type_invariant(&*self);
        }
        boxed_slice_mut(&mut self.data)
    }

    /// `(rows, columns)`.
    pub fn shape(&self) -> (s: (usize, usize))
        ensures
            s == self.spec_shape(),
    {
        self.shape
    }

    /// The number of rows.
    pub fn nrows(&self) -> (n: usize)
        ensures
            n == self.spec_shape().0,
    {
        self.shape.0
    }

    /// The number of columns.
    pub fn ncols(&self) -> (n: usize)
        ensures
            n == self.spec_shape().1,
    {
        self.shape.1
    }

    /// The elements and the shape.
    pub fn into_parts(self) -> (parts: (Box<[T]>, (usize, usize)))
        ensures
            parts.0@ == self.spec_data(),
            parts.1 == self.spec_shape(),
            parts.0@.len() == parts.1.0 * parts.1.1,
    {
        proof {
            use_type_invariant(&self);
        }
        (self.data, self.shape)
    }
}

} // verus!
