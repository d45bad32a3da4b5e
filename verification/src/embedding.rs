//! Dense table of fixed-dimension vectors, indexed by row.
//!
//! Rows hold binary32 bit patterns.  The feature table is created zeroed,
//! randomized once before training, then mutated only by the optimizer's
//! update step; the node table is written once per row at the end of a run.

use vstd::prelude::*;

use crate::vecmath::zero_vec;

verus! {

/// Distance metric tag carried by a table.
pub enum Distance {
    Cosine,
    Euclidean,
}

/// A dense table of `len` rows, each a vector of `dims` binary32 values.
pub struct EmbeddingStore {
    /// Dimensionality of every row.
    pub dims: usize,
    /// The rows; every row has length `dims`.
    pub rows: Vec<Vec<u32>>,
    /// Which distance this table is meant to be queried with.
    pub distance: Distance,
}

impl EmbeddingStore {
    /// Well-formed: every row has length `dims`.
    pub open spec fn wf(self) -> bool {
        forall|i: int| 0 <= i < self.rows@.len() ==> (#[trigger] self.rows@[i]@).len() == self.dims
    }

    /// Number of rows.
    pub open spec fn spec_len(self) -> nat {
        self.rows@.len()
    }

    /// The row at `i`, as a sequence of scalars.
    pub open spec fn row_at(self, i: int) -> Seq<u32> {
        self.rows@[i]@
    }

    /// A table of `length` zero rows of dimension `dims`.
    pub fn new(length: usize, dims: usize, distance: Distance) -> (r: EmbeddingStore)
        ensures
            r.wf(),
            r.spec_len() == length,
            r.dims == dims,
            forall|i: int| 0 <= i < length ==> r.row_at(i) == zero_vec(dims as nat),
    {
        let mut rows: Vec<Vec<u32>> = Vec::new();
        let mut i: usize = 0;
        while i < length
            invariant
                i <= length,
                rows@.len() == i,
                forall|j: int| 0 <= j < i ==> (#[trigger] rows@[j]@) == zero_vec(dims as nat),
            decreases length - i,
        {
            rows.push(crate::vecmath::vec_zero(dims));
            i += 1;
        }
        EmbeddingStore { dims, rows, distance }
    }

    /// Number of rows.
    pub fn len(&self) -> (r: usize)
        ensures
            r == self.spec_len(),
    {
        self.rows.len()
    }

    /// Read a row.
    pub fn get_embedding(&self, idx: usize) -> (r: &Vec<u32>)
        requires
            idx < self.spec_len(),
        ensures
            r@ == self.row_at(idx as int),
    {
        &self.rows[idx]
    }

    /// Overwrite one row; every other row is untouched.
    pub fn set_embedding(&mut self, idx: usize, row: Vec<u32>)
        requires
            old(self).wf(),
            idx < old(self).spec_len(),
            row@.len() == old(self).dims,
        ensures
            final(self).wf(),
            final(self).dims == old(self).dims,
            final(self).spec_len() == old(self).spec_len(),
            final(self).row_at(idx as int) == row@,
            forall|i: int|
                0 <= i < old(self).spec_len() && i != idx ==> final(self).row_at(i) == old(
                    self,
                ).row_at(i),
    {
        self.rows.set(idx, row);
    }
}

} // verus!
