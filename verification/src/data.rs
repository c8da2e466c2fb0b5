//! The binary data matrix handed to the external plotting process: rows of
//! 64-bit cells, serialized as little-endian bytes. Callers supply cell
//! bit patterns (typically IEEE doubles converted to bits by the layer
//! that talks to the plotter).

use vstd::bytes::{spec_u64_to_le_bytes, u64_to_le_bytes};
use vstd::prelude::*;

use crate::Error;

verus! {

/// The little-endian serialization of one row of cells.
pub open spec fn row_bytes(row: Seq<u64>) -> Seq<u8>
    decreases row.len(),
{
    if row.len() == 0 {
        Seq::empty()
    } else {
        row_bytes(row.drop_last()) + spec_u64_to_le_bytes(row.last())
    }
}

/// The serialization of all rows, in order.
pub open spec fn matrix_bytes(rows: Seq<Seq<u64>>) -> Seq<u8>
    decreases rows.len(),
{
    if rows.len() == 0 {
        Seq::empty()
    } else {
        matrix_bytes(rows.drop_last()) + row_bytes(rows.last())
    }
}

/// One row of `w` cells serializes to exactly `8 * w` bytes.
pub proof fn lemma_row_bytes_len(row: Seq<u64>)
    ensures
        row_bytes(row).len() == 8 * row.len(),
    decreases row.len(),
{
    vstd::bytes::lemma_auto_spec_u64_to_from_le_bytes();
    if row.len() > 0 {
        lemma_row_bytes_len(row.drop_last());
    }
}

/// A block of `n` rows of `w` cells each serializes to exactly
/// `n * w * 8` bytes.
pub proof fn lemma_matrix_bytes_len(rows: Seq<Seq<u64>>, w: int)
    requires
        forall|i: int| 0 <= i < rows.len() ==> (#[trigger] rows[i]).len() == w,
        w >= 0,
    ensures
        matrix_bytes(rows).len() == rows.len() * w * 8,
    decreases rows.len(),
{
    if rows.len() == 0 {
    } else {
        assert(forall|i: int|
            0 <= i < rows.drop_last().len() ==> (#[trigger] rows.drop_last()[i]).len() == w);
        lemma_matrix_bytes_len(rows.drop_last(), w);
        lemma_row_bytes_len(rows.last());
        assert(rows.len() * w * 8 == (rows.len() - 1) * w * 8 + w * 8) by (nonlinear_arith);
    }
}

/// A serialized rectangular data block.
#[derive(Debug)]
pub struct Matrix {
    bytes: Vec<u8>,
    ncols: usize,
    nrows: usize,
}

impl Matrix {
    /// The block is rectangular: exactly `nrows * ncols` cells of 8 bytes.
    pub open spec fn wf(self) -> bool {
        self.spec_bytes().len() == self.spec_nrows() * self.spec_ncols() * 8
    }

    /// Serializes rows of cells; every row must have `ncols` cells.
    ///
    /// Returns `InvalidInput` exactly when some row has another width.
    pub fn new(rows: &Vec<Vec<u64>>, ncols: usize) -> (r: Result<Matrix, Error>)
        requires
            rows@.len() * ncols * 8 <= usize::MAX,
        ensures
            match r {
                Ok(m) => {
                    &&& forall|i: int| 0 <= i < rows@.len() ==> (#[trigger] rows@[i])@.len() == ncols
                    &&& m.spec_bytes() == matrix_bytes(
                        Seq::new(rows@.len(), |i: int| rows@[i]@),
                    )
                    &&& m.spec_ncols() == ncols
                    &&& m.spec_nrows() == rows@.len()
                    &&& m.wf()
                },
                Err(e) => {
                    &&& e == Error::InvalidInput
                    &&& exists|i: int|
                        0 <= i < rows@.len() && (#[trigger] rows@[i])@.len() != ncols
                },
            },
    {
        let ghost all = Seq::new(rows@.len(), |i: int| rows@[i]@);
        let mut bytes: Vec<u8> = Vec::new();
        let mut nrows: usize = 0;
        assert(bytes@ =~= matrix_bytes(all.subrange(0, 0)));
        for i in 0..rows.len()
            invariant
                all == Seq::new(rows@.len(), |k: int| rows@[k]@),
                nrows == i,
                bytes@ =~= matrix_bytes(all.subrange(0, i as int)),
                forall|k: int| 0 <= k < i ==> (#[trigger] rows@[k])@.len() == ncols,
        {
            let row = &rows[i];
            if row.len() != ncols {
                return Err(Error::InvalidInput);
            }
            let ghost rseq = row@;
            let mut j: usize = 0;
            assert(row_bytes(rseq.subrange(0, 0)) =~= Seq::<u8>::empty());
            while j < row.len()
                invariant
                    rseq == row@,
                    j <= row@.len(),
                    bytes@ =~= matrix_bytes(all.subrange(0, i as int)) + row_bytes(
                        rseq.subrange(0, j as int),
                    ),
                decreases row@.len() - j,
            {
                let cell_bytes = u64_to_le_bytes(row[j]);
                let mut b: usize = 0;
                while b < cell_bytes.len()
                    invariant
                        cell_bytes@.len() == 8,
                        b <= 8,
                        bytes@ =~= matrix_bytes(all.subrange(0, i as int)) + row_bytes(
                            rseq.subrange(0, j as int),
                        ) + cell_bytes@.subrange(0, b as int),
                    decreases cell_bytes@.len() - b,
                {
                    bytes.push(cell_bytes[b]);
                    proof {
                        assert(cell_bytes@.subrange(0, b as int).push(cell_bytes@[b as int]) =~= cell_bytes@.subrange(
                            0,
                            b as int + 1,
                        ));
                    }
                    b = b + 1;
                }
                proof {
                    assert(cell_bytes@.subrange(0, 8) =~= cell_bytes@);
                    assert(rseq.subrange(0, j as int + 1).drop_last() =~= rseq.subrange(
                        0,
                        j as int,
                    ));
                    assert(row_bytes(rseq.subrange(0, j as int + 1)) =~= row_bytes(
                        rseq.subrange(0, j as int),
                    ) + spec_u64_to_le_bytes(rseq[j as int]));
                    assert(bytes@ =~= matrix_bytes(all.subrange(0, i as int)) + row_bytes(
                        rseq.subrange(0, j as int + 1),
                    ));
                }
                j = j + 1;
            }
            nrows = nrows + 1;
            proof {
                assert(rseq.subrange(0, rseq.len() as int) =~= rseq);
                assert(all.subrange(0, i as int + 1).drop_last() =~= all.subrange(0, i as int));
                assert(all.subrange(0, i as int + 1).last() == rseq);
                assert(bytes@ =~= matrix_bytes(all.subrange(0, i as int + 1)));
            }
        }
        proof {
            assert(all.subrange(0, all.len() as int) =~= all);
            lemma_matrix_bytes_len(all, ncols as int);
        }
        Ok(Matrix { bytes, ncols, nrows })
    }

    pub closed spec fn spec_bytes(&self) -> Seq<u8> {
        self.bytes@
    }

    pub closed spec fn spec_ncols(&self) -> int {
        self.ncols as int
    }

    pub closed spec fn spec_nrows(&self) -> int {
        self.nrows as int
    }

    /// The serialized block.
    pub fn bytes(&self) -> (r: &Vec<u8>)
        ensures
            r@ == self.spec_bytes(),
    {
        &self.bytes
    }

    pub fn ncols(&self) -> (r: usize)
        ensures
            r == self.spec_ncols(),
    {
        self.ncols
    }

    pub fn nrows(&self) -> (r: usize)
        ensures
            r == self.spec_nrows(),
    {
        self.nrows
    }
}

} // verus!
