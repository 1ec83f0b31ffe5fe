//! The table of cells that a witness fills: one lane per private and per
//! fixed column, one cell per row, each unassigned until written.
use crate::circuit::{Column, Kind, Shape};
use crate::felt::Felt;
use vstd::prelude::*;

verus! {

/// Why an assignment was refused.
#[derive(Clone, Copy, PartialEq, Eq, Debug, Structural)]
pub enum AssignError {
    /// Public values are not part of the table; they come with each check.
    PublicColumn,
    /// The column was never allocated in this shape.
    UnknownColumn,
    /// The row lies outside the table.
    RowOutOfRange,
}

/// The residue held by a cell, if it was assigned.
pub open spec fn opt_value(o: Option<Felt>) -> Option<nat> {
    match o {
        Some(f) => Some(f.value()),
        None => None,
    }
}

/// Cells of the private and of the fixed columns, each stored column after
/// column: the cell of column `c` at row `r` sits at `c * num_rows + r`.
pub struct Table {
    pub shape: Shape,
    pub private: Vec<Option<Felt>>,
    pub fixed: Vec<Option<Felt>>,
}

impl Table {
    pub open spec fn wf(&self) -> bool {
        &&& self.shape.wf()
        &&& self.private@.len() == self.shape.num_private * self.shape.num_rows
        &&& self.fixed@.len() == self.shape.num_fixed * self.shape.num_rows
    }

    /// The number of rows.
    pub open spec fn rows(&self) -> int {
        self.shape.num_rows as int
    }

    /// Whether `(c, r)` is a cell of the table: a private or fixed column that
    /// was allocated, and a row in range.
    pub open spec fn has_cell(&self, c: Column, r: int) -> bool {
        &&& c.kind != Kind::Public
        &&& c.index < self.shape.count(c.kind)
        &&& 0 <= r < self.rows()
    }

    /// The value at column `c`, row `r`: `None` while unassigned.
    pub open spec fn cell(&self, c: Column, r: int) -> Option<nat> {
        match c.kind {
            Kind::Private => opt_value(self.private@[c.index * self.rows() + r]),
            Kind::Fixed => opt_value(self.fixed@[c.index * self.rows() + r]),
            Kind::Public => None,
        }
    }

    /// An empty table for `shape`: no cell is assigned.
    pub fn new(shape: Shape) -> (t: Table)
        requires
            shape.wf(),
            shape.num_private * shape.num_rows <= usize::MAX,
            shape.num_fixed * shape.num_rows <= usize::MAX,
        ensures
            t.wf(),
            t.shape == shape,
            forall|c: Column, r: int| t.has_cell(c, r) ==> t.cell(c, r) is None,
    {
        let n_private = shape.num_private * shape.num_rows;
        let n_fixed = shape.num_fixed * shape.num_rows;
        let private = empty_lane(n_private);
        let fixed = empty_lane(n_fixed);
        let t = Table { shape, private, fixed };
        proof {
            assert forall|c: Column, r: int| t.has_cell(c, r) implies t.cell(c, r) is None by {
                lemma_flat_index(c.index as int, r, t.shape.count(c.kind) as int, t.rows());
            }
        }
        t
    }

    /// Writes `v` at column `c`, row `row`, replacing what was there.
    pub fn assign(&mut self, c: Column, row: usize, v: Felt) -> (r: Result<(), AssignError>)
        requires
            old(self).wf(),
        ensures
            final(self).wf(),
            final(self).shape == old(self).shape,
            c.kind == Kind::Public ==> r == Err::<(), AssignError>(AssignError::PublicColumn),
            c.kind != Kind::Public && c.index >= old(self).shape.count(c.kind) ==> r == Err::<
                (),
                AssignError,
            >(AssignError::UnknownColumn),
            c.kind != Kind::Public && c.index < old(self).shape.count(c.kind) && row
                >= old(self).shape.num_rows ==> r == Err::<(), AssignError>(
                AssignError::RowOutOfRange,
            ),
            r is Ok <==> old(self).has_cell(c, row as int),
            r is Ok ==> final(self).cell(c, row as int) == Some(v.value()),
            r is Ok ==> forall|c2: Column, r2: int|
                #![trigger final(self).cell(c2, r2)]
                old(self).has_cell(c2, r2) && !(c2 == c && r2 == row) ==> final(self).cell(c2, r2)
                    == old(self).cell(c2, r2),
            r is Err ==> *final(self) == *old(self),
    {
        let n = self.shape.num_rows;
        match c.kind {
            Kind::Public => {
                return Err(AssignError::PublicColumn);
            },
            Kind::Private => {
                if c.index >= self.shape.num_private {
                    return Err(AssignError::UnknownColumn);
                }
            },
            Kind::Fixed => {
                if c.index >= self.shape.num_fixed {
                    return Err(AssignError::UnknownColumn);
                }
            },
        }
        if row >= n {
            return Err(AssignError::RowOutOfRange);
        }
        let lane_len = match c.kind {
            Kind::Private => self.private.len(),
            _ => self.fixed.len(),
        };
        proof {
            lemma_flat_index(c.index as int, row as int, self.shape.count(c.kind) as int, n as int);
            assert(c.index * n + row < lane_len);
        }
        let idx = c.index * n + row;
        match c.kind {
            Kind::Private => {
                self.private.set(idx, Some(v));
            },
            _ => {
                self.fixed.set(idx, Some(v));
            },
        }
        proof {
            assert forall|c2: Column, r2: int|
                #![trigger self.cell(c2, r2)]
                old(self).has_cell(c2, r2) && !(c2 == c && r2 == row) implies self.cell(c2, r2)
                == old(self).cell(c2, r2) by {
                lemma_flat_index(c2.index as int, r2, self.shape.count(c2.kind) as int, n as int);
                if c2.kind == c.kind && c2.index * n + r2 == c.index * n + row {
                    lemma_flat_injective(c.index as int, row as int, c2.index as int, r2, n as int);
                }
            }
        }
        Ok(())
    }
}

/// A lane of `len` unassigned cells.
fn empty_lane(len: usize) -> (v: Vec<Option<Felt>>)
    ensures
        v@.len() == len,
        forall|i: int| 0 <= i < len ==> v@[i] is None,
{
    let mut v: Vec<Option<Felt>> = Vec::new();
    let mut i: usize = 0;
    while i < len
        invariant
            i <= len,
            v@.len() == i,
            forall|j: int| 0 <= j < i ==> v@[j] is None,
        decreases len - i,
    {
        v.push(None);
        i = i + 1;
    }
    v
}

/// The cell of column `c` at row `r` lies inside a lane of `cols` columns.
pub proof fn lemma_flat_index(c: int, r: int, cols: int, n: int)
    requires
        0 <= c < cols,
        0 <= r < n,
    ensures
        0 <= c * n + r < cols * n,
{
    assert(0 <= c * n + r < cols * n) by (nonlinear_arith)
        requires
            0 <= c < cols,
            0 <= r < n,
    {
        assert((c + 1) * n <= cols * n) by (nonlinear_arith)
            requires
                c + 1 <= cols,
                0 <= n,
        ;
    }
}

/// Distinct cells of a lane sit at distinct places.
pub proof fn lemma_flat_injective(c1: int, r1: int, c2: int, r2: int, n: int)
    requires
        0 <= c1,
        0 <= c2,
        0 <= r1 < n,
        0 <= r2 < n,
        c1 * n + r1 == c2 * n + r2,
    ensures
        c1 == c2,
        r1 == r2,
{
    if c1 < c2 {
        assert((c1 + 1) * n <= c2 * n) by (nonlinear_arith)
            requires
                c1 + 1 <= c2,
                0 <= n,
        ;
        assert(false) by (nonlinear_arith)
            requires
                (c1 + 1) * n <= c2 * n,
                c1 * n + r1 == c2 * n + r2,
                r1 < n,
                0 <= r2,
        ;
    } else if c2 < c1 {
        assert((c2 + 1) * n <= c1 * n) by (nonlinear_arith)
            requires
                c2 + 1 <= c1,
                0 <= n,
        ;
        assert(false) by (nonlinear_arith)
            requires
                (c2 + 1) * n <= c1 * n,
                c1 * n + r1 == c2 * n + r2,
                r2 < n,
                0 <= r1,
        ;
    }
}

} // verus!
