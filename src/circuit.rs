//! The shape of a circuit: typed columns, polynomial expressions over
//! relative-row queries, and the registry of gates.
use crate::felt::Felt;
use vstd::prelude::*;

verus! {

/// What a column holds: witness values, values fixed with the circuit, or
/// values supplied afresh with each check.
#[derive(Clone, Copy, PartialEq, Eq, Debug, Structural)]
pub enum Kind {
    Private,
    Fixed,
    Public,
}

/// A column handle: its kind and its ordinal among the columns of that kind.
#[derive(Clone, Copy, PartialEq, Eq, Debug, Structural)]
pub struct Column {
    pub kind: Kind,
    pub index: usize,
}

/// A polynomial over queried cells. A query names a column and a row offset
/// relative to the row being checked.
#[derive(PartialEq, Eq, Debug)]
pub enum Expr {
    Constant(Felt),
    Query(Column, i32),
    Add(Box<Expr>, Box<Expr>),
    Sub(Box<Expr>, Box<Expr>),
    Mul(Box<Expr>, Box<Expr>),
    Neg(Box<Expr>),
}

/// The least offset that `e` queries, or zero if that is less.
pub open spec fn min_offset(e: Expr) -> int
    decreases e,
{
    match e {
        Expr::Constant(_) => 0,
        Expr::Query(_, off) => if off < 0 { off as int } else { 0 },
        Expr::Add(a, b) => min_of(min_offset(*a), min_offset(*b)),
        Expr::Sub(a, b) => min_of(min_offset(*a), min_offset(*b)),
        Expr::Mul(a, b) => min_of(min_offset(*a), min_offset(*b)),
        Expr::Neg(a) => min_offset(*a),
    }
}

/// The greatest offset that `e` queries, or zero if that is greater.
pub open spec fn max_offset(e: Expr) -> int
    decreases e,
{
    match e {
        Expr::Constant(_) => 0,
        Expr::Query(_, off) => if off > 0 { off as int } else { 0 },
        Expr::Add(a, b) => max_of(max_offset(*a), max_offset(*b)),
        Expr::Sub(a, b) => max_of(max_offset(*a), max_offset(*b)),
        Expr::Mul(a, b) => max_of(max_offset(*a), max_offset(*b)),
        Expr::Neg(a) => max_offset(*a),
    }
}

pub open spec fn min_of(x: int, y: int) -> int {
    if x <= y { x } else { y }
}

pub open spec fn max_of(x: int, y: int) -> int {
    if x >= y { x } else { y }
}

/// The number of columns of kind `k` among the given counts.
pub open spec fn count_of(k: Kind, num_private: nat, num_fixed: nat, num_public: nat) -> nat {
    match k {
        Kind::Private => num_private,
        Kind::Fixed => num_fixed,
        Kind::Public => num_public,
    }
}

/// Every column that `e` queries was allocated.
pub open spec fn columns_known(e: Expr, np: nat, nf: nat, nu: nat) -> bool
    decreases e,
{
    match e {
        Expr::Constant(_) => true,
        Expr::Query(c, _) => c.index < count_of(c.kind, np, nf, nu),
        Expr::Add(a, b) => columns_known(*a, np, nf, nu) && columns_known(*b, np, nf, nu),
        Expr::Sub(a, b) => columns_known(*a, np, nf, nu) && columns_known(*b, np, nf, nu),
        Expr::Mul(a, b) => columns_known(*a, np, nf, nu) && columns_known(*b, np, nf, nu),
        Expr::Neg(a) => columns_known(*a, np, nf, nu),
    }
}

/// Every query of `e`, made from row `r`, lands in `[0, n)`.
pub open spec fn queries_within(e: Expr, r: int, n: int) -> bool
    decreases e,
{
    match e {
        Expr::Constant(_) => true,
        Expr::Query(_, off) => 0 <= r + off < n,
        Expr::Add(a, b) => queries_within(*a, r, n) && queries_within(*b, r, n),
        Expr::Sub(a, b) => queries_within(*a, r, n) && queries_within(*b, r, n),
        Expr::Mul(a, b) => queries_within(*a, r, n) && queries_within(*b, r, n),
        Expr::Neg(a) => queries_within(*a, r, n),
    }
}

/// The first row at which a gate over `e` is checked.
pub open spec fn first_row(e: Expr) -> int {
    0 - min_offset(e)
}

/// One past the last row at which a gate over `e` is checked, in a table of `n` rows.
pub open spec fn end_row(e: Expr, n: int) -> int {
    n - max_offset(e)
}

/// From every row of a gate's window, its queries stay inside the table.
pub proof fn lemma_window_within(e: Expr, r: int, n: int)
    requires
        first_row(e) <= r < end_row(e, n),
    ensures
        queries_within(e, r, n),
    decreases e,
{
    match e {
        Expr::Constant(_) => {},
        Expr::Query(_, _) => {},
        Expr::Add(a, b) => {
            lemma_window_within(*a, r, n);
            lemma_window_within(*b, r, n);
        },
        Expr::Sub(a, b) => {
            lemma_window_within(*a, r, n);
            lemma_window_within(*b, r, n);
        },
        Expr::Mul(a, b) => {
            lemma_window_within(*a, r, n);
            lemma_window_within(*b, r, n);
        },
        Expr::Neg(a) => {
            lemma_window_within(*a, r, n);
        },
    }
}

/// The least and greatest offsets that `e` queries, each clamped at zero.
pub fn offset_bounds(e: &Expr) -> (r: (i64, i64))
    ensures
        r.0 == min_offset(*e),
        r.1 == max_offset(*e),
        i32::MIN <= r.0 <= 0 <= r.1 <= i32::MAX,
    decreases e,
{
    match e {
        Expr::Constant(_) => (0, 0),
        Expr::Query(_, off) => {
            let o = *off as i64;
            if o < 0 {
                (o, 0)
            } else {
                (0, o)
            }
        },
        Expr::Add(a, b) | Expr::Sub(a, b) | Expr::Mul(a, b) => {
            let (lo_a, hi_a) = offset_bounds(a);
            let (lo_b, hi_b) = offset_bounds(b);
            let lo = if lo_a <= lo_b { lo_a } else { lo_b };
            let hi = if hi_a >= hi_b { hi_a } else { hi_b };
            (lo, hi)
        },
        Expr::Neg(a) => offset_bounds(a),
    }
}

/// Whether every column that `e` queries is among the given counts.
pub fn columns_known_exec(e: &Expr, np: usize, nf: usize, nu: usize) -> (r: bool)
    ensures
        r == columns_known(*e, np as nat, nf as nat, nu as nat),
    decreases e,
{
    match e {
        Expr::Constant(_) => true,
        Expr::Query(c, _) => match c.kind {
            Kind::Private => c.index < np,
            Kind::Fixed => c.index < nf,
            Kind::Public => c.index < nu,
        },
        Expr::Add(a, b) | Expr::Sub(a, b) | Expr::Mul(a, b) => {
            columns_known_exec(a, np, nf, nu) && columns_known_exec(b, np, nf, nu)
        },
        Expr::Neg(a) => columns_known_exec(a, np, nf, nu),
    }
}

/// A named identity that must vanish on each row of its window.
#[derive(Debug)]
pub struct Gate {
    pub name: String,
    pub poly: Expr,
}

/// Why a gate was refused while the shape was being built.
#[derive(Clone, Copy, PartialEq, Eq, Debug, Structural)]
pub enum ConfigError {
    /// A queried column was never allocated by this constraint system.
    UnknownColumn,
    /// The offsets span the whole table: no row could be checked.
    OffsetOutOfRange,
}

/// The counts of columns of each kind, the number of rows, and the gates.
/// Shared by the mutable builder and the finalized shape.
pub open spec fn shape_wf(
    num_rows: nat,
    np: nat,
    nf: nat,
    nu: nat,
    gates: Seq<Gate>,
) -> bool {
    forall|i: int|
        0 <= i < gates.len() ==> {
            &&& #[trigger] columns_known(gates[i].poly, np, nf, nu)
            &&& first_row(gates[i].poly) < end_row(gates[i].poly, num_rows as int)
        }
}

/// A constraint system under construction: columns are allocated and gates
/// registered; then `finalize` freezes it.
pub struct ConstraintSystem {
    pub num_rows: usize,
    pub num_private: usize,
    pub num_fixed: usize,
    pub num_public: usize,
    pub gates: Vec<Gate>,
}

/// A finalized shape: the only input accepted by population and checking.
pub struct Shape {
    pub num_rows: usize,
    pub num_private: usize,
    pub num_fixed: usize,
    pub num_public: usize,
    pub gates: Vec<Gate>,
}

impl ConstraintSystem {
    pub open spec fn wf(&self) -> bool {
        shape_wf(
            self.num_rows as nat,
            self.num_private as nat,
            self.num_fixed as nat,
            self.num_public as nat,
            self.gates@,
        )
    }

    /// The number of columns of kind `k` allocated so far.
    pub open spec fn count(&self, k: Kind) -> nat {
        count_of(k, self.num_private as nat, self.num_fixed as nat, self.num_public as nat)
    }

    /// An empty constraint system over a table of `num_rows` rows.
    pub fn new(num_rows: usize) -> (r: ConstraintSystem)
        ensures
            r.wf(),
            r.num_rows == num_rows,
            r.num_private == 0,
            r.num_fixed == 0,
            r.num_public == 0,
            r.gates@.len() == 0,
    {
        ConstraintSystem { num_rows, num_private: 0, num_fixed: 0, num_public: 0, gates: Vec::new() }
    }

    /// Allocates a fresh column of kind `kind`, the next ordinal of that kind.
    pub fn allocate(&mut self, kind: Kind) -> (c: Column)
        requires
            old(self).count(kind) < usize::MAX,
        ensures
            c.kind == kind,
            c.index == old(self).count(kind),
            final(self).num_private == old(self).num_private + if kind == Kind::Private {
                1int
            } else {
                0int
            },
            final(self).num_fixed == old(self).num_fixed + if kind == Kind::Fixed {
                1int
            } else {
                0int
            },
            final(self).num_public == old(self).num_public + if kind == Kind::Public {
                1int
            } else {
                0int
            },
            final(self).num_rows == old(self).num_rows,
            final(self).gates@ == old(self).gates@,
            old(self).wf() ==> final(self).wf(),
    {
        let index = match kind {
            Kind::Private => {
                let i = self.num_private;
                self.num_private = i + 1;
                i
            },
            Kind::Fixed => {
                let i = self.num_fixed;
                self.num_fixed = i + 1;
                i
            },
            Kind::Public => {
                let i = self.num_public;
                self.num_public = i + 1;
                i
            },
        };
        proof {
            if old(self).wf() {
                assert forall|i: int| 0 <= i < self.gates@.len() implies {
                    &&& #[trigger] columns_known(
                        self.gates@[i].poly,
                        self.num_private as nat,
                        self.num_fixed as nat,
                        self.num_public as nat,
                    )
                    &&& first_row(self.gates@[i].poly) < end_row(
                        self.gates@[i].poly,
                        self.num_rows as int,
                    )
                } by {
                    assert(self.gates@[i] == old(self).gates@[i]);
                    assert(columns_known(
                        old(self).gates@[i].poly,
                        old(self).num_private as nat,
                        old(self).num_fixed as nat,
                        old(self).num_public as nat,
                    ));
                    lemma_known_grows(
                        self.gates@[i].poly,
                        old(self).num_private as nat,
                        old(self).num_fixed as nat,
                        old(self).num_public as nat,
                        self.num_private as nat,
                        self.num_fixed as nat,
                        self.num_public as nat,
                    );
                }
            }
        }
        Column { kind, index }
    }

    /// A fresh column for witness values.
    pub fn private_column(&mut self) -> (c: Column)
        requires
            old(self).num_private < usize::MAX,
        ensures
            c == (Column { kind: Kind::Private, index: old(self).num_private }),
            final(self).num_private == old(self).num_private + 1,
            final(self).num_fixed == old(self).num_fixed,
            final(self).num_public == old(self).num_public,
            final(self).num_rows == old(self).num_rows,
            final(self).gates@ == old(self).gates@,
            old(self).wf() ==> final(self).wf(),
    {
        self.allocate(Kind::Private)
    }

    /// A fresh column for values fixed with the circuit.
    pub fn fixed_column(&mut self) -> (c: Column)
        requires
            old(self).num_fixed < usize::MAX,
        ensures
            c == (Column { kind: Kind::Fixed, index: old(self).num_fixed }),
            final(self).num_private == old(self).num_private,
            final(self).num_fixed == old(self).num_fixed + 1,
            final(self).num_public == old(self).num_public,
            final(self).num_rows == old(self).num_rows,
            final(self).gates@ == old(self).gates@,
            old(self).wf() ==> final(self).wf(),
    {
        self.allocate(Kind::Fixed)
    }

    /// A fresh column for values supplied with each check.
    pub fn public_column(&mut self) -> (c: Column)
        requires
            old(self).num_public < usize::MAX,
        ensures
            c == (Column { kind: Kind::Public, index: old(self).num_public }),
            final(self).num_private == old(self).num_private,
            final(self).num_fixed == old(self).num_fixed,
            final(self).num_public == old(self).num_public + 1,
            final(self).num_rows == old(self).num_rows,
            final(self).gates@ == old(self).gates@,
            old(self).wf() ==> final(self).wf(),
    {
        self.allocate(Kind::Public)
    }

    /// Registers `poly` as a gate named `name`. It is refused when it queries an
    /// unallocated column, or when its offsets leave no row from which every
    /// query stays inside the table.
    pub fn add_gate(&mut self, name: String, poly: Expr) -> (r: Result<(), ConfigError>)
        requires
            old(self).wf(),
        ensures
            final(self).wf(),
            final(self).num_rows == old(self).num_rows,
            final(self).num_private == old(self).num_private,
            final(self).num_fixed == old(self).num_fixed,
            final(self).num_public == old(self).num_public,
            !columns_known(
                poly,
                old(self).num_private as nat,
                old(self).num_fixed as nat,
                old(self).num_public as nat,
            ) ==> r == Err::<(), ConfigError>(ConfigError::UnknownColumn),
            columns_known(
                poly,
                old(self).num_private as nat,
                old(self).num_fixed as nat,
                old(self).num_public as nat,
            ) && first_row(poly) >= end_row(poly, old(self).num_rows as int) ==> r == Err::<
                (),
                ConfigError,
            >(ConfigError::OffsetOutOfRange),
            r is Ok <==> columns_known(
                poly,
                old(self).num_private as nat,
                old(self).num_fixed as nat,
                old(self).num_public as nat,
            ) && first_row(poly) < end_row(poly, old(self).num_rows as int),
            r is Ok ==> final(self).gates@ == old(self).gates@.push(Gate { name, poly }),
            r is Err ==> final(self).gates@ == old(self).gates@,
    {
        if !columns_known_exec(&poly, self.num_private, self.num_fixed, self.num_public) {
            return Err(ConfigError::UnknownColumn);
        }
        let (lo, hi) = offset_bounds(&poly);
        if (hi as i128) - (lo as i128) >= self.num_rows as i128 {
            return Err(ConfigError::OffsetOutOfRange);
        }
        let ghost old_gates = self.gates@;
        self.gates.push(Gate { name, poly });
        proof {
            assert forall|i: int| 0 <= i < self.gates@.len() implies {
                &&& #[trigger] columns_known(
                    self.gates@[i].poly,
                    self.num_private as nat,
                    self.num_fixed as nat,
                    self.num_public as nat,
                )
                &&& first_row(self.gates@[i].poly) < end_row(
                    self.gates@[i].poly,
                    self.num_rows as int,
                )
            } by {
                if i < old_gates.len() {
                    assert(self.gates@[i] == old_gates[i]);
                } else {
                    assert(self.gates@[i].poly == poly);
                    assert(max_offset(poly) - min_offset(poly) < self.num_rows);
                }
            }
        }
        Ok(())
    }

    /// Ends construction: the shape can no longer change.
    pub fn finalize(self) -> (s: Shape)
        requires
            self.wf(),
        ensures
            s.wf(),
            s.num_rows == self.num_rows,
            s.num_private == self.num_private,
            s.num_fixed == self.num_fixed,
            s.num_public == self.num_public,
            s.gates@ == self.gates@,
    {
        Shape {
            num_rows: self.num_rows,
            num_private: self.num_private,
            num_fixed: self.num_fixed,
            num_public: self.num_public,
            gates: self.gates,
        }
    }
}

impl Shape {
    pub open spec fn wf(&self) -> bool {
        shape_wf(
            self.num_rows as nat,
            self.num_private as nat,
            self.num_fixed as nat,
            self.num_public as nat,
            self.gates@,
        )
    }

    /// The number of columns of kind `k`.
    pub open spec fn count(&self, k: Kind) -> nat {
        count_of(k, self.num_private as nat, self.num_fixed as nat, self.num_public as nat)
    }
}

/// Allocating more columns keeps every allocated column known.
proof fn lemma_known_grows(e: Expr, np: nat, nf: nat, nu: nat, np2: nat, nf2: nat, nu2: nat)
    requires
        columns_known(e, np, nf, nu),
        np <= np2,
        nf <= nf2,
        nu <= nu2,
    ensures
        columns_known(e, np2, nf2, nu2),
    decreases e,
{
    match e {
        Expr::Constant(_) => {},
        Expr::Query(_, _) => {},
        Expr::Add(a, b) => {
            lemma_known_grows(*a, np, nf, nu, np2, nf2, nu2);
            lemma_known_grows(*b, np, nf, nu, np2, nf2, nu2);
        },
        Expr::Sub(a, b) => {
            lemma_known_grows(*a, np, nf, nu, np2, nf2, nu2);
            lemma_known_grows(*b, np, nf, nu, np2, nf2, nu2);
        },
        Expr::Mul(a, b) => {
            lemma_known_grows(*a, np, nf, nu, np2, nf2, nu2);
            lemma_known_grows(*b, np, nf, nu, np2, nf2, nu2);
        },
        Expr::Neg(a) => {
            lemma_known_grows(*a, np, nf, nu, np2, nf2, nu2);
        },
    }
}

} // verus!
