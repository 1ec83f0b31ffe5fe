//! The satisfiability checker: evaluates each gate on each row of its window
//! against a populated table and the public inputs, and reports every row at
//! which a gate does not vanish.
use crate::circuit::{
    columns_known, end_row, first_row, lemma_window_within, offset_bounds, queries_within,
};
use crate::circuit::{Column, Expr, Gate, Kind};
use crate::felt::{modulus, Felt};
use crate::table::{lemma_flat_index, Table};
use vstd::prelude::*;

verus! {

/// A gate that does not vanish at a row.
#[derive(Clone, PartialEq, Eq, Debug)]
pub struct Failure {
    /// Position of the failing gate, in registration order.
    pub gate: usize,
    /// Name of the failing gate.
    pub name: String,
    pub row: usize,
}

/// The outcome of a check that ran to its end.
#[derive(Clone, PartialEq, Eq, Debug)]
pub enum Verdict {
    Satisfied,
    Unsatisfied(Vec<Failure>),
}

/// A usage error: the check could not be carried out.
#[derive(Clone, Copy, PartialEq, Eq, Debug, Structural)]
pub enum CheckError {
    /// One vector of public values is owed per public column.
    PublicColumnCount { expected: usize, found: usize },
    /// Each public vector holds one value per row.
    PublicInputLength { column: usize, expected: usize, found: usize },
    /// A gate read a cell that was never assigned.
    Unassigned { column: Column, row: usize },
}

/// The value read by a query that lands on column `c`, row `r`: a public value,
/// or a table cell if it was assigned.
pub open spec fn read(t: Table, pubs: Seq<Vec<Felt>>, c: Column, r: int) -> Option<nat> {
    match c.kind {
        Kind::Public => Some(pubs[c.index as int]@[r].value()),
        _ => t.cell(c, r),
    }
}

/// The value of `e` at row `r`, evaluated left to right; the first unassigned
/// cell read is the error.
pub open spec fn eval(e: Expr, r: int, t: Table, pubs: Seq<Vec<Felt>>) -> Result<nat, (Column, int)>
    decreases e,
{
    let m = modulus() as int;
    match e {
        Expr::Constant(f) => Ok(f.value()),
        Expr::Query(c, off) => match read(t, pubs, c, r + off) {
            Some(v) => Ok(v),
            None => Err((c, r + off)),
        },
        Expr::Add(a, b) => match eval(*a, r, t, pubs) {
            Err(x) => Err(x),
            Ok(x) => match eval(*b, r, t, pubs) {
                Err(y) => Err(y),
                Ok(y) => Ok((x + y) % modulus()),
            },
        },
        Expr::Sub(a, b) => match eval(*a, r, t, pubs) {
            Err(x) => Err(x),
            Ok(x) => match eval(*b, r, t, pubs) {
                Err(y) => Err(y),
                Ok(y) => Ok(((x - y) % m) as nat),
            },
        },
        Expr::Mul(a, b) => match eval(*a, r, t, pubs) {
            Err(x) => Err(x),
            Ok(x) => match eval(*b, r, t, pubs) {
                Err(y) => Err(y),
                Ok(y) => Ok((x * y) % modulus()),
            },
        },
        Expr::Neg(a) => match eval(*a, r, t, pubs) {
            Err(x) => Err(x),
            Ok(x) => Ok(((0 - x) % m) as nat),
        },
    }
}

/// Whether a gate over `e` is checked at row `r` of a table of `n` rows.
pub open spec fn active(e: Expr, r: int, n: int) -> bool {
    first_row(e) <= r < end_row(e, n)
}

/// The failing `(gate, row)` pairs among the first `k` gates at row `r`.
pub open spec fn row_failures(t: Table, pubs: Seq<Vec<Felt>>, r: int, k: nat) -> Result<
    Seq<(int, int)>,
    (Column, int),
>
    decreases k,
{
    if k == 0 {
        Ok(Seq::empty())
    } else {
        match row_failures(t, pubs, r, (k - 1) as nat) {
            Err(x) => Err(x),
            Ok(fs) => {
                let poly = t.shape.gates@[k - 1].poly;
                if !active(poly, r, t.rows()) {
                    Ok(fs)
                } else {
                    match eval(poly, r, t, pubs) {
                        Err(x) => Err(x),
                        Ok(v) => if v == 0 {
                            Ok(fs)
                        } else {
                            Ok(fs.push((k - 1, r)))
                        },
                    }
                }
            },
        }
    }
}

/// The failing `(gate, row)` pairs over the first `m` rows, row by row.
pub open spec fn failures(t: Table, pubs: Seq<Vec<Felt>>, m: nat) -> Result<
    Seq<(int, int)>,
    (Column, int),
>
    decreases m,
{
    if m == 0 {
        Ok(Seq::empty())
    } else {
        match failures(t, pubs, (m - 1) as nat) {
            Err(x) => Err(x),
            Ok(fs) => match row_failures(t, pubs, m - 1, t.shape.gates@.len()) {
                Err(x) => Err(x),
                Ok(gs) => Ok(fs + gs),
            },
        }
    }
}

/// One vector of public values per public column, each as long as the table.
pub open spec fn public_inputs_fit(t: Table, pubs: Seq<Vec<Felt>>) -> bool {
    &&& pubs.len() == t.shape.num_public
    &&& forall|i: int| 0 <= i < pubs.len() ==> (#[trigger] pubs[i])@.len() == t.rows()
}

/// `list` reports the failing pairs `fs` one for one, in order, with the
/// gates' names.
pub open spec fn failures_listed(list: Seq<Failure>, fs: Seq<(int, int)>, gates: Seq<Gate>) -> bool {
    &&& list.len() == fs.len()
    &&& forall|i: int|
        0 <= i < fs.len() ==> {
            &&& (#[trigger] list[i]).gate == fs[i].0
            &&& list[i].row == fs[i].1
            &&& list[i].name@ == gates[fs[i].0].name@
        }
}

/// `v` reports exactly the failing pairs `fs`.
pub open spec fn verdict_matches(v: Verdict, fs: Seq<(int, int)>, gates: Seq<Gate>) -> bool {
    if fs.len() == 0 {
        v == Verdict::Satisfied
    } else {
        match v {
            Verdict::Satisfied => false,
            Verdict::Unsatisfied(list) => failures_listed(list@, fs, gates),
        }
    }
}

/// The whole outcome of a check on `t` with public inputs `pubs`.
pub open spec fn check_result(t: Table, pubs: Seq<Vec<Felt>>, r: Result<Verdict, CheckError>) -> bool {
    let n = t.rows();
    let nu = t.shape.num_public as int;
    if pubs.len() != nu {
        r == Err::<Verdict, CheckError>(
            CheckError::PublicColumnCount { expected: nu as usize, found: pubs.len() as usize },
        )
    } else if !public_inputs_fit(t, pubs) {
        match r {
            Err(CheckError::PublicInputLength { column, expected, found }) => {
                &&& column < nu
                &&& expected == n
                &&& found == pubs[column as int]@.len()
                &&& found != n
                &&& forall|j: int| 0 <= j < column ==> (#[trigger] pubs[j])@.len() == n
            },
            _ => false,
        }
    } else {
        match failures(t, pubs, n as nat) {
            Err((c, row)) => r == Err::<Verdict, CheckError>(
                CheckError::Unassigned { column: c, row: row as usize },
            ),
            Ok(fs) => match r {
                Ok(v) => verdict_matches(v, fs, t.shape.gates@),
                Err(_) => false,
            },
        }
    }
}

/// The spec-level outcome reached by `eval`, as an executable result.
pub open spec fn eval_matches(s: Result<nat, (Column, int)>, res: Result<Felt, CheckError>) -> bool {
    match s {
        Ok(v) => match res {
            Ok(f) => f.value() == v,
            Err(_) => false,
        },
        Err((c, row)) => res == Err::<Felt, CheckError>(
            CheckError::Unassigned { column: c, row: row as usize },
        ),
    }
}

/// Evaluates `e` at row `r`.
fn eval_at(e: &Expr, r: usize, t: &Table, pubs: &Vec<Vec<Felt>>) -> (res: Result<Felt, CheckError>)
    requires
        t.wf(),
        public_inputs_fit(*t, pubs@),
        columns_known(
            *e,
            t.shape.num_private as nat,
            t.shape.num_fixed as nat,
            t.shape.num_public as nat,
        ),
        queries_within(*e, r as int, t.rows()),
    ensures
        eval_matches(eval(*e, r as int, *t, pubs@), res),
    decreases e,
{
    match e {
        Expr::Constant(f) => Ok(*f),
        Expr::Query(c, off) => {
            let n = t.shape.num_rows;
            let row = ((r as i128) + (*off as i128)) as usize;
            match c.kind {
                Kind::Public => {
                    assert(pubs@[c.index as int]@.len() == t.rows());
                    Ok(pubs[c.index][row])
                },
                Kind::Private => {
                    let lane_len = t.private.len();
                    proof {
                        lemma_flat_index(c.index as int, row as int, t.shape.num_private as int, n as int);
                        assert(c.index * n + row < lane_len);
                    }
                    match t.private[c.index * n + row] {
                        Some(v) => Ok(v),
                        None => Err(CheckError::Unassigned { column: *c, row }),
                    }
                },
                Kind::Fixed => {
                    let lane_len = t.fixed.len();
                    proof {
                        lemma_flat_index(c.index as int, row as int, t.shape.num_fixed as int, n as int);
                        assert(c.index * n + row < lane_len);
                    }
                    match t.fixed[c.index * n + row] {
                        Some(v) => Ok(v),
                        None => Err(CheckError::Unassigned { column: *c, row }),
                    }
                },
            }
        },
        Expr::Add(a, b) => {
            let x = eval_at(a, r, t, pubs)?;
            let y = eval_at(b, r, t, pubs)?;
            Ok(x.add(&y))
        },
        Expr::Sub(a, b) => {
            let x = eval_at(a, r, t, pubs)?;
            let y = eval_at(b, r, t, pubs)?;
            Ok(x.sub(&y))
        },
        Expr::Mul(a, b) => {
            let x = eval_at(a, r, t, pubs)?;
            let y = eval_at(b, r, t, pubs)?;
            Ok(x.mul(&y))
        },
        Expr::Neg(a) => {
            let x = eval_at(a, r, t, pubs)?;
            Ok(x.neg())
        },
    }
}

/// Checks `table` against `public_inputs`: first that there is one vector of
/// public values per public column, each as long as the table; then every gate
/// at every row of its window, row by row and gate by gate. A gate that reads
/// an unassigned cell stops the check; every gate that does not vanish is
/// reported.
pub fn check(table: &Table, public_inputs: &Vec<Vec<Felt>>) -> (r: Result<Verdict, CheckError>)
    requires
        table.wf(),
    ensures
        check_result(*table, public_inputs@, r),
{
    let n = table.shape.num_rows;
    let nu = table.shape.num_public;
    if public_inputs.len() != nu {
        return Err(CheckError::PublicColumnCount { expected: nu, found: public_inputs.len() });
    }
    let mut i: usize = 0;
    while i < nu
        invariant
            i <= nu,
            nu == table.shape.num_public,
            n == table.shape.num_rows,
            public_inputs@.len() == nu,
            forall|j: int| 0 <= j < i ==> (#[trigger] public_inputs@[j])@.len() == n,
        decreases nu - i,
    {
        if public_inputs[i].len() != n {
            return Err(
                CheckError::PublicInputLength {
                    column: i,
                    expected: n,
                    found: public_inputs[i].len(),
                },
            );
        }
        i = i + 1;
    }
    let ghost pubs = public_inputs@;
    let ghost gates = table.shape.gates@;
    let num_gates = table.shape.gates.len();
    let mut list: Vec<Failure> = Vec::new();
    let ghost mut fs: Seq<(int, int)> = Seq::empty();
    let mut row: usize = 0;
    while row < n
        invariant
            table.wf(),
            public_inputs_fit(*table, pubs),
            pubs == public_inputs@,
            gates == table.shape.gates@,
            num_gates == gates.len(),
            n == table.shape.num_rows,
            row <= n,
            failures(*table, pubs, row as nat) == Ok::<Seq<(int, int)>, (Column, int)>(fs),
            failures_listed(list@, fs, gates),
        decreases n - row,
    {
        let ghost mut gs: Seq<(int, int)> = Seq::empty();
        let ghost before = list@;
        let mut g: usize = 0;
        while g < num_gates
            invariant
                table.wf(),
                public_inputs_fit(*table, pubs),
                pubs == public_inputs@,
                gates == table.shape.gates@,
                num_gates == gates.len(),
                n == table.shape.num_rows,
                row < n,
                g <= num_gates,
                failures(*table, pubs, row as nat) == Ok::<Seq<(int, int)>, (Column, int)>(fs),
                row_failures(*table, pubs, row as int, g as nat) == Ok::<
                    Seq<(int, int)>,
                    (Column, int),
                >(gs),
                failures_listed(list@, fs + gs, gates),
            decreases num_gates - g,
        {
            let gate = &table.shape.gates[g];
            let (lo, hi) = offset_bounds(&gate.poly);
            if (row as i128) + (lo as i128) >= 0 && (row as i128) + (hi as i128) < (n as i128) {
                proof {
                    lemma_window_within(gate.poly, row as int, n as int);
                    assert(columns_known(
                        gates[g as int].poly,
                        table.shape.num_private as nat,
                        table.shape.num_fixed as nat,
                        table.shape.num_public as nat,
                    ));
                }
                match eval_at(&gate.poly, row, table, public_inputs) {
                    Err(e) => {
                        proof {
                            lemma_row_error_stays(*table, pubs, row as int, (g + 1) as nat, num_gates as nat);
                            lemma_failures_error_stays(*table, pubs, (row + 1) as nat, n as nat);
                        }
                        return Err(e);
                    },
                    Ok(v) => {
                        if !v.is_zero() {
                            list.push(Failure { gate: g, name: gate.name.clone(), row });
                            proof {
                                let old_gs = gs;
                                gs = gs.push((g as int, row as int));
                                assert(fs + gs == (fs + old_gs).push((g as int, row as int)));
                            }
                        }
                    },
                }
            }
            g = g + 1;
        }
        proof {
            fs = fs + gs;
        }
        row = row + 1;
    }
    if list.len() == 0 {
        Ok(Verdict::Satisfied)
    } else {
        Ok(Verdict::Unsatisfied(list))
    }
}

/// Once a row's sweep has stopped on an unassigned cell, later gates do not
/// change its outcome.
proof fn lemma_row_error_stays(t: Table, pubs: Seq<Vec<Felt>>, r: int, k: nat, k2: nat)
    requires
        k <= k2,
        row_failures(t, pubs, r, k) is Err,
    ensures
        row_failures(t, pubs, r, k2) == row_failures(t, pubs, r, k),
    decreases k2,
{
    if k2 > k {
        lemma_row_error_stays(t, pubs, r, k, (k2 - 1) as nat);
    }
}

/// Once the sweep has stopped on an unassigned cell, later rows do not change
/// its outcome.
proof fn lemma_failures_error_stays(t: Table, pubs: Seq<Vec<Felt>>, m: nat, m2: nat)
    requires
        m <= m2,
        failures(t, pubs, m) is Err,
    ensures
        failures(t, pubs, m2) == failures(t, pubs, m),
    decreases m2,
{
    if m2 > m {
        lemma_failures_error_stays(t, pubs, m, (m2 - 1) as nat);
    }
}

/// What a check reports, with each failure as its gate, row and gate name:
/// `None` for a satisfied table.
pub open spec fn reported(r: Result<Verdict, CheckError>) -> Result<
    Option<Seq<(int, int, Seq<char>)>>,
    CheckError,
> {
    match r {
        Ok(Verdict::Satisfied) => Ok(None),
        Ok(Verdict::Unsatisfied(list)) => Ok(
            Some(list@.map_values(|f: Failure| (f.gate as int, f.row as int, f.name@))),
        ),
        Err(e) => Err(e),
    }
}

/// Checking the same table against the same public inputs twice reports the
/// same outcome: whatever `check` returns is fixed by its two arguments.
pub proof fn lemma_check_idempotent(
    t: Table,
    pubs: Seq<Vec<Felt>>,
    r1: Result<Verdict, CheckError>,
    r2: Result<Verdict, CheckError>,
)
    requires
        check_result(t, pubs, r1),
        check_result(t, pubs, r2),
    ensures
        reported(r1) == reported(r2),
{
    let n = t.rows();
    if pubs.len() == t.shape.num_public && !public_inputs_fit(t, pubs) {
        match (r1, r2) {
            (
                Err(CheckError::PublicInputLength { column: c1, .. }),
                Err(CheckError::PublicInputLength { column: c2, .. }),
            ) => {
                if c1 < c2 {
                    assert(pubs[c1 as int]@.len() == n);
                } else if c2 < c1 {
                    assert(pubs[c2 as int]@.len() == n);
                }
            },
            _ => {},
        }
    } else if pubs.len() == t.shape.num_public {
        match failures(t, pubs, n as nat) {
            Ok(fs) => {
                if fs.len() > 0 {
                    match (r1, r2) {
                        (Ok(Verdict::Unsatisfied(l1)), Ok(Verdict::Unsatisfied(l2))) => {
                            let f = |f: Failure| (f.gate as int, f.row as int, f.name@);
                            assert(l1@.map_values(f) =~= l2@.map_values(f));
                        },
                        _ => {},
                    }
                }
            },
            Err(_) => {},
        }
    }
}

/// A query of column `c` at offset `off`, made from row `r`, reads row
/// `r + off`: its value there, or the error naming that cell if it is unassigned.
pub proof fn lemma_query_reads_offset_row(c: Column, off: i32, r: int, t: Table, pubs: Seq<Vec<Felt>>)
    ensures
        eval(Expr::Query(c, off), r, t, pubs) == match read(t, pubs, c, r + off) {
            Some(v) => Ok::<nat, (Column, int)>(v),
            None => Err((c, r + off)),
        },
{
}

} // verus!
