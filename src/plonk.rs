//! The standard PLONK column set, its universal gate, and the relation
//! `a + b = c` laid out on it: `a` private, `b` public, `c` fixed.
use crate::checker::{check, eval, failures, read, row_failures, CheckError, Verdict};
use crate::circuit::{columns_known, max_offset, min_offset, Column, ConfigError, ConstraintSystem};
use crate::circuit::{Expr, Gate, Kind};
use crate::felt::{modulus, Felt};
use crate::table::{AssignError, Table};
use vstd::arithmetic::div_mod::{
    lemma_add_mod_noop, lemma_add_mod_noop_right, lemma_mod_equivalence, lemma_small_mod,
};
use vstd::prelude::*;

verus! {

/// The name under which the universal gate is registered.
pub const UNIVERSAL_GATE: &'static str =
    "q_left*left_input + q_right*right_input + q_output*output + q_product*left_input*right_input + constant + instance = 0";

/// Standard PLONK column set.
#[derive(Clone, Copy, PartialEq, Eq, Debug, Structural)]
pub struct StandardPlonkConfig {
    /// Left input to a gate (private).
    pub left_input: Column,
    /// Right input to a gate (private).
    pub right_input: Column,
    /// Output of a gate (private).
    pub output: Column,
    /// Selector for the left input (fixed).
    pub q_left: Column,
    /// Selector for the right input (fixed).
    pub q_right: Column,
    /// Selector for the output (fixed).
    pub q_output: Column,
    /// Selector for the product of the two inputs (fixed).
    pub q_product: Column,
    /// Fixed constants.
    pub constant: Column,
    /// The public input.
    pub instance: Column,
}

/// A query of `c` at the current row.
pub open spec fn cur(c: Column) -> Expr {
    Expr::Query(c, 0)
}

pub open spec fn plus(a: Expr, b: Expr) -> Expr {
    Expr::Add(Box::new(a), Box::new(b))
}

pub open spec fn times(a: Expr, b: Expr) -> Expr {
    Expr::Mul(Box::new(a), Box::new(b))
}

/// `q_left·left_input + q_right·right_input + q_product·left_input·right_input
/// + q_output·output + constant + instance`, every query at the current row.
pub open spec fn universal_poly(cfg: StandardPlonkConfig) -> Expr {
    plus(
        plus(
            plus(
                plus(
                    plus(
                        times(cur(cfg.q_left), cur(cfg.left_input)),
                        times(cur(cfg.q_right), cur(cfg.right_input)),
                    ),
                    times(times(cur(cfg.q_product), cur(cfg.left_input)), cur(cfg.right_input)),
                ),
                times(cur(cfg.q_output), cur(cfg.output)),
            ),
            cur(cfg.constant),
        ),
        cur(cfg.instance),
    )
}

impl StandardPlonkConfig {
    /// Each column has the kind its role asks for and was allocated among the
    /// given counts.
    pub open spec fn registered(self, np: nat, nf: nat, nu: nat) -> bool {
        &&& self.left_input.kind == Kind::Private && self.left_input.index < np
        &&& self.right_input.kind == Kind::Private && self.right_input.index < np
        &&& self.output.kind == Kind::Private && self.output.index < np
        &&& self.q_left.kind == Kind::Fixed && self.q_left.index < nf
        &&& self.q_right.kind == Kind::Fixed && self.q_right.index < nf
        &&& self.q_output.kind == Kind::Fixed && self.q_output.index < nf
        &&& self.q_product.kind == Kind::Fixed && self.q_product.index < nf
        &&& self.constant.kind == Kind::Fixed && self.constant.index < nf
        &&& self.instance.kind == Kind::Public && self.instance.index < nu
    }

    /// The columns allocated by `new` on a system holding `np`, `nf` and `nu`
    /// columns of each kind.
    pub open spec fn allocated_after(self, np: nat, nf: nat, nu: nat) -> bool {
        &&& self.left_input == Column { kind: Kind::Private, index: np as usize }
        &&& self.right_input == Column { kind: Kind::Private, index: (np + 1) as usize }
        &&& self.output == Column { kind: Kind::Private, index: (np + 2) as usize }
        &&& self.q_left == Column { kind: Kind::Fixed, index: nf as usize }
        &&& self.q_right == Column { kind: Kind::Fixed, index: (nf + 1) as usize }
        &&& self.q_output == Column { kind: Kind::Fixed, index: (nf + 2) as usize }
        &&& self.q_product == Column { kind: Kind::Fixed, index: (nf + 3) as usize }
        &&& self.constant == Column { kind: Kind::Fixed, index: (nf + 4) as usize }
        &&& self.instance == Column { kind: Kind::Public, index: nu as usize }
    }

    /// Registers the nine columns in `meta`: three private, five fixed, one public.
    pub fn new(meta: &mut ConstraintSystem) -> (r: Self)
        requires
            old(meta).wf(),
            old(meta).num_private + 3 <= usize::MAX,
            old(meta).num_fixed + 5 <= usize::MAX,
            old(meta).num_public + 1 <= usize::MAX,
        ensures
            final(meta).wf(),
            r.allocated_after(
                old(meta).num_private as nat,
                old(meta).num_fixed as nat,
                old(meta).num_public as nat,
            ),
            r.registered(
                final(meta).num_private as nat,
                final(meta).num_fixed as nat,
                final(meta).num_public as nat,
            ),
            final(meta).num_private == old(meta).num_private + 3,
            final(meta).num_fixed == old(meta).num_fixed + 5,
            final(meta).num_public == old(meta).num_public + 1,
            final(meta).num_rows == old(meta).num_rows,
            final(meta).gates@ == old(meta).gates@,
    {
        let left_input = meta.private_column();
        let right_input = meta.private_column();
        let output = meta.private_column();
        let q_left = meta.fixed_column();
        let q_right = meta.fixed_column();
        let q_output = meta.fixed_column();
        let q_product = meta.fixed_column();
        let constant = meta.fixed_column();
        let instance = meta.public_column();
        StandardPlonkConfig {
            left_input,
            right_input,
            output,
            q_left,
            q_right,
            q_output,
            q_product,
            constant,
            instance,
        }
    }
}

/// The query of `c` at the current row.
fn query_cur(c: Column) -> (e: Expr)
    ensures
        e == cur(c),
{
    Expr::Query(c, 0)
}

/// Registers the universal gate over the columns of `config`. It is refused
/// when a column of `config` is not registered in `meta` with the kind of its
/// role, or when the table has no row.
pub fn create_universal_plonk_gate(meta: &mut ConstraintSystem, config: &StandardPlonkConfig) -> (r:
    Result<(), ConfigError>)
    requires
        old(meta).wf(),
    ensures
        final(meta).wf(),
        final(meta).num_rows == old(meta).num_rows,
        final(meta).num_private == old(meta).num_private,
        final(meta).num_fixed == old(meta).num_fixed,
        final(meta).num_public == old(meta).num_public,
        config.registered(
            old(meta).num_private as nat,
            old(meta).num_fixed as nat,
            old(meta).num_public as nat,
        ) ==> (r is Ok <==> old(meta).num_rows > 0),
        r is Ok ==> final(meta).gates@ == old(meta).gates@.push(
            Gate { name: final(meta).gates@.last().name, poly: universal_poly(*config) },
        ),
        r is Ok ==> final(meta).gates@.last().name@ == UNIVERSAL_GATE@,
        r is Err ==> final(meta).gates@ == old(meta).gates@,
{
    let l = Expr::Mul(Box::new(query_cur(config.q_left)), Box::new(query_cur(config.left_input)));
    let rt = Expr::Mul(
        Box::new(query_cur(config.q_right)),
        Box::new(query_cur(config.right_input)),
    );
    let p = Expr::Mul(
        Box::new(
            Expr::Mul(Box::new(query_cur(config.q_product)), Box::new(query_cur(config.left_input))),
        ),
        Box::new(query_cur(config.right_input)),
    );
    let o = Expr::Mul(Box::new(query_cur(config.q_output)), Box::new(query_cur(config.output)));
    let s1 = Expr::Add(Box::new(l), Box::new(rt));
    let s2 = Expr::Add(Box::new(s1), Box::new(p));
    let s3 = Expr::Add(Box::new(s2), Box::new(o));
    let s4 = Expr::Add(Box::new(s3), Box::new(query_cur(config.constant)));
    let poly = Expr::Add(Box::new(s4), Box::new(query_cur(config.instance)));
    assert(poly == universal_poly(*config));
    proof {
        lemma_universal_shape(*config, meta.num_private as nat, meta.num_fixed as nat, meta.num_public as nat);
    }
    meta.add_gate(UNIVERSAL_GATE.to_owned(), poly)
}

/// The universal gate queries the current row only, and only the columns of
/// its configuration.
proof fn lemma_universal_shape(cfg: StandardPlonkConfig, np: nat, nf: nat, nu: nat)
    ensures
        min_offset(universal_poly(cfg)) == 0,
        max_offset(universal_poly(cfg)) == 0,
        cfg.registered(np, nf, nu) ==> columns_known(universal_poly(cfg), np, nf, nu),
{
    let l = times(cur(cfg.q_left), cur(cfg.left_input));
    let rt = times(cur(cfg.q_right), cur(cfg.right_input));
    let pl = times(cur(cfg.q_product), cur(cfg.left_input));
    let p = times(pl, cur(cfg.right_input));
    let o = times(cur(cfg.q_output), cur(cfg.output));
    let s1 = plus(l, rt);
    let s2 = plus(s1, p);
    let s3 = plus(s2, o);
    let s4 = plus(s3, cur(cfg.constant));
    let poly = plus(s4, cur(cfg.instance));
    assert(poly == universal_poly(cfg));
    assert forall|c: Column| min_offset(#[trigger] cur(c)) == 0 && max_offset(cur(c)) == 0 by {}
    assert(min_offset(l) == 0 && max_offset(l) == 0);
    assert(min_offset(rt) == 0 && max_offset(rt) == 0);
    assert(min_offset(pl) == 0 && max_offset(pl) == 0);
    assert(min_offset(p) == 0 && max_offset(p) == 0);
    assert(min_offset(o) == 0 && max_offset(o) == 0);
    assert(min_offset(s1) == 0 && max_offset(s1) == 0);
    assert(min_offset(s2) == 0 && max_offset(s2) == 0);
    assert(min_offset(s3) == 0 && max_offset(s3) == 0);
    assert(min_offset(s4) == 0 && max_offset(s4) == 0);
    assert(min_offset(poly) == 0 && max_offset(poly) == 0);
    if cfg.registered(np, nf, nu) {
        assert(columns_known(cur(cfg.left_input), np, nf, nu));
        assert(columns_known(cur(cfg.right_input), np, nf, nu));
        assert(columns_known(cur(cfg.output), np, nf, nu));
        assert(columns_known(cur(cfg.q_left), np, nf, nu));
        assert(columns_known(cur(cfg.q_right), np, nf, nu));
        assert(columns_known(cur(cfg.q_output), np, nf, nu));
        assert(columns_known(cur(cfg.q_product), np, nf, nu));
        assert(columns_known(cur(cfg.constant), np, nf, nu));
        assert(columns_known(cur(cfg.instance), np, nf, nu));
        assert(columns_known(l, np, nf, nu));
        assert(columns_known(rt, np, nf, nu));
        assert(columns_known(pl, np, nf, nu));
        assert(columns_known(p, np, nf, nu));
        assert(columns_known(o, np, nf, nu));
        assert(columns_known(s1, np, nf, nu));
        assert(columns_known(s2, np, nf, nu));
        assert(columns_known(s3, np, nf, nu));
        assert(columns_known(s4, np, nf, nu));
        assert(columns_known(poly, np, nf, nu));
    }
}

/// The relation `a + b = c`: `a` private, `b` public, `c` fixed.
#[derive(Clone, Copy, PartialEq, Eq, Debug)]
pub struct SimpleRelation {
    /// Private summand.
    pub a: Felt,
    /// Public summand.
    pub b: Felt,
    /// Constant result.
    pub c: Felt,
}

impl StandardPlonkConfig {
    /// The eight private and fixed columns are pairwise distinct.
    pub open spec fn distinct(self) -> bool {
        let cols = self.written_columns();
        forall|i: int, j: int| 0 <= i < j < 8 ==> #[trigger] cols[i] != #[trigger] cols[j]
    }

    /// The columns that a witness fills, in the order they are written.
    pub open spec fn written_columns(self) -> Seq<Column> {
        seq![
            self.left_input,
            self.right_input,
            self.output,
            self.q_left,
            self.q_right,
            self.q_output,
            self.q_product,
            self.constant,
        ]
    }
}

impl SimpleRelation {
    /// The same relation with every value zero.
    pub fn without_witnesses(&self) -> (r: Self)
        ensures
            r.a.value() == 0,
            r.b.value() == 0,
            r.c.value() == 0,
    {
        SimpleRelation { a: Felt::zero(), b: Felt::zero(), c: Felt::zero() }
    }

    /// Sets up the table shape: the standard column set and the universal gate.
    /// Registration fails only when the table has no row.
    pub fn configure(meta: &mut ConstraintSystem) -> (r: Result<StandardPlonkConfig, ConfigError>)
        requires
            old(meta).wf(),
            old(meta).num_private + 3 <= usize::MAX,
            old(meta).num_fixed + 5 <= usize::MAX,
            old(meta).num_public + 1 <= usize::MAX,
        ensures
            final(meta).wf(),
            final(meta).num_private == old(meta).num_private + 3,
            final(meta).num_fixed == old(meta).num_fixed + 5,
            final(meta).num_public == old(meta).num_public + 1,
            final(meta).num_rows == old(meta).num_rows,
            r is Ok <==> old(meta).num_rows > 0,
            r matches Ok(cfg) ==> {
                &&& cfg.allocated_after(
                    old(meta).num_private as nat,
                    old(meta).num_fixed as nat,
                    old(meta).num_public as nat,
                )
                &&& final(meta).gates@ == old(meta).gates@.push(
                    Gate { name: final(meta).gates@.last().name, poly: universal_poly(cfg) },
                )
                &&& final(meta).gates@.last().name@ == UNIVERSAL_GATE@
            },
            r is Err ==> r == Err::<StandardPlonkConfig, ConfigError>(ConfigError::OffsetOutOfRange),
    {
        let config = StandardPlonkConfig::new(meta);
        match create_universal_plonk_gate(meta, &config) {
            Ok(()) => Ok(config),
            Err(_) => Err(ConfigError::OffsetOutOfRange),
        }
    }

    /// Fills the first row: `a` as the left input with its selector on, `-c` as
    /// the constant, and zero in the other inputs and selectors, so that every
    /// cell the universal gate reads is assigned. `b` comes with the check, in
    /// the public column.
    pub fn synthesize(&self, config: StandardPlonkConfig, table: &mut Table) -> (r: Result<(), AssignError>)
        requires
            old(table).wf(),
        ensures
            final(table).wf(),
            final(table).shape == old(table).shape,
            r is Ok <==> {
                &&& old(table).has_cell(config.left_input, 0)
                &&& old(table).has_cell(config.right_input, 0)
                &&& old(table).has_cell(config.output, 0)
                &&& old(table).has_cell(config.q_left, 0)
                &&& old(table).has_cell(config.q_right, 0)
                &&& old(table).has_cell(config.q_output, 0)
                &&& old(table).has_cell(config.q_product, 0)
                &&& old(table).has_cell(config.constant, 0)
            },
            r is Ok && config.distinct() ==> {
                &&& final(table).cell(config.left_input, 0) == Some(self.a.value())
                &&& final(table).cell(config.right_input, 0) == Some(0nat)
                &&& final(table).cell(config.output, 0) == Some(0nat)
                &&& final(table).cell(config.q_left, 0) == Some(1nat)
                &&& final(table).cell(config.q_right, 0) == Some(0nat)
                &&& final(table).cell(config.q_output, 0) == Some(0nat)
                &&& final(table).cell(config.q_product, 0) == Some(0nat)
                &&& final(table).cell(config.constant, 0) == Some(
                    ((0 - self.c.value()) % (modulus() as int)) as nat,
                )
            },
    {
        let zero = Felt::zero();
        table.assign(config.left_input, 0, self.a)?;
        table.assign(config.right_input, 0, zero)?;
        table.assign(config.output, 0, zero)?;
        table.assign(config.q_left, 0, Felt::one())?;
        table.assign(config.q_right, 0, zero)?;
        table.assign(config.q_output, 0, zero)?;
        table.assign(config.q_product, 0, zero)?;
        table.assign(config.constant, 0, self.c.neg())?;
        proof {
            if config.distinct() {
                let cols = config.written_columns();
                assert(cols[0] != cols[1]);
                assert(cols[0] != cols[2]);
                assert(cols[0] != cols[3]);
                assert(cols[0] != cols[4]);
                assert(cols[0] != cols[5]);
                assert(cols[0] != cols[6]);
                assert(cols[0] != cols[7]);
                assert(cols[1] != cols[2]);
                assert(cols[1] != cols[3]);
                assert(cols[1] != cols[4]);
                assert(cols[1] != cols[5]);
                assert(cols[1] != cols[6]);
                assert(cols[1] != cols[7]);
                assert(cols[2] != cols[3]);
                assert(cols[2] != cols[4]);
                assert(cols[2] != cols[5]);
                assert(cols[2] != cols[6]);
                assert(cols[2] != cols[7]);
                assert(cols[3] != cols[4]);
                assert(cols[3] != cols[5]);
                assert(cols[3] != cols[6]);
                assert(cols[3] != cols[7]);
                assert(cols[4] != cols[5]);
                assert(cols[4] != cols[6]);
                assert(cols[4] != cols[7]);
                assert(cols[5] != cols[6]);
                assert(cols[5] != cols[7]);
                assert(cols[6] != cols[7]);
            }
        }
        Ok(())
    }

    /// Lays the relation out on a table of one row and checks it against
    /// `public_inputs`, which must hold one vector, for the public column, of
    /// one value: the public summand. The check passes exactly when `a` plus
    /// that value is `c` in the field; otherwise the universal gate fails at
    /// row 0, and that is the one failure reported.
    pub fn run(&self, public_inputs: &Vec<Vec<Felt>>) -> (r: Result<Verdict, CheckError>)
        ensures
            public_inputs@.len() != 1 ==> r == Err::<Verdict, CheckError>(
                CheckError::PublicColumnCount { expected: 1, found: public_inputs@.len() as usize },
            ),
            public_inputs@.len() == 1 && public_inputs@[0]@.len() != 1 ==> r == Err::<
                Verdict,
                CheckError,
            >(
                CheckError::PublicInputLength {
                    column: 0,
                    expected: 1,
                    found: public_inputs@[0]@.len() as usize,
                },
            ),
            public_inputs@.len() == 1 && public_inputs@[0]@.len() == 1 ==> {
                let b = public_inputs@[0]@[0].value();
                &&& (self.a.value() + b) % modulus() == self.c.value() ==> r == Ok::<
                    Verdict,
                    CheckError,
                >(Verdict::Satisfied)
                &&& (self.a.value() + b) % modulus() != self.c.value() ==> match r {
                    Ok(Verdict::Unsatisfied(list)) => {
                        &&& list@.len() == 1
                        &&& list@[0].gate == 0
                        &&& list@[0].row == 0
                        &&& list@[0].name@ == UNIVERSAL_GATE@
                    },
                    _ => false,
                }
            },
    {
        let mut meta = ConstraintSystem::new(1);
        let config = SimpleRelation::configure(&mut meta).unwrap();
        let shape = meta.finalize();
        let mut table = Table::new(shape);
        self.synthesize(config, &mut table).unwrap();
        let r = check(&table, public_inputs);
        proof {
            let pubs = public_inputs@;
            if pubs.len() == 1 && pubs[0]@.len() == 1 {
                self.a.lemma_bounded();
                self.c.lemma_bounded();
                pubs[0]@[0].lemma_bounded();
                let b = pubs[0]@[0].value();
                let poly = universal_poly(config);
                assert(table.shape.gates@[0].poly == poly);
                lemma_universal_shape(config, 3, 5, 1);
                lemma_universal_eval(config, table, pubs, 0);
                let k = ((0 - self.c.value()) % (modulus() as int)) as nat;
                let v = universal_value(1, self.a.value(), 0, 0, 0, 0, 0, k, b);
                assert(eval(poly, 0, table, pubs) == Ok::<nat, (Column, int)>(v));
                lemma_sum_vanishes(self.a.value(), b, self.c.value());
                assert(row_failures(table, pubs, 0, 0) == Ok::<Seq<(int, int)>, (Column, int)>(
                    Seq::empty(),
                ));
                assert(failures(table, pubs, 0) == Ok::<Seq<(int, int)>, (Column, int)>(
                    Seq::empty(),
                ));
                if v == 0 {
                    assert(row_failures(table, pubs, 0, 1) == Ok::<
                        Seq<(int, int)>,
                        (Column, int),
                    >(Seq::empty()));
                    assert(failures(table, pubs, 1) == Ok::<Seq<(int, int)>, (Column, int)>(
                        Seq::empty(),
                    ));
                } else {
                    let fs = Seq::<(int, int)>::empty().push((0int, 0int));
                    assert(row_failures(table, pubs, 0, 1) == Ok::<
                        Seq<(int, int)>,
                        (Column, int),
                    >(fs));
                    assert(Seq::<(int, int)>::empty() + fs =~= fs);
                    assert(failures(table, pubs, 1) == Ok::<Seq<(int, int)>, (Column, int)>(fs));
                }
            }
        }
        r
    }
}

/// `q_left·l + q_right·r + q_product·l·r + q_output·o + k + inst` in the
/// field, summed in the order the universal gate states it.
pub open spec fn universal_value(
    ql: nat,
    l: nat,
    qr: nat,
    rr: nat,
    qp: nat,
    qo: nat,
    o: nat,
    k: nat,
    inst: nat,
) -> nat {
    let m = modulus();
    let s1 = ((ql * l) % m + (qr * rr) % m) % m;
    let s2 = (s1 + (((qp * l) % m) * rr) % m) % m;
    let s3 = (s2 + (qo * o) % m) % m;
    let s4 = (s3 + k) % m;
    (s4 + inst) % m
}

/// The value read at column `c`, row `r`, when there is one.
pub open spec fn read_value(t: Table, pubs: Seq<Vec<Felt>>, c: Column, r: int) -> nat {
    match read(t, pubs, c, r) {
        Some(v) => v,
        None => 0,
    }
}

/// Where every cell it reads is assigned, the universal gate evaluates to
/// `universal_value` of those cells.
proof fn lemma_universal_eval(cfg: StandardPlonkConfig, t: Table, pubs: Seq<Vec<Felt>>, r: int)
    requires
        read(t, pubs, cfg.left_input, r) is Some,
        read(t, pubs, cfg.right_input, r) is Some,
        read(t, pubs, cfg.output, r) is Some,
        read(t, pubs, cfg.q_left, r) is Some,
        read(t, pubs, cfg.q_right, r) is Some,
        read(t, pubs, cfg.q_output, r) is Some,
        read(t, pubs, cfg.q_product, r) is Some,
        read(t, pubs, cfg.constant, r) is Some,
        read(t, pubs, cfg.instance, r) is Some,
    ensures
        eval(universal_poly(cfg), r, t, pubs) == Ok::<nat, (Column, int)>(
            universal_value(
                read_value(t, pubs, cfg.q_left, r),
                read_value(t, pubs, cfg.left_input, r),
                read_value(t, pubs, cfg.q_right, r),
                read_value(t, pubs, cfg.right_input, r),
                read_value(t, pubs, cfg.q_product, r),
                read_value(t, pubs, cfg.q_output, r),
                read_value(t, pubs, cfg.output, r),
                read_value(t, pubs, cfg.constant, r),
                read_value(t, pubs, cfg.instance, r),
            ),
        ),
{
    let m = modulus();
    assert forall|c: Column| read(t, pubs, c, r) is Some implies #[trigger] eval(cur(c), r, t, pubs)
        == Ok::<nat, (Column, int)>(read_value(t, pubs, c, r)) by {
        assert(r + 0int == r);
    }
    let ql = read_value(t, pubs, cfg.q_left, r);
    let l = read_value(t, pubs, cfg.left_input, r);
    let qr = read_value(t, pubs, cfg.q_right, r);
    let rr = read_value(t, pubs, cfg.right_input, r);
    let qp = read_value(t, pubs, cfg.q_product, r);
    let qo = read_value(t, pubs, cfg.q_output, r);
    let o = read_value(t, pubs, cfg.output, r);
    let k = read_value(t, pubs, cfg.constant, r);
    let inst = read_value(t, pubs, cfg.instance, r);
    let e_l = times(cur(cfg.q_left), cur(cfg.left_input));
    let e_r = times(cur(cfg.q_right), cur(cfg.right_input));
    let e_pl = times(cur(cfg.q_product), cur(cfg.left_input));
    let e_p = times(e_pl, cur(cfg.right_input));
    let e_o = times(cur(cfg.q_output), cur(cfg.output));
    let s1 = plus(e_l, e_r);
    let s2 = plus(s1, e_p);
    let s3 = plus(s2, e_o);
    let s4 = plus(s3, cur(cfg.constant));
    assert(eval(cur(cfg.q_left), r, t, pubs) == Ok::<nat, (Column, int)>(ql));
    assert(eval(cur(cfg.left_input), r, t, pubs) == Ok::<nat, (Column, int)>(l));
    assert(eval(cur(cfg.q_right), r, t, pubs) == Ok::<nat, (Column, int)>(qr));
    assert(eval(cur(cfg.right_input), r, t, pubs) == Ok::<nat, (Column, int)>(rr));
    assert(eval(cur(cfg.q_product), r, t, pubs) == Ok::<nat, (Column, int)>(qp));
    assert(eval(cur(cfg.q_output), r, t, pubs) == Ok::<nat, (Column, int)>(qo));
    assert(eval(cur(cfg.output), r, t, pubs) == Ok::<nat, (Column, int)>(o));
    assert(eval(cur(cfg.constant), r, t, pubs) == Ok::<nat, (Column, int)>(k));
    assert(eval(cur(cfg.instance), r, t, pubs) == Ok::<nat, (Column, int)>(inst));
    assert(eval(e_l, r, t, pubs) == Ok::<nat, (Column, int)>((ql * l) % m));
    assert(eval(e_r, r, t, pubs) == Ok::<nat, (Column, int)>((qr * rr) % m));
    assert(eval(e_pl, r, t, pubs) == Ok::<nat, (Column, int)>((qp * l) % m));
    assert(eval(e_p, r, t, pubs) == Ok::<nat, (Column, int)>((((qp * l) % m) * rr) % m));
    assert(eval(e_o, r, t, pubs) == Ok::<nat, (Column, int)>((qo * o) % m));
    assert(eval(s1, r, t, pubs) == Ok::<nat, (Column, int)>(((ql * l) % m + (qr * rr) % m) % m));
    let v1 = ((ql * l) % m + (qr * rr) % m) % m;
    let v2 = (v1 + (((qp * l) % m) * rr) % m) % m;
    let v3 = (v2 + (qo * o) % m) % m;
    let v4 = (v3 + k) % m;
    assert(eval(s2, r, t, pubs) == Ok::<nat, (Column, int)>(v2));
    assert(eval(s3, r, t, pubs) == Ok::<nat, (Column, int)>(v3));
    assert(eval(s4, r, t, pubs) == Ok::<nat, (Column, int)>(v4));
    assert(universal_poly(cfg) == plus(s4, cur(cfg.instance)));
}

/// With `a`, `b`, `c` residues, `a + b + (-c)` vanishes in the field exactly
/// when `a + b` is `c`.
proof fn lemma_sum_vanishes(a: nat, b: nat, c: nat)
    requires
        a < modulus(),
        b < modulus(),
        c < modulus(),
    ensures
        (universal_value(1, a, 0, 0, 0, 0, 0, ((0 - c) % (modulus() as int)) as nat, b) == 0)
            <==> ((a + b) % modulus() == c),
{
    let m = modulus() as int;
    let (ai, bi, ci) = (a as int, b as int, c as int);
    lemma_small_mod(a, modulus());
    lemma_small_mod(b, modulus());
    lemma_small_mod(c, modulus());
    let k = (0 - ci) % m;
    assert(0 <= k < m);
    assert((1 * a) % modulus() == a);
    lemma_small_mod(0, modulus());
    assert((0nat * 0nat) % modulus() == 0);
    assert((0 * a) % modulus() == 0);
    let s3 = (((ai + 0) % m + 0) % m + 0) % m;
    assert(s3 == ai);
    lemma_add_mod_noop_right(ai, 0 - ci, m);
    assert((ai + k) % m == (ai - ci) % m);
    lemma_add_mod_noop(ai - ci, bi, m);
    assert(((ai - ci) % m + bi) % m == (ai - ci + bi) % m);
    lemma_mod_equivalence(ai + bi, ci, m);
    assert((ai + bi - ci) % m == 0 <==> (ai + bi) % m == ci % m);
    assert(universal_value(1, a, 0, 0, 0, 0, 0, k as nat, b) == ((ai + k) % m + bi) % m);
}

} // verus!
