use plonk_checker::checker::{check, CheckError, Failure, Verdict};
use plonk_checker::circuit::{Column, ConfigError, ConstraintSystem, Expr, Kind};
use plonk_checker::felt::Felt;
use plonk_checker::table::{AssignError, Table};

fn fe(n: u64) -> Felt {
    Felt::from_u64(n)
}

fn q(c: Column, off: i32) -> Box<Expr> {
    Box::new(Expr::Query(c, off))
}

#[test]
fn field_arithmetic() {
    assert_eq!(fe(2).add(&fe(3)), fe(5));
    assert_eq!(fe(7).sub(&fe(3)), fe(4));
    assert_eq!(fe(6).mul(&fe(7)), fe(42));
    assert_eq!(fe(0).neg(), fe(0));
    assert_eq!(fe(3).sub(&fe(5)), fe(2).neg());
    assert_eq!(fe(1).neg().add(&fe(1)), Felt::zero());
    assert_eq!(fe(1).neg().mul(&fe(1).neg()), Felt::one());
    assert!(fe(0).is_zero());
    assert!(!fe(1).is_zero());
    assert!(fe(9).sub(&fe(9)).is_zero());
    assert!(!fe(1).neg().is_zero());
}

#[test]
fn field_encoding_is_little_endian() {
    let mut expected = [0u8; 32];
    expected[0] = 2;
    expected[1] = 1;
    assert_eq!(fe(258).to_bytes(), expected);
    // p - 1, with p = 0x30644e72...f0000001.
    let minus_one = fe(1).neg().to_bytes();
    assert_eq!(minus_one[0], 0x00);
    assert_eq!(minus_one[1], 0x00);
    assert_eq!(minus_one[2], 0x00);
    assert_eq!(minus_one[3], 0xf0);
    assert_eq!(minus_one[31], 0x30);
    // 2^64 comes back as a single one bit in the ninth byte.
    let big = fe(u64::MAX).add(&fe(1)).to_bytes();
    let mut two_64 = [0u8; 32];
    two_64[8] = 1;
    assert_eq!(big, two_64);
    let square = fe(1 << 32).mul(&fe(1 << 32)).to_bytes();
    assert_eq!(square, two_64);
}

#[test]
fn allocation_is_ordinal_per_kind() {
    let mut meta = ConstraintSystem::new(3);
    let a = meta.allocate(Kind::Private);
    let f = meta.fixed_column();
    let b = meta.private_column();
    let p = meta.public_column();
    assert_eq!(a, Column { kind: Kind::Private, index: 0 });
    assert_eq!(f, Column { kind: Kind::Fixed, index: 0 });
    assert_eq!(b, Column { kind: Kind::Private, index: 1 });
    assert_eq!(p, Column { kind: Kind::Public, index: 0 });
    assert_eq!((meta.num_private, meta.num_fixed, meta.num_public), (2, 1, 1));
}

/// A two-row table with one private column and one gate, `x[r + 1] - x[r]`.
fn next_row_circuit() -> (Column, Table) {
    let mut meta = ConstraintSystem::new(2);
    let x = meta.private_column();
    let poly = Expr::Sub(q(x, 1), q(x, 0));
    assert_eq!(meta.add_gate("step".to_string(), poly), Ok(()));
    (x, Table::new(meta.finalize()))
}

#[test]
fn offset_one_reads_the_next_row() {
    let (x, mut table) = next_row_circuit();
    table.assign(x, 0, fe(4)).unwrap();
    table.assign(x, 1, fe(4)).unwrap();
    assert_eq!(check(&table, &vec![]), Ok(Verdict::Satisfied));
    table.assign(x, 1, fe(5)).unwrap();
    assert_eq!(
        check(&table, &vec![]),
        Ok(Verdict::Unsatisfied(vec![Failure { gate: 0, name: "step".to_string(), row: 0 }]))
    );
}

#[test]
fn offset_gate_reads_unassigned_next_row() {
    let (x, mut table) = next_row_circuit();
    table.assign(x, 0, fe(4)).unwrap();
    assert_eq!(check(&table, &vec![]), Err(CheckError::Unassigned { column: x, row: 1 }));
}

#[test]
fn negative_offset_reads_the_previous_row() {
    let mut meta = ConstraintSystem::new(3);
    let x = meta.private_column();
    // x[r] - x[r - 1] - 1: the column counts upwards.
    let poly = Expr::Sub(Box::new(Expr::Sub(q(x, 0), q(x, -1))), Box::new(Expr::Constant(fe(1))));
    assert_eq!(meta.add_gate("count".to_string(), poly), Ok(()));
    let mut table = Table::new(meta.finalize());
    table.assign(x, 0, fe(7)).unwrap();
    table.assign(x, 1, fe(8)).unwrap();
    table.assign(x, 2, fe(10)).unwrap();
    assert_eq!(
        check(&table, &vec![]),
        Ok(Verdict::Unsatisfied(vec![Failure { gate: 0, name: "count".to_string(), row: 2 }]))
    );
}

#[test]
fn offset_outside_the_table_fails_at_configuration() {
    let mut meta = ConstraintSystem::new(2);
    let x = meta.private_column();
    assert_eq!(meta.add_gate("far".to_string(), *q(x, 2)), Err(ConfigError::OffsetOutOfRange));
    assert_eq!(meta.add_gate("back".to_string(), *q(x, -2)), Err(ConfigError::OffsetOutOfRange));
    let span = Expr::Add(q(x, -1), q(x, 1));
    assert_eq!(meta.add_gate("span".to_string(), span), Err(ConfigError::OffsetOutOfRange));
    assert_eq!(meta.gates.len(), 0);
    assert_eq!(meta.add_gate("near".to_string(), *q(x, 1)), Ok(()));
    assert_eq!(meta.gates.len(), 1);
}

#[test]
fn unknown_column_fails_at_configuration() {
    let mut meta = ConstraintSystem::new(2);
    let x = meta.private_column();
    let y = Column { kind: Kind::Fixed, index: 0 };
    let poly = Expr::Mul(q(x, 0), q(y, 0));
    assert_eq!(meta.add_gate("g".to_string(), poly), Err(ConfigError::UnknownColumn));
    let z = Column { kind: Kind::Public, index: 0 };
    assert_eq!(meta.add_gate("h".to_string(), Expr::Neg(q(z, 0))), Err(ConfigError::UnknownColumn));
}

#[test]
fn assign_errors() {
    let mut meta = ConstraintSystem::new(2);
    let x = meta.private_column();
    let f = meta.fixed_column();
    let p = meta.public_column();
    let mut table = Table::new(meta.finalize());
    assert_eq!(table.assign(p, 0, fe(1)), Err(AssignError::PublicColumn));
    assert_eq!(
        table.assign(Column { kind: Kind::Private, index: 1 }, 0, fe(1)),
        Err(AssignError::UnknownColumn)
    );
    assert_eq!(table.assign(x, 2, fe(1)), Err(AssignError::RowOutOfRange));
    assert_eq!(table.assign(f, 1, fe(1)), Ok(()));
    assert_eq!(table.fixed, vec![None, Some(fe(1))]);
    assert_eq!(table.private, vec![None, None]);
}

#[test]
fn last_write_wins() {
    let mut meta = ConstraintSystem::new(1);
    let x = meta.private_column();
    assert_eq!(meta.add_gate("x is three".to_string(), Expr::Sub(q(x, 0), Box::new(Expr::Constant(fe(3))))), Ok(()));
    let mut table = Table::new(meta.finalize());
    table.assign(x, 0, fe(2)).unwrap();
    table.assign(x, 0, fe(3)).unwrap();
    assert_eq!(check(&table, &vec![]), Ok(Verdict::Satisfied));
}

#[test]
fn every_failure_is_reported_row_by_row() {
    let mut meta = ConstraintSystem::new(3);
    let x = meta.private_column();
    let p = meta.public_column();
    // Gate 0: x = public; gate 1: x = 0.
    assert_eq!(meta.add_gate("eq".to_string(), Expr::Sub(q(x, 0), q(p, 0))), Ok(()));
    assert_eq!(meta.add_gate("zero".to_string(), *q(x, 0)), Ok(()));
    let mut table = Table::new(meta.finalize());
    table.assign(x, 0, fe(0)).unwrap();
    table.assign(x, 1, fe(1)).unwrap();
    table.assign(x, 2, fe(2)).unwrap();
    let pubs = vec![vec![fe(0), fe(1), fe(3)]];
    let f = |gate: usize, name: &str, row: usize| Failure { gate, name: name.to_string(), row };
    assert_eq!(
        check(&table, &pubs),
        Ok(Verdict::Unsatisfied(vec![f(1, "zero", 1), f(0, "eq", 2), f(1, "zero", 2)]))
    );
    assert_eq!(
        check(&table, &vec![vec![fe(0), fe(1)]]),
        Err(CheckError::PublicInputLength { column: 0, expected: 3, found: 2 })
    );
}

#[test]
fn constant_gate_is_checked_on_every_row() {
    let mut meta = ConstraintSystem::new(2);
    assert_eq!(meta.add_gate("one".to_string(), Expr::Constant(fe(1))), Ok(()));
    let table = Table::new(meta.finalize());
    let f = |row: usize| Failure { gate: 0, name: "one".to_string(), row };
    assert_eq!(check(&table, &vec![]), Ok(Verdict::Unsatisfied(vec![f(0), f(1)])));
}
