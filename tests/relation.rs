use plonk_checker::checker::{check, CheckError, Failure, Verdict};
use plonk_checker::circuit::{Column, ConfigError, ConstraintSystem, Kind};
use plonk_checker::felt::Felt;
use plonk_checker::plonk::{
    create_universal_plonk_gate, SimpleRelation, StandardPlonkConfig, UNIVERSAL_GATE,
};
use plonk_checker::table::Table;

fn fe(n: u64) -> Felt {
    Felt::from_u64(n)
}

fn relation(a: u64, b: u64, c: u64) -> SimpleRelation {
    SimpleRelation { a: fe(a), b: fe(b), c: fe(c) }
}

/// A one-row table laid out for the relation, with every cell that the universal gate reads
/// assigned except, when `skip_left` is set, the left input.
fn laid_out(rel: &SimpleRelation, skip_left: bool) -> (StandardPlonkConfig, Table) {
    let mut meta = ConstraintSystem::new(1);
    let config = SimpleRelation::configure(&mut meta).unwrap();
    let mut table = Table::new(meta.finalize());
    if skip_left {
        table.assign(config.right_input, 0, fe(0)).unwrap();
        table.assign(config.output, 0, fe(0)).unwrap();
        table.assign(config.q_left, 0, fe(1)).unwrap();
        table.assign(config.q_right, 0, fe(0)).unwrap();
        table.assign(config.q_output, 0, fe(0)).unwrap();
        table.assign(config.q_product, 0, fe(0)).unwrap();
        table.assign(config.constant, 0, rel.c.neg()).unwrap();
    } else {
        rel.synthesize(config, &mut table).unwrap();
    }
    (config, table)
}

#[test]
fn scenario_a_satisfied() {
    let rel = relation(2, 3, 5);
    assert_eq!(rel.run(&vec![vec![rel.b]]), Ok(Verdict::Satisfied));
}

#[test]
fn scenario_b_one_failure_at_row_zero() {
    let rel = relation(2, 2, 5);
    let expected = Verdict::Unsatisfied(vec![Failure {
        gate: 0,
        name: UNIVERSAL_GATE.to_string(),
        row: 0,
    }]);
    assert_eq!(rel.run(&vec![vec![rel.b]]), Ok(expected));
}

#[test]
fn sums_that_hold_are_satisfied() {
    for (a, b) in [(0u64, 0u64), (1, 0), (0, 1), (7, 11), (u64::MAX, 1), (1 << 40, 1 << 41)] {
        let c = (a as u128 + b as u128) as u64;
        let rel = if (a as u128 + b as u128) > u64::MAX as u128 {
            SimpleRelation { a: fe(a), b: fe(b), c: fe(a).add(&fe(b)) }
        } else {
            relation(a, b, c)
        };
        assert_eq!(rel.run(&vec![vec![rel.b]]), Ok(Verdict::Satisfied), "a={} b={}", a, b);
    }
}

#[test]
fn sums_that_fail_are_reported() {
    for (a, b, c) in [(1u64, 1u64, 3u64), (0, 0, 1), (5, 0, 4), (100, 200, 301)] {
        let rel = relation(a, b, c);
        match rel.run(&vec![vec![rel.b]]) {
            Ok(Verdict::Unsatisfied(list)) => {
                assert_eq!(list.len(), 1);
                assert_eq!(list[0].gate, 0);
                assert_eq!(list[0].row, 0);
            }
            other => panic!("unexpected outcome {:?}", other),
        }
    }
}

#[test]
fn sum_wraps_around_the_modulus() {
    // (p - 1) + 1 = 0 in the field.
    let minus_one = fe(1).neg();
    let rel = SimpleRelation { a: minus_one, b: fe(1), c: fe(0) };
    assert_eq!(rel.run(&vec![vec![rel.b]]), Ok(Verdict::Satisfied));
    let rel = SimpleRelation { a: minus_one, b: fe(1), c: fe(1) };
    assert!(matches!(rel.run(&vec![vec![rel.b]]), Ok(Verdict::Unsatisfied(_))));
}

#[test]
fn the_public_value_is_the_one_supplied() {
    // The relation's own `b` does not enter: the check reads the public input.
    let rel = relation(2, 3, 5);
    assert!(matches!(rel.run(&vec![vec![fe(4)]]), Ok(Verdict::Unsatisfied(_))));
    let rel = relation(2, 9, 5);
    assert_eq!(rel.run(&vec![vec![fe(3)]]), Ok(Verdict::Satisfied));
}

#[test]
fn check_twice_gives_the_same_outcome() {
    for rel in [relation(2, 3, 5), relation(2, 2, 5)] {
        let (_, table) = laid_out(&rel, false);
        let pubs = vec![vec![rel.b]];
        let first = check(&table, &pubs);
        let second = check(&table, &pubs);
        assert_eq!(first, second);
    }
    let rel = relation(2, 3, 5);
    let (_, table) = laid_out(&rel, true);
    let pubs = vec![vec![rel.b]];
    assert_eq!(check(&table, &pubs), check(&table, &pubs));
}

#[test]
fn missing_public_value_is_a_usage_error() {
    let rel = relation(2, 3, 5);
    assert_eq!(
        rel.run(&vec![vec![]]),
        Err(CheckError::PublicInputLength { column: 0, expected: 1, found: 0 })
    );
    assert_eq!(
        rel.run(&vec![vec![rel.b, rel.b]]),
        Err(CheckError::PublicInputLength { column: 0, expected: 1, found: 2 })
    );
    assert_eq!(rel.run(&vec![]), Err(CheckError::PublicColumnCount { expected: 1, found: 0 }));
    assert_eq!(
        rel.run(&vec![vec![rel.b], vec![rel.b]]),
        Err(CheckError::PublicColumnCount { expected: 1, found: 2 })
    );
}

#[test]
fn unassigned_private_cell_is_fatal() {
    let rel = relation(0, 0, 0);
    let (config, table) = laid_out(&rel, true);
    assert_eq!(
        check(&table, &vec![vec![rel.b]]),
        Err(CheckError::Unassigned { column: config.left_input, row: 0 })
    );
}

#[test]
fn empty_table_reports_the_first_cell_read() {
    let mut meta = ConstraintSystem::new(1);
    let config = SimpleRelation::configure(&mut meta).unwrap();
    let table = Table::new(meta.finalize());
    assert_eq!(
        check(&table, &vec![vec![fe(0)]]),
        Err(CheckError::Unassigned { column: config.q_left, row: 0 })
    );
}

#[test]
fn public_length_is_checked_before_cells() {
    let mut meta = ConstraintSystem::new(1);
    SimpleRelation::configure(&mut meta).unwrap();
    let table = Table::new(meta.finalize());
    assert_eq!(
        check(&table, &vec![vec![]]),
        Err(CheckError::PublicInputLength { column: 0, expected: 1, found: 0 })
    );
}

#[test]
fn configure_refuses_a_table_without_rows() {
    let mut meta = ConstraintSystem::new(0);
    assert_eq!(SimpleRelation::configure(&mut meta), Err(ConfigError::OffsetOutOfRange));
    assert_eq!(meta.gates.len(), 0);
}

#[test]
fn config_allocates_columns_in_order() {
    let mut meta = ConstraintSystem::new(4);
    let config = StandardPlonkConfig::new(&mut meta);
    assert_eq!(config.left_input, Column { kind: Kind::Private, index: 0 });
    assert_eq!(config.right_input, Column { kind: Kind::Private, index: 1 });
    assert_eq!(config.output, Column { kind: Kind::Private, index: 2 });
    assert_eq!(config.q_left, Column { kind: Kind::Fixed, index: 0 });
    assert_eq!(config.q_right, Column { kind: Kind::Fixed, index: 1 });
    assert_eq!(config.q_output, Column { kind: Kind::Fixed, index: 2 });
    assert_eq!(config.q_product, Column { kind: Kind::Fixed, index: 3 });
    assert_eq!(config.constant, Column { kind: Kind::Fixed, index: 4 });
    assert_eq!(config.instance, Column { kind: Kind::Public, index: 0 });
    assert_eq!((meta.num_private, meta.num_fixed, meta.num_public), (3, 5, 1));
    assert_eq!(create_universal_plonk_gate(&mut meta, &config), Ok(()));
    assert_eq!(meta.gates.len(), 1);
    assert_eq!(meta.gates[0].name, UNIVERSAL_GATE);
}

#[test]
fn universal_gate_refuses_foreign_columns() {
    let mut other = ConstraintSystem::new(1);
    let config = StandardPlonkConfig::new(&mut other);
    let mut meta = ConstraintSystem::new(1);
    assert_eq!(create_universal_plonk_gate(&mut meta, &config), Err(ConfigError::UnknownColumn));
    assert_eq!(meta.gates.len(), 0);
}

#[test]
fn without_witnesses_is_all_zero() {
    let rel = relation(2, 3, 5).without_witnesses();
    assert_eq!(rel, relation(0, 0, 0));
}

#[test]
fn synthesize_fills_the_first_row() {
    let rel = relation(2, 3, 5);
    let (config, table) = laid_out(&rel, false);
    let n = table.shape.num_rows;
    assert_eq!(table.private[config.left_input.index * n], Some(fe(2)));
    assert_eq!(table.private[config.right_input.index * n], Some(fe(0)));
    assert_eq!(table.fixed[config.q_left.index * n], Some(fe(1)));
    assert_eq!(table.fixed[config.constant.index * n], Some(fe(5).neg()));
}
