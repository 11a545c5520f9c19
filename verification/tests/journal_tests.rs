use zk_harness::errors::HarnessError;
use zk_harness::journal::{
    decode_journal, encode_journal, journal_min_width, record_result, JournalRecord,
};
use zk_harness::kernels::{
    addition_journal, authenticated_add_journal, dynamic_journal, fibonacci, fixed_point_sqrt,
    integer_sqrt, modexp_journal, modular_exponentiation, modular_exponentiation_host,
    modular_multiply, newton_sqrt, range_journal, DynamicInput,
};
use zk_harness::ops::Operation;
use zk_harness::session::make_task_id;

#[test]
fn addition_scenario() {
    // Operation `add` with 2.5 and 4.25 at scale 100000: fixed inputs
    // 250000 and 425000, journal (250000, 425000, 675000), result 6.75.
    let journal = addition_journal(250_000, 425_000);
    assert_eq!(journal.len(), 24);
    let rec = decode_journal(Operation::Add, &journal).unwrap();
    assert_eq!(rec, JournalRecord::Binary { a: 250_000, b: 425_000, result: 675_000 });
    let d = zk_harness::fixed::from_fixed(675_000, 100_000);
    assert!(!d.negative);
    assert_eq!(d.mantissa, 675_000);
    assert_eq!(d.frac_digits, 5);
}

#[test]
fn modexp_scenario() {
    // 4^13 mod 497 = 445.
    assert_eq!(modular_exponentiation(4, 13, 497), 445);
    assert_eq!(modular_exponentiation_host(4, 13, 497), 445);
    let journal = modexp_journal(4, 13, 497);
    assert_eq!(journal.len(), 32);
    let rec = decode_journal(Operation::Modexp, &journal).unwrap();
    assert_eq!(rec, JournalRecord::ModExp { base: 4, exponent: 13, modulus: 497, result: 445 });
}

#[test]
fn range_scenario() {
    // secret = 7 in [1, 10]: all three flags set, bounds committed.
    let journal = range_journal(7, 1, 10);
    assert_eq!(journal.len(), 28);
    let rec = decode_journal(Operation::Range, &journal).unwrap();
    assert_eq!(
        rec,
        JournalRecord::RangeCheck {
            in_range: true,
            above_min: true,
            below_max: true,
            min: 1,
            max: 10,
        }
    );
}

#[test]
fn range_outside_bounds() {
    let journal = range_journal(11, 1, 10);
    let rec = decode_journal(Operation::Range, &journal).unwrap();
    assert_eq!(
        rec,
        JournalRecord::RangeCheck {
            in_range: false,
            above_min: true,
            below_max: false,
            min: 1,
            max: 10,
        }
    );
}

#[test]
fn journal_round_trips_every_family() {
    let records = vec![
        (Operation::Add, JournalRecord::Binary { a: -7, b: 9, result: 2 }),
        (Operation::Multiply, JournalRecord::Binary { a: 20_000, b: 30_000, result: 60_000 }),
        (Operation::Sqrt, JournalRecord::Unary { input: 40_000, result: 20_000 }),
        (
            Operation::Modexp,
            JournalRecord::ModExp { base: 2, exponent: 10, modulus: 1_000, result: 24 },
        ),
        (
            Operation::Range,
            JournalRecord::RangeCheck {
                in_range: false,
                above_min: false,
                below_max: true,
                min: 5,
                max: 6,
            },
        ),
        (
            Operation::AuthenticatedAdd,
            JournalRecord::Authenticated {
                a: 5,
                b: 7,
                result: 12,
                timestamp: 1_700_000_000,
                task_id: String::from("auth_1700000000_5_7_key1"),
            },
        ),
        (Operation::Dynamic, JournalRecord::Single { result: -6 }),
        (Operation::Precompiled, JournalRecord::Single { result: 55 }),
    ];
    for (op, rec) in records {
        let bytes = encode_journal(&rec);
        let back = decode_journal(op, &bytes).unwrap();
        assert_eq!(back, rec);
    }
}

#[test]
fn truncated_journals_rejected() {
    let ops = [
        Operation::Add,
        Operation::Multiply,
        Operation::Sqrt,
        Operation::Modexp,
        Operation::Range,
        Operation::AuthenticatedAdd,
        Operation::Dynamic,
        Operation::Precompiled,
    ];
    for op in ops {
        let min = journal_min_width(op);
        let short = vec![0u8; min - 1];
        match decode_journal(op, &short) {
            Err(HarnessError::TruncatedJournal { expected, actual }) => {
                assert_eq!(expected, min as u64);
                assert_eq!(actual, (min - 1) as u64);
            }
            other => panic!("expected a truncation error, got {:?}", other),
        }
        assert!(decode_journal(op, &Vec::new()).is_err());
    }
}

#[test]
fn truncated_task_identifier_rejected() {
    // A full authenticated record, cut inside the task identifier.
    let rec = JournalRecord::Authenticated {
        a: 1,
        b: 2,
        result: 3,
        timestamp: 4,
        task_id: String::from("auth_4_1_2_key"),
    };
    let bytes = encode_journal(&rec);
    let cut = bytes[..bytes.len() - 4].to_vec();
    match decode_journal(Operation::AuthenticatedAdd, &cut) {
        Err(HarnessError::TruncatedJournal { expected, actual }) => {
            assert_eq!(expected, bytes.len() as u64);
            assert_eq!(actual, cut.len() as u64);
        }
        other => panic!("expected a truncation error, got {:?}", other),
    }
}

#[test]
fn authenticated_journal_carries_task_metadata() {
    let task = make_task_id(1_700_000_000, 5, 7, "key1");
    assert_eq!(task.as_str(), "auth_1700000000_5_7_key1");
    let journal = authenticated_add_journal(5, 7, 1_700_000_000, task.as_str());
    let rec = decode_journal(Operation::AuthenticatedAdd, &journal).unwrap();
    match rec {
        JournalRecord::Authenticated { a, b, result, timestamp, task_id } => {
            assert_eq!((a, b, result, timestamp), (5, 7, 12, 1_700_000_000));
            assert_eq!(task_id.as_str(), "auth_1700000000_5_7_key1");
        }
        other => panic!("expected an authenticated record, got {:?}", other),
    }
}

#[test]
fn task_identifiers_may_hold_any_text() {
    // A key reference outside ASCII flows through task id, journal and
    // decoder unchanged.
    let task = make_task_id(7, 1, 2, "clé-café");
    assert_eq!(task.as_str(), "auth_7_1_2_clé-café");
    let journal = authenticated_add_journal(1, 2, 7, task.as_str());
    match decode_journal(Operation::AuthenticatedAdd, &journal).unwrap() {
        JournalRecord::Authenticated { task_id, .. } => {
            assert_eq!(task_id.as_str(), "auth_7_1_2_clé-café");
        }
        other => panic!("expected an authenticated record, got {:?}", other),
    }
    // Bytes that are not text in the task field are rejected, not guessed.
    let mut broken = journal.clone();
    broken[36] = 0xFF;
    assert!(matches!(
        decode_journal(Operation::AuthenticatedAdd, &broken),
        Err(HarnessError::InvalidArgument { position: 4 })
    ));
}

#[test]
fn dynamic_journal_commits_fibonacci() {
    let (journal, result) = dynamic_journal(DynamicInput::NumberField(10));
    assert_eq!(result, 55);
    assert_eq!(journal.len(), 8);
    let rec = decode_journal(Operation::Dynamic, &journal).unwrap();
    assert_eq!(rec, JournalRecord::Single { result: 55 });
    assert_eq!(dynamic_journal(DynamicInput::Malformed).1, -6);
    assert_eq!(dynamic_journal(DynamicInput::EmptyArray).1, -4);
    assert_eq!(dynamic_journal(DynamicInput::OtherShape).1, -5);
    assert_eq!(dynamic_journal(DynamicInput::NumberFieldNotNumber).1, -2);
    assert_eq!(dynamic_journal(DynamicInput::ArrayHeadNotNumber).1, -3);
    assert_eq!(dynamic_journal(DynamicInput::BareNumber(7)).1, 13);
}

#[test]
fn record_results_read_the_computed_field() {
    assert_eq!(record_result(&JournalRecord::Binary { a: 1, b: 2, result: 3 }), 3);
    assert_eq!(
        record_result(&JournalRecord::RangeCheck {
            in_range: true,
            above_min: true,
            below_max: true,
            min: 0,
            max: 9,
        }),
        1
    );
    assert_eq!(record_result(&JournalRecord::Single { result: -6 }), -6);
}

#[test]
fn fibonacci_values() {
    assert_eq!(fibonacci(-3), 0);
    assert_eq!(fibonacci(0), 0);
    assert_eq!(fibonacci(1), 1);
    assert_eq!(fibonacci(10), 55);
    assert_eq!(fibonacci(92), 7_540_113_804_746_346_429);
}

#[test]
fn modular_arithmetic_edges() {
    assert_eq!(modular_exponentiation(5, 3, 0), 0);
    assert_eq!(modular_exponentiation(5, 3, 1), 0);
    assert_eq!(modular_exponentiation(5, 0, 7), 1);
    assert_eq!(modular_exponentiation(14, 3, 7), 0);
    assert_eq!(modular_multiply(u64::MAX, u64::MAX, 97), (((u64::MAX as u128) % 97).pow(2) % 97) as u64);
}

#[test]
fn square_roots() {
    assert_eq!(integer_sqrt(0), 0);
    assert_eq!(integer_sqrt(3), 1);
    assert_eq!(integer_sqrt(16), 4);
    assert_eq!(integer_sqrt(17), 4);
    assert_eq!(integer_sqrt(u32::MAX), 65_535);
    // sqrt(4.0) = 2.0 at four decimal places.
    assert_eq!(fixed_point_sqrt(40_000), 20_000);
    assert_eq!(fixed_point_sqrt(-5), 0);
    // sqrt(0.01) = 0.1 via the Newton fallback.
    assert_eq!(fixed_point_sqrt(100), 1_000);
    assert_eq!(newton_sqrt(100), 1_000);
    let (journal, result) = zk_harness::kernels::sqrt_journal(40_000);
    assert_eq!(result, 20_000);
    let rec = decode_journal(Operation::Sqrt, &journal).unwrap();
    assert_eq!(rec, JournalRecord::Unary { input: 40_000, result: 20_000 });
}
