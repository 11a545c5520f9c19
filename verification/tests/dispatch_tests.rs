use zk_harness::dispatch::{dispatch, ArgValue};
use zk_harness::errors::HarnessError;
use zk_harness::fixed::Decimal;
use zk_harness::ops::{arg_schema, arity, operation_for_name, resolve_operation, ArgKind, Operation};
use zk_harness::provision::ImageRef;
use zk_harness::session::{encode_session_prefix, split_session_prefix};

fn dec(mantissa: u64, frac_digits: u64) -> ArgValue {
    ArgValue::Dec(Decimal { negative: false, mantissa, frac_digits })
}

#[test]
fn operation_names_resolve() {
    assert_eq!(operation_for_name("add"), Some(Operation::Add));
    assert_eq!(operation_for_name("multiply"), Some(Operation::Multiply));
    assert_eq!(operation_for_name("sqrt"), Some(Operation::Sqrt));
    assert_eq!(operation_for_name("modexp"), Some(Operation::Modexp));
    assert_eq!(operation_for_name("range"), Some(Operation::Range));
    assert_eq!(operation_for_name("authenticated_add"), Some(Operation::AuthenticatedAdd));
    assert_eq!(operation_for_name("dynamic"), Some(Operation::Dynamic));
    assert_eq!(operation_for_name("precompiled"), Some(Operation::Precompiled));
    assert_eq!(operation_for_name("divide"), None);
    assert!(matches!(resolve_operation("modexp"), Ok(Operation::Modexp)));
    assert!(matches!(resolve_operation("divide"), Err(HarnessError::UnknownOperation)));
}

#[test]
fn schemas_have_one_kind_per_position() {
    for op in [
        Operation::Add,
        Operation::Multiply,
        Operation::Sqrt,
        Operation::Modexp,
        Operation::Range,
        Operation::AuthenticatedAdd,
        Operation::Dynamic,
        Operation::Precompiled,
    ] {
        assert_eq!(arg_schema(op).len(), arity(op));
    }
    assert_eq!(arg_schema(Operation::Add), vec![ArgKind::Decimal, ArgKind::Decimal]);
    assert_eq!(
        arg_schema(Operation::AuthenticatedAdd),
        vec![ArgKind::Signed, ArgKind::Signed, ArgKind::Text]
    );
    assert_eq!(arg_schema(Operation::Dynamic), vec![ArgKind::Text, ArgKind::Json]);
}

#[test]
fn arity_enforced_before_anything_else() {
    // Too few and too many arguments always fail with ArityMismatch.
    for (op, n) in [
        (Operation::Add, 2),
        (Operation::Multiply, 2),
        (Operation::Sqrt, 1),
        (Operation::Modexp, 3),
        (Operation::Range, 3),
        (Operation::AuthenticatedAdd, 3),
        (Operation::Dynamic, 2),
        (Operation::Precompiled, 2),
    ] {
        assert_eq!(arity(op), n);
        let too_few: Vec<ArgValue> = (0..n - 1).map(|_| ArgValue::UInt(1)).collect();
        match dispatch(op, &too_few, 0) {
            Err(HarnessError::ArityMismatch { expected, actual }) => {
                assert_eq!(expected, n);
                assert_eq!(actual, n - 1);
            }
            other => panic!("expected an arity error, got {:?}", other.map(|_| ())),
        }
        let too_many: Vec<ArgValue> = (0..n + 1).map(|_| ArgValue::UInt(1)).collect();
        assert!(matches!(
            dispatch(op, &too_many, 0),
            Err(HarnessError::ArityMismatch { .. })
        ));
    }
}

#[test]
fn add_dispatch_builds_fixed_point_payload() {
    let args = vec![dec(25, 1), dec(425, 2)];
    let plan = dispatch(Operation::Add, &args, 0).unwrap();
    let mut expected = 250_000i64.to_le_bytes().to_vec();
    expected.extend_from_slice(&425_000i64.to_le_bytes());
    assert_eq!(plan.payload, expected);
    assert!(matches!(plan.image, ImageRef::Builtin(Operation::Add)));
}

#[test]
fn multiply_family_shares_one_scale() {
    // 2.5 * 4.0 at the multiply family's scale of four decimal places:
    // operands 25000 and 40000, rescaled product 100000, decimal 10.0.
    assert_eq!(zk_harness::ops::scale_for(Operation::Multiply), 10_000);
    let args = vec![dec(25, 1), dec(4, 0)];
    let plan = dispatch(Operation::Multiply, &args, 0).unwrap();
    let mut expected = 25_000i64.to_le_bytes().to_vec();
    expected.extend_from_slice(&40_000i64.to_le_bytes());
    assert_eq!(plan.payload, expected);
    let journal = zk_harness::kernels::multiply_journal(25_000, 40_000);
    let rec = zk_harness::journal::decode_journal(Operation::Multiply, &journal).unwrap();
    assert_eq!(
        rec,
        zk_harness::journal::JournalRecord::Binary { a: 25_000, b: 40_000, result: 100_000 }
    );
    let d = zk_harness::dispatch::result_decimal(Operation::Multiply, 100_000);
    assert!(!d.negative);
    assert_eq!(d.mantissa, 100_000);
    assert_eq!(d.frac_digits, 4);
}

#[test]
fn sqrt_family_shares_one_scale() {
    // sqrt(4.0) at four decimal places: operand 40000, root 20000 = 2.0.
    assert_eq!(zk_harness::ops::scale_for(Operation::Sqrt), 10_000);
    let args = vec![dec(4, 0)];
    let plan = dispatch(Operation::Sqrt, &args, 0).unwrap();
    assert_eq!(plan.payload, 40_000i64.to_le_bytes().to_vec());
    let (journal, root) = zk_harness::kernels::sqrt_journal(40_000);
    assert_eq!(root, 20_000);
    let rec = zk_harness::journal::decode_journal(Operation::Sqrt, &journal).unwrap();
    assert_eq!(rec, zk_harness::journal::JournalRecord::Unary { input: 40_000, result: 20_000 });
    let d = zk_harness::dispatch::result_decimal(Operation::Sqrt, 20_000);
    assert_eq!((d.negative, d.mantissa, d.frac_digits), (false, 20_000, 4));
}

#[test]
fn addition_family_keeps_its_five_place_scale() {
    assert_eq!(zk_harness::ops::scale_for(Operation::Add), 100_000);
    let d = zk_harness::dispatch::result_decimal(Operation::Add, 675_000);
    assert_eq!((d.negative, d.mantissa, d.frac_digits), (false, 675_000, 5));
}

#[test]
fn modexp_dispatch_builds_unsigned_payload() {
    let args = vec![ArgValue::UInt(4), ArgValue::UInt(13), ArgValue::UInt(497)];
    let plan = dispatch(Operation::Modexp, &args, 0).unwrap();
    let mut expected = 4u64.to_le_bytes().to_vec();
    expected.extend_from_slice(&13u64.to_le_bytes());
    expected.extend_from_slice(&497u64.to_le_bytes());
    assert_eq!(plan.payload, expected);
}

#[test]
fn wrong_kind_rejected_at_position() {
    let args = vec![ArgValue::Int(4), ArgValue::UInt(13), ArgValue::UInt(497)];
    assert!(matches!(
        dispatch(Operation::Modexp, &args, 0),
        Err(HarnessError::InvalidArgument { position: 0 })
    ));
    let args = vec![ArgValue::UInt(4), dec(1, 0), ArgValue::UInt(497)];
    assert!(matches!(
        dispatch(Operation::Modexp, &args, 0),
        Err(HarnessError::InvalidArgument { position: 1 })
    ));
}

#[test]
fn authenticated_dispatch_binds_task_metadata() {
    let args = vec![
        ArgValue::Int(5),
        ArgValue::Int(7),
        ArgValue::Text(String::from("key1")),
    ];
    let plan = dispatch(Operation::AuthenticatedAdd, &args, 1_700_000_000).unwrap();
    // a, b, timestamp, then the length-prefixed task identifier.
    let task = "auth_1700000000_5_7_key1";
    let mut expected = 5i64.to_le_bytes().to_vec();
    expected.extend_from_slice(&7i64.to_le_bytes());
    expected.extend_from_slice(&1_700_000_000u64.to_le_bytes());
    expected.extend_from_slice(&(task.len() as u32).to_le_bytes());
    expected.extend_from_slice(task.as_bytes());
    while expected.len() % 4 != 0 {
        expected.push(0);
    }
    assert_eq!(plan.payload, expected);
}

#[test]
fn dynamic_dispatch_validates_json() {
    let source = ArgValue::Text(String::from("fn main() {}"));
    let good = vec![source.clone(), ArgValue::Text(String::from("{\"n\": 10}"))];
    let plan = dispatch(Operation::Dynamic, &good, 0).unwrap();
    let mut expected = 9u32.to_le_bytes().to_vec();
    expected.extend_from_slice(b"{\"n\": 10}");
    while expected.len() % 4 != 0 {
        expected.push(0);
    }
    assert_eq!(plan.payload, expected);
    match plan.image {
        ImageRef::DynamicSource(src) => assert_eq!(src.as_str(), "fn main() {}"),
        other => panic!("expected a dynamic source image, got {:?}", other),
    }
    let bad = vec![source, ArgValue::Text(String::from("not json at all"))];
    assert!(matches!(
        dispatch(Operation::Dynamic, &bad, 0),
        Err(HarnessError::InvalidArgument { position: 1 })
    ));
}

#[test]
fn precompiled_dispatch_carries_binary() {
    let args = vec![
        ArgValue::Blob(vec![1, 2, 3]),
        ArgValue::Text(String::from("[10]")),
    ];
    let plan = dispatch(Operation::Precompiled, &args, 0).unwrap();
    match plan.image {
        ImageRef::PrecompiledBinary(bytes) => assert_eq!(bytes, vec![1, 2, 3]),
        other => panic!("expected a precompiled image, got {:?}", other),
    }
}

#[test]
fn plan_invocation_resolves_names() {
    let args = vec![ArgValue::UInt(4), ArgValue::UInt(13), ArgValue::UInt(497)];
    let plan = zk_harness::dispatch::plan_invocation("modexp", &args, 0).unwrap();
    assert!(matches!(plan.image, ImageRef::Builtin(Operation::Modexp)));
    assert!(matches!(
        zk_harness::dispatch::plan_invocation("divide", &args, 0),
        Err(HarnessError::UnknownOperation)
    ));
}

#[test]
fn session_prefix_round_trip() {
    let id: Vec<u8> = (0u8..16).collect();
    let prefix = encode_session_prefix(&id, 0xDEAD_BEEF).unwrap();
    assert_eq!(prefix.len(), 24);
    let mut whole = prefix.clone();
    whole.extend_from_slice(&[9, 9, 9]);
    let (got_id, nonce, rest) = split_session_prefix(&whole).unwrap();
    assert_eq!(got_id, id);
    assert_eq!(nonce, 0xDEAD_BEEF);
    assert_eq!(rest, vec![9, 9, 9]);
}

#[test]
fn session_bound_journals_decode() {
    let id: Vec<u8> = vec![0xAA; 16];
    let journal = zk_harness::kernels::range_journal(7, 1, 10);
    let bound = zk_harness::session::bind_session(&id, 42, &journal).unwrap();
    assert_eq!(bound.len(), 24 + 28);
    let (got_id, nonce, rec) =
        zk_harness::session::decode_with_session(Operation::Range, &bound).unwrap();
    assert_eq!(got_id, id);
    assert_eq!(nonce, 42);
    assert!(matches!(
        rec,
        zk_harness::journal::JournalRecord::RangeCheck { in_range: true, .. }
    ));
    assert!(matches!(
        zk_harness::session::bind_session(&vec![1u8; 3], 42, &journal),
        Err(HarnessError::InvalidSessionId { actual: 3 })
    ));
}

#[test]
fn session_id_length_enforced() {
    let short: Vec<u8> = vec![1; 15];
    assert!(matches!(
        encode_session_prefix(&short, 1),
        Err(HarnessError::InvalidSessionId { actual: 15 })
    ));
    let long: Vec<u8> = vec![1; 17];
    assert!(matches!(
        encode_session_prefix(&long, 1),
        Err(HarnessError::InvalidSessionId { actual: 17 })
    ));
    let stub: Vec<u8> = vec![0; 23];
    assert!(matches!(
        split_session_prefix(&stub),
        Err(HarnessError::TruncatedJournal { expected: 24, actual: 23 })
    ));
}
