use tablestore::{ExtendedRowKeyValue, KeyOrder};
use tablestore::types::rowkey::compare_values;

#[test]
fn rowkeyvalue_order_infmin() {
    let xs: Vec<ExtendedRowKeyValue> = vec![
        ExtendedRowKeyValue::Int(0),
        ExtendedRowKeyValue::Str("".to_string()),
        ExtendedRowKeyValue::Blob(Vec::new()),
        ExtendedRowKeyValue::InfMax,
    ];
    let trial = ExtendedRowKeyValue::InfMin;
    for x in xs.iter() {
        assert!(&trial < x, "lefthand: {:?} righthand: {:?}", trial, x);
    }
    for x in xs.iter() {
        assert!(x > &trial, "lefthand: {:?} righthand: {:?}", x, trial);
    }
}

#[test]
fn rowkeyvalue_order_infmax() {
    let xs: Vec<ExtendedRowKeyValue> = vec![
        ExtendedRowKeyValue::Int(0),
        ExtendedRowKeyValue::Str("".to_string()),
        ExtendedRowKeyValue::Blob(Vec::new()),
        ExtendedRowKeyValue::InfMin,
    ];
    let trial = ExtendedRowKeyValue::InfMax;
    for x in xs.iter() {
        assert!(&trial > x, "lefthand: {:?} righthand: {:?}", trial, x);
    }
    for x in xs.iter() {
        assert!(x < &trial, "lefthand: {:?} righthand: {:?}", x, trial);
    }
}

#[test]
fn same_variant_order_agrees_with_primitives() {
    let a = ExtendedRowKeyValue::Int(-5);
    let b = ExtendedRowKeyValue::Int(7);
    assert_eq!(compare_values(&a, &b), KeyOrder::Less);
    assert_eq!(compare_values(&b, &a), KeyOrder::Greater);
    assert_eq!(compare_values(&a, &a), KeyOrder::Equal);

    let s1 = ExtendedRowKeyValue::Str("abc".to_string());
    let s2 = ExtendedRowKeyValue::Str("abd".to_string());
    let s3 = ExtendedRowKeyValue::Str("ab".to_string());
    assert_eq!(compare_values(&s1, &s2), KeyOrder::Less);
    assert_eq!(compare_values(&s2, &s1), KeyOrder::Greater);
    assert_eq!(compare_values(&s3, &s1), KeyOrder::Less);
    assert_eq!(compare_values(&s1, &s1), KeyOrder::Equal);

    let b1 = ExtendedRowKeyValue::Blob(vec![1u8, 2, 3]);
    let b2 = ExtendedRowKeyValue::Blob(vec![1u8, 2, 4]);
    assert_eq!(compare_values(&b1, &b2), KeyOrder::Less);
    assert_eq!(compare_values(&b2, &b1), KeyOrder::Greater);
    assert_eq!(compare_values(&b1, &b1), KeyOrder::Equal);
}

#[test]
fn auto_increment_is_incomparable_with_everything() {
    let auto = ExtendedRowKeyValue::AutoIncr;
    let others = vec![
        ExtendedRowKeyValue::Int(0),
        ExtendedRowKeyValue::Str("x".to_string()),
        ExtendedRowKeyValue::Blob(vec![9u8]),
        ExtendedRowKeyValue::InfMin,
        ExtendedRowKeyValue::InfMax,
        ExtendedRowKeyValue::AutoIncr,
    ];
    for x in others.iter() {
        assert_eq!(compare_values(&auto, x), KeyOrder::Incomparable);
        assert_eq!(compare_values(x, &auto), KeyOrder::Incomparable);
    }
    assert_eq!(
        compare_values(&ExtendedRowKeyValue::InfMin, &ExtendedRowKeyValue::InfMin),
        KeyOrder::Incomparable
    );
    assert_eq!(
        compare_values(&ExtendedRowKeyValue::InfMax, &ExtendedRowKeyValue::InfMax),
        KeyOrder::Incomparable
    );
}
