use tablestore::plainbuffer::{Tag, VariantType, issue_error, HEADER};
use tablestore::{
    Name, DateTime, Endpoint, Credential, ErrorCode, SettableValue, TableOptions, CapacityUnit,
    PutRowRequest, Row, RowKey,
};

#[test]
fn header_magic() {
    assert_eq!(HEADER, 0x75);
}

#[test]
fn tags_round_trip_through_their_bytes() {
    let tags = vec![
        Tag::Nil,
        Tag::RowKey,
        Tag::RowData,
        Tag::Cell,
        Tag::CellName,
        Tag::CellValue,
        Tag::CellType,
        Tag::CellTimestamp,
        Tag::RowDeleteMarker,
        Tag::RowChecksum,
        Tag::CellChecksum,
    ];
    for t in tags {
        assert_eq!(Tag::from_byte(t.as_byte()).unwrap(), t);
    }
    assert_eq!(Tag::Cell.as_byte(), 0x3);
    assert_eq!(Tag::RowChecksum.as_byte(), 0x9);
    assert!(Tag::from_byte(0x0B).is_err());
}

#[test]
fn variant_types_round_trip_through_their_bytes() {
    let vts = vec![
        VariantType::Integer,
        VariantType::Double,
        VariantType::Boolean,
        VariantType::String,
        VariantType::Null,
        VariantType::Blob,
        VariantType::InfMin,
        VariantType::InfMax,
        VariantType::AutoIncrement,
    ];
    for v in vts {
        assert_eq!(VariantType::from_byte(v.as_byte()).unwrap(), v);
    }
    assert_eq!(VariantType::InfMin.as_byte(), 0x9);
    assert_eq!(VariantType::Blob.as_byte(), 0x7);
    assert!(VariantType::from_byte(0x4).is_err());
    assert!(VariantType::from_byte(0x5).is_err());
}

#[test]
fn issue_error_is_the_corruption_error() {
    let r: Result<(), tablestore::Error> = issue_error();
    assert!(matches!(r.unwrap_err().code, ErrorCode::CorruptedResponse));
}

#[test]
fn name_rejects_the_empty_string() {
    let e = Name::new(String::new()).unwrap_err();
    assert!(matches!(e.code, ErrorCode::ClientUnknown));
    let n = Name::new("ok".to_string()).unwrap();
    assert_eq!(n.as_str(), "ok");
}

#[test]
fn put_row_request_requires_a_table_name() {
    let row = Row { row_key: RowKey(vec![]), attrs: vec![] };
    assert!(PutRowRequest::new(String::new(), row.clone()).is_err());
    let ok = PutRowRequest::new("t".to_string(), row).unwrap();
    assert_eq!(ok.table_name.as_str(), "t");
}

#[test]
fn datetime_keeps_its_milliseconds() {
    let t = DateTime::from_millis(123456789);
    assert_eq!(t.to_millis(), 123456789);
    let n = DateTime::from_millis(-5);
    assert_eq!(n.to_millis(), -5);
}

#[test]
fn endpoint_and_credential_hold_their_parts() {
    let ep = Endpoint::new("http://localhost:80".to_string(), "inst".to_string()).unwrap();
    assert_eq!(&ep.address, "http://localhost:80");
    assert_eq!(&ep.instance, "inst");
    let cred = Credential::new("id".to_string(), "secret".to_string()).unwrap();
    assert_eq!(cred.id, b"id".to_vec());
    assert_eq!(cred.secret, b"secret".to_vec());
    assert!(cred.token.is_none());
}

#[test]
fn table_options_defaults() {
    let c = TableOptions::default_for_create();
    assert_eq!(c.time_to_live_secs, SettableValue::Default);
    assert_eq!(c.max_versions, SettableValue::Default);
    let u = TableOptions::default_for_update();
    assert_eq!(u.time_to_live_secs, SettableValue::NoChange);
    assert_eq!(u.capacity_unit, CapacityUnit::default_for_update());
}
