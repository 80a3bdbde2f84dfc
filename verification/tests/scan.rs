use tablestore::types::get_range::{scan_forward, scan_step, parse_get_range_body, ScanStep};
use tablestore::types::list_table::parse_list_table_body;
use tablestore::plainbuffer::serde::{encode_rows, encode_ext_key};
use tablestore::{
    ExtendedRowKey, ExtendedRowKeyColumn, ExtendedRowKeyValue, Row, RowKey, RowKeyColumn,
    RowKeyValue, Name, Attribute, AttrValue, AttrTimestamp,
};

fn name(s: &str) -> Name {
    Name::new(s.to_string()).unwrap()
}

fn whole_table_bounds() -> (ExtendedRowKey, ExtendedRowKey) {
    let names = vec![name("id")];
    let start = ExtendedRowKey::fill_with_infmin(&names, vec![]).unwrap();
    let end = ExtendedRowKey::fill_with_infmax(&names, vec![]).unwrap();
    (start, end)
}

#[test]
fn fill_with_pads_the_schema() {
    let names = vec![name("a"), name("b"), name("c")];
    let prefix = vec![RowKeyValue::Str("x".to_string())];
    let k = ExtendedRowKey::fill_with_infmin(&names, prefix).unwrap();
    assert_eq!(k.0.len(), 3);
    assert_eq!(k.0[0].value, ExtendedRowKeyValue::Str("x".to_string()));
    assert_eq!(k.0[1].value, ExtendedRowKeyValue::InfMin);
    assert_eq!(k.0[2].value, ExtendedRowKeyValue::InfMin);
    assert_eq!(k.0[1].name, name("b"));
}

#[test]
fn fill_with_rejects_long_prefix() {
    let names = vec![name("a")];
    let prefix = vec![RowKeyValue::Int(1), RowKeyValue::Int(2)];
    assert!(ExtendedRowKey::fill_with_infmin(&names, prefix).is_err());
}

#[test]
fn whole_table_scan_is_forward() {
    let (start, end) = whole_table_bounds();
    assert!(scan_forward(&start, &end));
    assert!(!scan_forward(&end, &start));
}

#[test]
fn scan_stops_without_continuation() {
    let (_, end) = whole_table_bounds();
    assert!(matches!(scan_step(&end, true, None), ScanStep::Done));
}

#[test]
fn scan_continues_before_the_end_and_stops_at_it() {
    let (_, end) = whole_table_bounds();
    let mid = ExtendedRowKey(vec![
        ExtendedRowKeyColumn { name: name("id"), value: ExtendedRowKeyValue::Str("m".to_string()) },
    ]);
    match scan_step(&end, true, Some(mid.clone())) {
        ScanStep::Continue(k) => assert_eq!(k, mid),
        ScanStep::Done => panic!("the scan should continue before the end"),
    }
    // A continuation at or past the exclusive end stops the scan.
    assert!(matches!(scan_step(&mid, true, Some(mid.clone())), ScanStep::Done));
    let past = ExtendedRowKey(vec![
        ExtendedRowKeyColumn { name: name("id"), value: ExtendedRowKeyValue::Str("z".to_string()) },
    ]);
    assert!(matches!(scan_step(&mid, true, Some(past)), ScanStep::Done));
}

#[test]
fn backward_scan_stops_at_or_below_the_end() {
    let low = ExtendedRowKey(vec![
        ExtendedRowKeyColumn { name: name("id"), value: ExtendedRowKeyValue::Str("a".to_string()) },
    ]);
    let mid = ExtendedRowKey(vec![
        ExtendedRowKeyColumn { name: name("id"), value: ExtendedRowKeyValue::Str("m".to_string()) },
    ]);
    match scan_step(&low, false, Some(mid.clone())) {
        ScanStep::Continue(k) => assert_eq!(k, mid),
        ScanStep::Done => panic!("the backward scan should continue above the end"),
    }
    assert!(matches!(scan_step(&mid, false, Some(low)), ScanStep::Done));
}

#[test]
fn full_table_scan_response_round_trip() {
    // A put row followed by a whole-table scan response carrying exactly
    // that row, as the service would answer it.
    let row = Row {
        row_key: RowKey(vec![
            RowKeyColumn { name: name("id"), value: RowKeyValue::Str("x".to_string()) },
        ]),
        attrs: vec![
            Attribute {
                name: name("n"),
                value: AttrValue::Int(1),
                timestamp: AttrTimestamp::ServerAttach,
            },
        ],
    };
    let rows_bytes = encode_rows(&vec![row.clone()]);
    // protobuf envelope: field 2 carries the row bytes, no continuation.
    let mut body: Vec<u8> = Vec::new();
    body.push(0x12);
    assert!(rows_bytes.len() < 128);
    body.push(rows_bytes.len() as u8);
    body.extend_from_slice(&rows_bytes);
    let resp = parse_get_range_body(&body).unwrap();
    assert_eq!(resp.rows, vec![row]);
    assert!(resp.next_row_key.is_none());
}

#[test]
fn get_range_response_with_continuation() {
    let rows_bytes = encode_rows(&Vec::<Row>::new());
    let key = ExtendedRowKey(vec![
        ExtendedRowKeyColumn { name: name("id"), value: ExtendedRowKeyValue::Str("k".to_string()) },
    ]);
    let key_bytes = encode_ext_key(&key);
    let mut body: Vec<u8> = Vec::new();
    body.push(0x12);
    body.push(rows_bytes.len() as u8);
    body.extend_from_slice(&rows_bytes);
    body.push(0x1A);
    body.push(key_bytes.len() as u8);
    body.extend_from_slice(&key_bytes);
    let resp = parse_get_range_body(&body).unwrap();
    assert!(resp.rows.is_empty());
    assert_eq!(resp.next_row_key.unwrap(), key);
}

#[test]
fn corrupt_get_range_payload_is_rejected_whole() {
    // A row-bytes field whose content is not a valid row buffer.
    let mut body: Vec<u8> = Vec::new();
    body.push(0x12);
    body.push(3);
    body.extend_from_slice(&[0x75, 0x00, 0x00]);
    let r = parse_get_range_body(&body);
    assert!(r.is_err());
}

#[test]
fn list_table_response_names() {
    // Two field-1 strings and one unknown varint field to be skipped.
    let mut body: Vec<u8> = Vec::new();
    body.push(0x0A);
    body.push(1);
    body.push(b'T');
    body.push(0x20);
    body.push(0x05);
    body.push(0x0A);
    body.push(2);
    body.extend_from_slice(b"U2");
    let resp = parse_list_table_body(&body).unwrap();
    assert_eq!(resp.tables, vec![name("T"), name("U2")]);
}
