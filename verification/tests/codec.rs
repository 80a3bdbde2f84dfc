use tablestore::plainbuffer::serde::{
    encode_row, decode_row, encode_rows, decode_rows, encode_ext_key, decode_ext_key,
};
use tablestore::{
    Row, RowKey, RowKeyColumn, RowKeyValue, ExtendedRowKey, ExtendedRowKeyColumn,
    ExtendedRowKeyValue, Attribute, AttrValue, AttrTimestamp, DateTime, Name,
};

fn name(s: &str) -> Name {
    Name::new(s.to_string()).unwrap()
}

fn sample_row() -> Row {
    Row {
        row_key: RowKey(vec![
            RowKeyColumn { name: name("id"), value: RowKeyValue::Str("x".to_string()) },
            RowKeyColumn { name: name("seq"), value: RowKeyValue::Int(-42) },
            RowKeyColumn { name: name("tag"), value: RowKeyValue::Blob(vec![0u8, 255, 7]) },
        ]),
        attrs: vec![
            Attribute {
                name: name("n"),
                value: AttrValue::Int(1),
                timestamp: AttrTimestamp::ServerAttach,
            },
            Attribute {
                name: name("s"),
                value: AttrValue::Str("héllo".to_string()),
                timestamp: AttrTimestamp::ClientAttach(DateTime::from_millis(1234567890123)),
            },
            Attribute {
                name: name("b"),
                value: AttrValue::Blob(vec![1u8, 2, 3]),
                timestamp: AttrTimestamp::ServerAttach,
            },
            Attribute {
                name: name("f"),
                value: AttrValue::Bool(true),
                timestamp: AttrTimestamp::ServerAttach,
            },
            Attribute {
                name: name("d"),
                value: AttrValue::Float(2.5f64.to_bits()),
                timestamp: AttrTimestamp::ServerAttach,
            },
        ],
    }
}

#[test]
fn row_round_trip() {
    let row = sample_row();
    let bytes = encode_row(&row);
    let back = decode_row(bytes.as_slice()).unwrap();
    assert_eq!(back, row);
}

#[test]
fn row_without_attrs_round_trip() {
    let row = Row {
        row_key: RowKey(vec![
            RowKeyColumn { name: name("id"), value: RowKeyValue::Int(7) },
        ]),
        attrs: vec![],
    };
    let bytes = encode_row(&row);
    let back = decode_row(bytes.as_slice()).unwrap();
    assert_eq!(back, row);
}

#[test]
fn row_batch_round_trip() {
    let rows = vec![
        Row {
            row_key: RowKey(vec![
                RowKeyColumn { name: name("id"), value: RowKeyValue::Str("a".to_string()) },
            ]),
            attrs: vec![
                Attribute {
                    name: name("v"),
                    value: AttrValue::Int(1),
                    timestamp: AttrTimestamp::ServerAttach,
                },
            ],
        },
        Row {
            row_key: RowKey(vec![
                RowKeyColumn { name: name("id"), value: RowKeyValue::Str("b".to_string()) },
            ]),
            attrs: vec![],
        },
    ];
    let bytes = encode_rows(&rows);
    let back = decode_rows(bytes.as_slice()).unwrap();
    assert_eq!(back, rows);
}

#[test]
fn ext_key_round_trip_with_sentinels() {
    let keys = vec![
        ExtendedRowKey(vec![
            ExtendedRowKeyColumn { name: name("a"), value: ExtendedRowKeyValue::InfMin },
        ]),
        ExtendedRowKey(vec![
            ExtendedRowKeyColumn { name: name("a"), value: ExtendedRowKeyValue::InfMax },
        ]),
        ExtendedRowKey(vec![
            ExtendedRowKeyColumn { name: name("a"), value: ExtendedRowKeyValue::AutoIncr },
        ]),
        ExtendedRowKey(vec![
            ExtendedRowKeyColumn {
                name: name("a"),
                value: ExtendedRowKeyValue::Str("k".to_string()),
            },
            ExtendedRowKeyColumn { name: name("b"), value: ExtendedRowKeyValue::Int(5) },
            ExtendedRowKeyColumn {
                name: name("c"),
                value: ExtendedRowKeyValue::Blob(vec![9u8, 8]),
            },
            ExtendedRowKeyColumn { name: name("d"), value: ExtendedRowKeyValue::InfMax },
        ]),
    ];
    for k in keys {
        let bytes = encode_ext_key(&k);
        let back = decode_ext_key(bytes.as_slice()).unwrap();
        assert_eq!(back, k);
    }
}

#[test]
fn ext_key_golden_bytes() {
    let k = ExtendedRowKey(vec![
        ExtendedRowKeyColumn { name: name("a"), value: ExtendedRowKeyValue::InfMin },
    ]);
    let bytes = encode_ext_key(&k);
    assert_eq!(
        bytes,
        vec![
            0x75u8, 0x00, 0x00, 0x00, // header
            0x01, // row-key tag
            0x03, // cell tag
            0x04, 0x01, 0x00, 0x00, 0x00, 0x61, // name "a"
            0x05, 0x01, 0x00, 0x00, 0x00, 0x09, // value InfMin
            0x0A, 0xDF, // cell checksum
        ]
    );
}

#[test]
fn corrupted_checksum_is_rejected() {
    let row = sample_row();
    let mut bytes = encode_row(&row);
    let last = bytes.len() - 1;
    bytes[last] ^= 0xFF;
    assert!(decode_row(bytes.as_slice()).is_err());
}

#[test]
fn truncated_input_is_rejected() {
    let row = sample_row();
    let bytes = encode_row(&row);
    for cut in 0..bytes.len() {
        assert!(decode_row(&bytes[..cut]).is_err(), "cut at {}", cut);
    }
}

#[test]
fn wrong_header_is_rejected() {
    let row = sample_row();
    let mut bytes = encode_row(&row);
    bytes[0] = 0x76;
    assert!(decode_row(bytes.as_slice()).is_err());
}

#[test]
fn sentinel_in_stored_row_is_rejected() {
    let k = ExtendedRowKey(vec![
        ExtendedRowKeyColumn { name: name("a"), value: ExtendedRowKeyValue::InfMin },
    ]);
    let mut bytes = encode_ext_key(&k);
    // Close the encoding as a row: no attribute block, the row checksum
    // folds the one cell's checksum byte and the zero placeholder.
    let cell_chk = bytes[bytes.len() - 1];
    let mut rc = 0u8;
    tablestore::crc8::crc8_u8(&mut rc, cell_chk);
    tablestore::crc8::crc8_u8(&mut rc, 0);
    bytes.push(0x09);
    bytes.push(rc);
    assert!(decode_row(bytes.as_slice()).is_err());
}

#[test]
fn key_conversions_round_trip() {
    let rk = RowKey(vec![
        RowKeyColumn { name: name("id"), value: RowKeyValue::Str("x".to_string()) },
    ]);
    let ext = rk.clone().into_extended();
    let back = ext.into_row_key().unwrap();
    assert_eq!(back, rk);
}

#[test]
fn sentinel_key_does_not_downgrade() {
    let ext = ExtendedRowKey(vec![
        ExtendedRowKeyColumn { name: name("a"), value: ExtendedRowKeyValue::Int(3) },
        ExtendedRowKeyColumn { name: name("b"), value: ExtendedRowKeyValue::AutoIncr },
    ]);
    assert!(ext.into_row_key().is_err());
}
