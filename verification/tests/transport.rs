use tablestore::transport::{
    content_md5, interpret_response, classify_status, StatusKind, build_signing_pairs,
    sign_request, request_date,
};
use tablestore::{ErrorCode, Name, Condition, RowExistenceExpectation, InReturn, TableMeta,
    PkeyColumnSchema, PkeyValueType, CreateTableRequest, DeleteTableRequest};

#[test]
fn content_md5_of_empty_body_is_the_known_digest() {
    assert_eq!(&content_md5(b""), "1B2M2Y8AsgTpgAmY7PhCfg==");
}

#[test]
fn body_md5_mismatch_fails_as_corrupted() {
    let body = b"genuine response".to_vec();
    let declared = Some(content_md5(b"something else"));
    let r = interpret_response(200, &declared, body);
    assert!(r.is_err());
    assert!(matches!(r.unwrap_err().code, ErrorCode::CorruptedResponse));
}

#[test]
fn matching_md5_and_success_status_hand_the_body_out() {
    let body = b"genuine response".to_vec();
    let declared = Some(content_md5(body.as_slice()));
    let r = interpret_response(200, &declared, body.clone());
    assert_eq!(r.unwrap(), body);
}

#[test]
fn middle_tier_failure_becomes_server_unavailable() {
    let body = b"bad gateway".to_vec();
    let r = interpret_response(502, &None, body);
    let e = r.unwrap_err();
    assert!(matches!(e.code, ErrorCode::OTSServerUnavailable));
    assert_eq!(&e.message, "bad gateway");
}

#[test]
fn middle_tier_failure_with_non_utf8_body() {
    let body = vec![0xFFu8, 0xFE, 0x00];
    let r = interpret_response(502, &None, body);
    let e = r.unwrap_err();
    assert!(matches!(e.code, ErrorCode::OTSServerUnavailable));
    assert_eq!(&e.message, "middle-tier response body is not UTF-8");
}

#[test]
fn request_date_carries_microseconds() {
    // 2020-01-02T03:04:05.000006Z in microseconds since the Unix epoch.
    let micros = 1577934245000006i64;
    assert_eq!(&request_date(micros), "2020-01-02T03:04:05.000006Z");
    assert_eq!(&request_date(-1), &request_date(i64::MAX));
}

#[test]
fn service_error_payload_maps_to_its_kind() {
    // field 1: the code string, field 2: the message.
    let code = b"OTSObjectNotExist";
    let msg = b"no such table";
    let mut body: Vec<u8> = Vec::new();
    body.push(0x0A);
    body.push(code.len() as u8);
    body.extend_from_slice(code);
    body.push(0x12);
    body.push(msg.len() as u8);
    body.extend_from_slice(msg);
    let r = interpret_response(404, &None, body);
    let e = r.unwrap_err();
    assert!(matches!(e.code, ErrorCode::OTSObjectNotExist));
    assert_eq!(&e.message, "no such table");
}

#[test]
fn unknown_service_code_falls_back_to_unknown() {
    let code = b"OTSSomethingNew";
    let mut body: Vec<u8> = Vec::new();
    body.push(0x0A);
    body.push(code.len() as u8);
    body.extend_from_slice(code);
    let r = interpret_response(400, &None, body);
    assert!(matches!(r.unwrap_err().code, ErrorCode::OTSUnknown));
}

#[test]
fn status_classification() {
    assert_eq!(classify_status(200), StatusKind::Success);
    assert_eq!(classify_status(204), StatusKind::Success);
    assert_eq!(classify_status(299), StatusKind::Success);
    assert_eq!(classify_status(502), StatusKind::ErrorFromMiddle);
    assert_eq!(classify_status(300), StatusKind::ErrorFromService);
    assert_eq!(classify_status(403), StatusKind::ErrorFromService);
    assert_eq!(classify_status(500), StatusKind::ErrorFromService);
}

#[test]
fn signing_is_deterministic_and_ordered() {
    let id = b"testid".to_vec();
    let date = "2020-01-02T03:04:05.000006Z";
    let md5 = content_md5(b"body");
    let pairs = build_signing_pairs(&id, &None, "inst", date, &md5);
    let names: Vec<&[u8]> = pairs.iter().map(|p| p.0.as_slice()).collect();
    assert_eq!(
        names,
        vec![
            b"x-ots-accesskeyid".as_slice(),
            b"x-ots-apiversion".as_slice(),
            b"x-ots-contentmd5".as_slice(),
            b"x-ots-date".as_slice(),
            b"x-ots-instancename".as_slice(),
        ]
    );
    assert_eq!(pairs[1].1.as_slice(), b"2015-12-31");
    let token = Some(b"tok".to_vec());
    let with_token = build_signing_pairs(&id, &token, "inst", date, &md5);
    assert_eq!(with_token.len(), 6);
    assert_eq!(with_token[5].0.as_slice(), b"x-ots-ststoken");

    let sig1 = sign_request("/ListTable", &pairs, b"key");
    let sig2 = sign_request("/ListTable", &pairs, b"key");
    assert_eq!(sig1, sig2);
    // A base64 HMAC-SHA1: 20 bytes, rendered as 28 characters.
    assert_eq!(sig1.len(), 28);
    let sig3 = sign_request("/ListTable", &pairs, b"other-key");
    assert_ne!(sig1, sig3);
}

#[test]
fn delete_table_request_golden_bytes() {
    let req = DeleteTableRequest { name: Name::new("T".to_string()).unwrap() };
    assert_eq!(req.to_body(), vec![0x0Au8, 0x01, 0x54]);
}

#[test]
fn create_table_request_golden_bytes() {
    let meta = TableMeta {
        name: Name::new("T".to_string()).unwrap(),
        schema: vec![
            PkeyColumnSchema {
                name: Name::new("id".to_string()).unwrap(),
                type_: PkeyValueType::Str,
            },
        ],
    };
    let req = CreateTableRequest::new(meta);
    let body = req.to_body();
    let mut expected: Vec<u8> = Vec::new();
    // table meta: name "T", one string key column "id"
    expected.extend_from_slice(&[0x0A, 0x0B, 0x0A, 0x01, 0x54, 0x12, 0x06, 0x0A, 0x02, 0x69,
        0x64, 0x10, 0x02]);
    // reserved throughput: capacity unit read 0 / write 0
    expected.extend_from_slice(&[0x12, 0x06, 0x0A, 0x04, 0x08, 0x00, 0x10, 0x00]);
    // table options: ttl -1 (ten-byte varint), max versions 1
    expected.extend_from_slice(&[0x1A, 0x0D, 0x08, 0xFF, 0xFF, 0xFF, 0xFF, 0xFF, 0xFF, 0xFF,
        0xFF, 0xFF, 0x01, 0x10, 0x01]);
    assert_eq!(body, expected);
}

#[test]
fn put_row_condition_bytes() {
    let c = Condition::new(RowExistenceExpectation::ExpectNotExist);
    assert_eq!(c.row_exist, RowExistenceExpectation::ExpectNotExist);
    assert_eq!(InReturn::Nothing.as_number(), 0);
    assert_eq!(InReturn::RowKey.as_number(), 1);
    assert_eq!(RowExistenceExpectation::Ignore.as_number(), 0);
    assert_eq!(RowExistenceExpectation::ExpectExist.as_number(), 1);
    assert_eq!(RowExistenceExpectation::ExpectNotExist.as_number(), 2);
}
