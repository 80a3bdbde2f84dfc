//! The wire protocol: protobuf encodings of the supported operations'
//! request messages, and decoders for the response messages the client
//! reads — the table-name list, the range-scan response, and the
//! service's structured error payload.

use vstd::prelude::*;
use vstd::utf8::{encode_utf8, decode_utf8, valid_utf8};
use vstd::slice::{slice_subrange, slice_to_vec};
use crate::error::{Error, ErrorCode};
use crate::types::common::Name;
use crate::types::condition::{Condition, spec_row_existence_number};
use crate::types::in_return::{InReturn, spec_in_return_number};
use crate::types::table_meta::{TableMeta, PkeyColumnSchema, PkeyValueType};
use crate::types::table_options::{TableOptions, CapacityUnit};
use crate::types::common::SettableValue;

verus! {

/// The base-128 varint encoding of `v`, least significant seven bits
/// first.
pub open spec fn enc_varint(v: u64) -> Seq<u8>
    decreases v,
    via enc_varint_decreases
{
    if v < 0x80 {
        seq![v as u8]
    } else {
        seq![((v & 0x7f) | 0x80) as u8] + enc_varint(v >> 7)
    }
}

#[via_fn]
proof fn enc_varint_decreases(v: u64) {
    assert(v >= 0x80 ==> v >> 7 < v) by (bit_vector);
}

/// Decodes a varint: `None` on empty or overlong input.
pub open spec fn dec_varint(s: Seq<u8>) -> Option<(u64, int)>
    decreases s.len(),
{
    if s.len() == 0 {
        None
    } else if s[0] < 0x80 {
        Some((s[0] as u64, 1))
    } else {
        match dec_varint(s.drop_first()) {
            Some((v, n)) => if v >> 57 == 0 {
                Some(((v << 7) | ((s[0] & 0x7f) as u64), n + 1))
            } else {
                None
            },
            None => None,
        }
    }
}

/// Decodes a length-delimited field body: its bytes and the total bytes
/// consumed, length prefix included.
pub open spec fn dec_ld(s: Seq<u8>) -> Option<(Seq<u8>, int)> {
    match dec_varint(s) {
        Some((l, n)) => if n + l <= s.len() {
            Some((s.subrange(n, n + l as int), n + l as int))
        } else {
            None
        },
        None => None,
    }
}

/// How many bytes an unknown field of the given wire type stands in.
pub open spec fn dec_skip(s: Seq<u8>, wt: u64) -> Option<int> {
    if wt == 0 {
        match dec_varint(s) {
            Some((_, n)) => Some(n),
            None => None,
        }
    } else if wt == 1 {
        if s.len() >= 8 {
            Some(8)
        } else {
            None
        }
    } else if wt == 2 {
        match dec_ld(s) {
            Some((_, n)) => Some(n),
            None => None,
        }
    } else if wt == 5 {
        if s.len() >= 4 {
            Some(4)
        } else {
            None
        }
    } else {
        None
    }
}

/// A single-byte field key followed by a length-delimited payload.
pub open spec fn enc_ld_field(key: u8, payload: Seq<u8>) -> Seq<u8> {
    seq![key] + enc_varint(payload.len() as u64) + payload
}

/// A single-byte field key followed by a varint value.
pub open spec fn enc_varint_field(key: u8, v: u64) -> Seq<u8> {
    seq![key] + enc_varint(v)
}

/// The wire number of a primary-key column type.
pub open spec fn spec_pkey_type_number(t: PkeyValueType) -> u64 {
    match t {
        PkeyValueType::Int(_) => 1,
        PkeyValueType::Str => 2,
        PkeyValueType::Blob => 3,
    }
}

/// One primary-key column schema message.
pub open spec fn pb_pkey_schema(s: PkeyColumnSchema) -> Seq<u8> {
    enc_ld_field(10, encode_utf8(s.name@)) + enc_varint_field(16, spec_pkey_type_number(s.type_))
        + (match s.type_ {
        PkeyValueType::Int(o) => if o.auto_increment {
            enc_varint_field(24, 1)
        } else {
            Seq::<u8>::empty()
        },
        _ => Seq::<u8>::empty(),
    })
}

/// The repeated schema fields of a table-meta message.
pub open spec fn pb_schema_fields(ss: Seq<PkeyColumnSchema>) -> Seq<u8>
    decreases ss.len(),
{
    if ss.len() == 0 {
        Seq::<u8>::empty()
    } else {
        enc_ld_field(18, pb_pkey_schema(ss[0])) + pb_schema_fields(ss.drop_first())
    }
}

/// The table-meta message: the name and the key schema.
pub open spec fn pb_table_meta(m: TableMeta) -> Seq<u8> {
    enc_ld_field(10, encode_utf8(m.name@)) + pb_schema_fields(m.schema@)
}

/// One settable capacity figure as an optional varint field.
pub open spec fn pb_capacity_field(key: u8, v: SettableValue<i32>) -> Seq<u8> {
    match v {
        SettableValue::Value(x) => enc_varint_field(key, x as u64),
        SettableValue::Default => enc_varint_field(key, 0),
        SettableValue::NoChange => Seq::<u8>::empty(),
    }
}

/// The capacity-unit message.
pub open spec fn pb_capacity_unit(cu: CapacityUnit) -> Seq<u8> {
    pb_capacity_field(8, cu.read) + pb_capacity_field(16, cu.write)
}

/// The reserved-throughput message wrapping the capacity unit.
pub open spec fn pb_reserved_throughput(cu: CapacityUnit) -> Seq<u8> {
    enc_ld_field(10, pb_capacity_unit(cu))
}

/// The table-options message: time-to-live and version limit take the
/// service defaults (-1 and 1) when unset, stay absent when unchanged;
/// the deviation figure is sent only when explicitly set.
pub open spec fn pb_table_options(o: TableOptions) -> Seq<u8> {
    (match o.time_to_live_secs {
        SettableValue::Value(x) => enc_varint_field(8, x as u64),
        SettableValue::Default => enc_varint_field(8, (-1) as i32 as u64),
        SettableValue::NoChange => Seq::<u8>::empty(),
    }) + (match o.max_versions {
        SettableValue::Value(x) => enc_varint_field(16, x as u64),
        SettableValue::Default => enc_varint_field(16, 1),
        SettableValue::NoChange => Seq::<u8>::empty(),
    }) + (match o.deviated_duration_secs {
        SettableValue::Value(x) => enc_varint_field(40, x as u64),
        SettableValue::Default => Seq::<u8>::empty(),
        SettableValue::NoChange => Seq::<u8>::empty(),
    })
}

/// The create-table request message.
pub open spec fn pb_create_table_request(m: TableMeta, o: TableOptions) -> Seq<u8> {
    enc_ld_field(10, pb_table_meta(m)) + enc_ld_field(18, pb_reserved_throughput(o.capacity_unit))
        + enc_ld_field(26, pb_table_options(o))
}

/// The delete-table request message.
pub open spec fn pb_delete_table_request(name: Seq<char>) -> Seq<u8> {
    enc_ld_field(10, encode_utf8(name))
}

/// The condition message.
pub open spec fn pb_condition(c: Condition) -> Seq<u8> {
    enc_varint_field(8, spec_row_existence_number(c.row_exist))
}

/// The return-content message.
pub open spec fn pb_return_content(x: InReturn) -> Seq<u8> {
    enc_varint_field(8, spec_in_return_number(x))
}

/// The put-row request message: the table name, the codec-encoded row,
/// the condition, and the return choice.
pub open spec fn pb_put_row_request(
    name: Seq<char>,
    row: Seq<u8>,
    c: Condition,
    ret: InReturn,
) -> Seq<u8> {
    enc_ld_field(10, encode_utf8(name)) + enc_ld_field(18, row) + enc_ld_field(26, pb_condition(c))
        + enc_ld_field(34, pb_return_content(ret))
}

/// The get-range request message: the table name, the direction, a
/// single-version read, and the codec-encoded scan boundaries.
pub open spec fn pb_get_range_request(
    name: Seq<char>,
    backward: bool,
    start: Seq<u8>,
    end: Seq<u8>,
) -> Seq<u8> {
    enc_ld_field(10, encode_utf8(name)) + enc_varint_field(
        16,
        if backward {
            1
        } else {
            0
        },
    ) + enc_varint_field(40, 1) + enc_ld_field(58, start) + enc_ld_field(66, end)
}

/// Decodes the service error payload: field 1 the string code, field 2
/// the optional message, anything else skipped.
pub open spec fn dec_pb_error(s: Seq<u8>, code: Seq<char>, msg: Option<Seq<char>>) -> Option<
    (Seq<char>, Option<Seq<char>>),
>
    decreases s.len(),
{
    if s.len() == 0 {
        Some((code, msg))
    } else {
        match dec_varint(s) {
            Some((key, kn)) => if 1 <= kn <= s.len() {
                if key == 10 || key == 18 {
                    match dec_ld(s.skip(kn)) {
                        Some((b, m)) => if valid_utf8(b) && 0 <= m && kn + m <= s.len() {
                            if key == 10 {
                                dec_pb_error(s.skip(kn + m), decode_utf8(b), msg)
                            } else {
                                dec_pb_error(s.skip(kn + m), code, Some(decode_utf8(b)))
                            }
                        } else {
                            None
                        },
                        None => None,
                    }
                } else {
                    match dec_skip(s.skip(kn), key & 7) {
                        Some(m) => if kn + m <= s.len() && m >= 0 {
                            dec_pb_error(s.skip(kn + m), code, msg)
                        } else {
                            None
                        },
                        None => None,
                    }
                }
            } else {
                None
            },
            None => None,
        }
    }
}

/// Decodes the list-table response: every field-1 string, in order,
/// anything else skipped.
pub open spec fn dec_pb_table_names(s: Seq<u8>, acc: Seq<Seq<char>>) -> Option<Seq<Seq<char>>>
    decreases s.len(),
{
    if s.len() == 0 {
        Some(acc)
    } else {
        match dec_varint(s) {
            Some((key, kn)) => if 1 <= kn <= s.len() {
                if key == 10 {
                    match dec_ld(s.skip(kn)) {
                        Some((b, m)) => if valid_utf8(b) && 0 <= m && kn + m <= s.len() {
                            dec_pb_table_names(s.skip(kn + m), acc.push(decode_utf8(b)))
                        } else {
                            None
                        },
                        None => None,
                    }
                } else {
                    match dec_skip(s.skip(kn), key & 7) {
                        Some(m) => if kn + m <= s.len() && m >= 0 {
                            dec_pb_table_names(s.skip(kn + m), acc)
                        } else {
                            None
                        },
                        None => None,
                    }
                }
            } else {
                None
            },
            None => None,
        }
    }
}

/// Decodes the get-range response: field 2 the codec-encoded rows,
/// field 3 the optional continuation key, anything else — the consumed
/// capacity included — skipped.
pub open spec fn dec_pb_get_range(s: Seq<u8>, rows: Seq<u8>, next: Option<Seq<u8>>) -> Option<
    (Seq<u8>, Option<Seq<u8>>),
>
    decreases s.len(),
{
    if s.len() == 0 {
        Some((rows, next))
    } else {
        match dec_varint(s) {
            Some((key, kn)) => if 1 <= kn <= s.len() {
                if key == 18 || key == 26 {
                    match dec_ld(s.skip(kn)) {
                        Some((b, m)) => if 0 <= m && kn + m <= s.len() {
                            if key == 18 {
                                dec_pb_get_range(s.skip(kn + m), b, next)
                            } else {
                                dec_pb_get_range(s.skip(kn + m), rows, Some(b))
                            }
                        } else {
                            None
                        },
                        None => None,
                    }
                } else {
                    match dec_skip(s.skip(kn), key & 7) {
                        Some(m) => if kn + m <= s.len() && m >= 0 {
                            dec_pb_get_range(s.skip(kn + m), rows, next)
                        } else {
                            None
                        },
                        None => None,
                    }
                }
            } else {
                None
            },
            None => None,
        }
    }
}

/// Appends the varint encoding of `v`.
fn put_varint(out: &mut Vec<u8>, v: u64)
    ensures
        final(out)@ == old(out)@ + enc_varint(v),
{
    let mut cur = v;
    proof {
        assert(out@ + enc_varint(cur) =~= old(out)@ + enc_varint(v));
    }
    while cur >= 0x80
        invariant
            out@ + enc_varint(cur) =~= old(out)@ + enc_varint(v),
        decreases cur,
    {
        let ghost cur0 = cur;
        out.push(((cur & 0x7f) | 0x80) as u8);
        cur = cur >> 7u64;
        proof {
            assert(cur < cur0) by (bit_vector)
                requires
                    cur == cur0 >> 7 && cur0 >= 0x80,
            ;
            assert(enc_varint(cur0) =~= seq![((cur0 & 0x7f) | 0x80) as u8] + enc_varint(
                cur0 >> 7,
            ));
            assert(out@ + enc_varint(cur) =~= old(out)@ + enc_varint(v));
        }
    }
    out.push(cur as u8);
    proof {
        assert(enc_varint(cur) =~= seq![cur as u8]);
        assert(out@ =~= old(out)@ + enc_varint(v));
    }
}

/// Appends one raw byte.
fn put_byte(out: &mut Vec<u8>, b: u8)
    ensures
        final(out)@ == old(out)@ + seq![b],
{
    out.push(b);
    proof {
        assert(out@ =~= old(out)@ + seq![b]);
    }
}

/// Appends a whole byte slice.
fn put_slice(out: &mut Vec<u8>, b: &[u8])
    ensures
        final(out)@ == old(out)@ + b@,
{
    let mut i: usize = 0;
    while i < b.len()
        invariant
            i <= b@.len(),
            out@ =~= old(out)@ + b@.take(i as int),
        decreases b@.len() - i,
    {
        out.push(b[i]);
        i = i + 1;
        proof {
            assert(out@ =~= old(out)@ + b@.take(i as int));
        }
    }
    proof {
        assert(old(out)@ + b@.take(b@.len() as int) =~= old(out)@ + b@);
    }
}

/// Appends a length-delimited field: key, length, payload.
fn put_ld_bytes(out: &mut Vec<u8>, key: u8, payload: &[u8])
    ensures
        final(out)@ == old(out)@ + enc_ld_field(key, payload@),
{
    put_byte(out, key);
    put_varint(out, payload.len() as u64);
    put_slice(out, payload);
    proof {
        assert(out@ =~= old(out)@ + enc_ld_field(key, payload@));
    }
}

/// Appends a length-delimited string field; its payload is the string's
/// UTF-8 bytes.
fn put_ld_str(out: &mut Vec<u8>, key: u8, s: &str)
    ensures
        final(out)@ == old(out)@ + enc_ld_field(key, encode_utf8(s@)),
{
    put_ld_bytes(out, key, s.as_bytes());
}

/// Appends a varint field: key, value.
fn put_varint_field(out: &mut Vec<u8>, key: u8, v: u64)
    ensures
        final(out)@ == old(out)@ + enc_varint_field(key, v),
{
    put_byte(out, key);
    put_varint(out, v);
    proof {
        assert(out@ =~= old(out)@ + enc_varint_field(key, v));
    }
}

/// The empty list-table request body.
pub fn encode_list_table_request() -> (r: Vec<u8>)
    ensures
        r@ == Seq::<u8>::empty(),
{
    let r: Vec<u8> = Vec::new();
    proof {
        assert(r@ =~= Seq::<u8>::empty());
    }
    r
}

/// The delete-table request body.
pub fn encode_delete_table_request(name: &Name) -> (r: Vec<u8>)
    ensures
        r@ == pb_delete_table_request(name@),
{
    let mut out: Vec<u8> = Vec::new();
    put_ld_str(&mut out, 10, name.as_str());
    proof {
        assert(out@ =~= pb_delete_table_request(name@));
    }
    out
}

/// The create-table request body.
pub fn encode_create_table_request(meta: &TableMeta, opts: &TableOptions) -> (r: Vec<u8>)
    ensures
        r@ == pb_create_table_request(*meta, *opts),
{
    let mut tm: Vec<u8> = Vec::new();
    put_ld_str(&mut tm, 10, meta.name.as_str());
    let mut i: usize = 0;
    while i < meta.schema.len()
        invariant
            i <= meta.schema@.len(),
            tm@ =~= enc_ld_field(10, encode_utf8(meta.name@)) + pb_schema_fields(
                meta.schema@.take(i as int),
            ),
        decreases meta.schema@.len() - i,
    {
        let mut sc: Vec<u8> = Vec::new();
        put_ld_str(&mut sc, 10, meta.schema[i].name.as_str());
        match &meta.schema[i].type_ {
            PkeyValueType::Int(o) => {
                put_varint_field(&mut sc, 16, 1);
                if o.auto_increment {
                    put_varint_field(&mut sc, 24, 1);
                }
            },
            PkeyValueType::Str => {
                put_varint_field(&mut sc, 16, 2);
            },
            PkeyValueType::Blob => {
                put_varint_field(&mut sc, 16, 3);
            },
        }
        proof {
            assert(sc@ =~= pb_pkey_schema(meta.schema@[i as int]));
        }
        put_ld_bytes(&mut tm, 18, sc.as_slice());
        i = i + 1;
        proof {
            lemma_pb_schema_fields_push(meta.schema@.take(i as int - 1), meta.schema@[i - 1]);
            assert(meta.schema@.take(i as int) =~= meta.schema@.take(i as int - 1).push(
                meta.schema@[i - 1],
            ));
            assert(tm@ =~= enc_ld_field(10, encode_utf8(meta.name@)) + pb_schema_fields(
                meta.schema@.take(i as int),
            ));
        }
    }
    proof {
        assert(meta.schema@.take(meta.schema@.len() as int) =~= meta.schema@);
        assert(tm@ =~= pb_table_meta(*meta));
    }
    let mut cu: Vec<u8> = Vec::new();
    match &opts.capacity_unit.read {
        SettableValue::Value(x) => put_varint_field(&mut cu, 8, *x as u64),
        SettableValue::Default => put_varint_field(&mut cu, 8, 0),
        SettableValue::NoChange => (),
    }
    match &opts.capacity_unit.write {
        SettableValue::Value(x) => put_varint_field(&mut cu, 16, *x as u64),
        SettableValue::Default => put_varint_field(&mut cu, 16, 0),
        SettableValue::NoChange => (),
    }
    proof {
        assert(cu@ =~= pb_capacity_unit(opts.capacity_unit));
    }
    let mut rt: Vec<u8> = Vec::new();
    put_ld_bytes(&mut rt, 10, cu.as_slice());
    proof {
        assert(rt@ =~= pb_reserved_throughput(opts.capacity_unit));
    }
    let mut to: Vec<u8> = Vec::new();
    match &opts.time_to_live_secs {
        SettableValue::Value(x) => put_varint_field(&mut to, 8, *x as u64),
        SettableValue::Default => put_varint_field(&mut to, 8, (-1i32) as u64),
        SettableValue::NoChange => (),
    }
    match &opts.max_versions {
        SettableValue::Value(x) => put_varint_field(&mut to, 16, *x as u64),
        SettableValue::Default => put_varint_field(&mut to, 16, 1),
        SettableValue::NoChange => (),
    }
    match &opts.deviated_duration_secs {
        SettableValue::Value(x) => put_varint_field(&mut to, 40, *x as u64),
        SettableValue::Default => (),
        SettableValue::NoChange => (),
    }
    proof {
        assert(to@ =~= pb_table_options(*opts));
    }
    let mut out: Vec<u8> = Vec::new();
    put_ld_bytes(&mut out, 10, tm.as_slice());
    put_ld_bytes(&mut out, 18, rt.as_slice());
    put_ld_bytes(&mut out, 26, to.as_slice());
    proof {
        assert(out@ =~= pb_create_table_request(*meta, *opts));
    }
    out
}

/// Appending one schema column appends its field.
proof fn lemma_pb_schema_fields_push(ss: Seq<PkeyColumnSchema>, c: PkeyColumnSchema)
    ensures
        pb_schema_fields(ss.push(c)) == pb_schema_fields(ss) + enc_ld_field(18, pb_pkey_schema(c)),
    decreases ss.len(),
{
    if ss.len() == 0 {
        assert(ss.push(c)[0] == c);
        assert(ss.push(c).drop_first() =~= Seq::<PkeyColumnSchema>::empty());
        assert(pb_schema_fields(Seq::<PkeyColumnSchema>::empty()) == Seq::<u8>::empty());
        assert(enc_ld_field(18, pb_pkey_schema(c)) + Seq::<u8>::empty() =~= enc_ld_field(
            18,
            pb_pkey_schema(c),
        ));
        assert(Seq::<u8>::empty() + enc_ld_field(18, pb_pkey_schema(c)) =~= enc_ld_field(
            18,
            pb_pkey_schema(c),
        ));
    } else {
        assert(ss.push(c)[0] == ss[0]);
        assert(ss.push(c).drop_first() =~= ss.drop_first().push(c));
        lemma_pb_schema_fields_push(ss.drop_first(), c);
        assert(enc_ld_field(18, pb_pkey_schema(ss[0])) + (pb_schema_fields(ss.drop_first())
            + enc_ld_field(18, pb_pkey_schema(c))) =~= (enc_ld_field(18, pb_pkey_schema(ss[0]))
            + pb_schema_fields(ss.drop_first())) + enc_ld_field(18, pb_pkey_schema(c)));
    }
}

/// The put-row request body.
pub fn encode_put_row_request(name: &Name, row: &[u8], c: &Condition, ret: InReturn) -> (r: Vec<
    u8,
>)
    ensures
        r@ == pb_put_row_request(name@, row@, *c, ret),
{
    let mut cb: Vec<u8> = Vec::new();
    put_varint_field(&mut cb, 8, c.row_exist.as_number());
    proof {
        assert(cb@ =~= pb_condition(*c));
    }
    let mut rb: Vec<u8> = Vec::new();
    put_varint_field(&mut rb, 8, ret.as_number());
    proof {
        assert(rb@ =~= pb_return_content(ret));
    }
    let mut out: Vec<u8> = Vec::new();
    put_ld_str(&mut out, 10, name.as_str());
    put_ld_bytes(&mut out, 18, row);
    put_ld_bytes(&mut out, 26, cb.as_slice());
    put_ld_bytes(&mut out, 34, rb.as_slice());
    proof {
        assert(out@ =~= pb_put_row_request(name@, row@, *c, ret));
    }
    out
}

/// The get-range request body.
pub fn encode_get_range_request(name: &Name, backward: bool, start: &[u8], end: &[u8]) -> (r: Vec<
    u8,
>)
    ensures
        r@ == pb_get_range_request(name@, backward, start@, end@),
{
    let mut out: Vec<u8> = Vec::new();
    put_ld_str(&mut out, 10, name.as_str());
    put_varint_field(
        &mut out,
        16,
        if backward {
            1
        } else {
            0
        },
    );
    put_varint_field(&mut out, 40, 1);
    put_ld_bytes(&mut out, 58, start);
    put_ld_bytes(&mut out, 66, end);
    proof {
        assert(out@ =~= pb_get_range_request(name@, backward, start@, end@));
    }
    out
}

/// The corruption error every payload-decoding failure reports.
fn corrupt<T>() -> (r: Result<T, Error>)
    ensures
        r matches Err(e) && e.code == ErrorCode::CorruptedResponse,
{
    Err(Error { code: ErrorCode::CorruptedResponse, message: String::new() })
}

/// Reads one varint.
fn read_varint(buf: &[u8], pos: usize) -> (r: Result<(u64, usize), Error>)
    requires
        pos <= buf@.len(),
    ensures
        r matches Ok((v, p)) ==> pos < p <= buf@.len() && dec_varint(buf@.skip(pos as int))
            == Some((v, p - pos as int)),
        r is Err ==> dec_varint(buf@.skip(pos as int)) is None,
        r matches Err(e) ==> e.code == ErrorCode::CorruptedResponse,
    decreases buf@.len() - pos,
{
    let ghost s = buf@.skip(pos as int);
    if pos >= buf.len() {
        return corrupt();
    }
    let b = buf[pos];
    proof {
        assert(s[0] == buf@[pos as int]);
    }
    if b < 0x80 {
        return Ok((b as u64, pos + 1));
    }
    proof {
        assert(s.drop_first() =~= buf@.skip(pos as int + 1));
    }
    match read_varint(buf, pos + 1) {
        Ok((v, p)) => {
            if !((v >> 57u64) == 0) {
                return corrupt();
            }
            Ok(((v << 7u64) | ((b & 0x7f) as u64), p))
        },
        Err(e) => Err(e),
    }
}

/// Reads one length-delimited field body.
fn read_ld(buf: &[u8], pos: usize) -> (r: Result<(Vec<u8>, usize), Error>)
    requires
        pos <= buf@.len(),
    ensures
        r matches Ok((b, p)) ==> pos < p <= buf@.len() && dec_ld(buf@.skip(pos as int)) == Some(
            (b@, p - pos as int),
        ),
        r is Err ==> dec_ld(buf@.skip(pos as int)) is None,
        r matches Err(e) ==> e.code == ErrorCode::CorruptedResponse,
{
    let ghost s = buf@.skip(pos as int);
    let (l, p1) = match read_varint(buf, pos) {
        Ok(x) => x,
        Err(e) => {
            return Err(e);
        },
    };
    if l > (buf.len() - p1) as u64 {
        return corrupt();
    }
    let end = p1 + (l as usize);
    let b = slice_to_vec(slice_subrange(buf, p1, end));
    proof {
        assert(b@ =~= s.subrange(p1 - pos as int, p1 - pos as int + l as int));
    }
    Ok((b, end))
}

/// Skips one field of the given wire type.
fn skip_field(buf: &[u8], pos: usize, wt: u64) -> (r: Result<usize, Error>)
    requires
        pos <= buf@.len(),
    ensures
        r matches Ok(p) ==> pos <= p <= buf@.len() && dec_skip(buf@.skip(pos as int), wt) == Some(
            p - pos as int,
        ),
        r is Err ==> dec_skip(buf@.skip(pos as int), wt) is None,
        r matches Err(e) ==> e.code == ErrorCode::CorruptedResponse,
{
    let ghost s = buf@.skip(pos as int);
    if wt == 0 {
        match read_varint(buf, pos) {
            Ok((_, p)) => Ok(p),
            Err(e) => Err(e),
        }
    } else if wt == 1 {
        if buf.len() - pos >= 8 {
            Ok(pos + 8)
        } else {
            corrupt()
        }
    } else if wt == 2 {
        match read_ld(buf, pos) {
            Ok((_, p)) => Ok(p),
            Err(e) => Err(e),
        }
    } else if wt == 5 {
        if buf.len() - pos >= 4 {
            Ok(pos + 4)
        } else {
            corrupt()
        }
    } else {
        corrupt()
    }
}

/// Decodes the service error payload into its string code and optional
/// message.
#[verifier::rlimit(80)]
pub fn decode_pb_error(body: &[u8]) -> (r: Result<(String, Option<String>), Error>)
    ensures
        r matches Ok((c, m)) ==> dec_pb_error(body@, Seq::<char>::empty(), None) == Some(
            (c@, m.deep_view()),
        ),
        r is Err ==> dec_pb_error(body@, Seq::<char>::empty(), None) is None,
        r matches Err(e) ==> e.code == ErrorCode::CorruptedResponse,
{
    let mut cur: usize = 0;
    let mut code = String::new();
    let mut msg: Option<String> = None;
    proof {
        assert(body@.skip(0) =~= body@);
    }
    while cur < buf_len(body)
        invariant
            cur <= body@.len(),
            dec_pb_error(body@, Seq::<char>::empty(), None) == dec_pb_error(
                body@.skip(cur as int),
                code@,
                msg.deep_view(),
            ),
        decreases body@.len() - cur,
    {
        let ghost scur = body@.skip(cur as int);
        let (key, kp) = match read_varint(body, cur) {
            Ok(x) => x,
            Err(_) => {
                return corrupt();
            },
        };
        proof {
            assert(scur.skip(kp - cur as int) =~= body@.skip(kp as int));
        }
        if key == 10 || key == 18 {
            let (b, p) = match read_ld(body, kp) {
                Ok(x) => x,
                Err(_) => {
                    return corrupt();
                },
            };
            let st = match crate::strings::string_from_utf8(b) {
                Some(st) => st,
                None => {
                    return corrupt();
                },
            };
            proof {
                assert(scur.skip(p - cur as int) =~= body@.skip(p as int));
            }
            if key == 10 {
                code = st;
            } else {
                msg = Some(st);
            }
            cur = p;
        } else {
            let p = match skip_field(body, kp, key & 7) {
                Ok(x) => x,
                Err(_) => {
                    return corrupt();
                },
            };
            proof {
                assert(scur.skip(p - cur as int) =~= body@.skip(p as int));
            }
            cur = p;
        }
    }
    proof {
        assert(body@.skip(cur as int).len() == 0);
    }
    Ok((code, msg))
}

/// Decodes the list-table response into its table names, in order.
#[verifier::rlimit(80)]
pub fn decode_pb_table_names(body: &[u8]) -> (r: Result<Vec<String>, Error>)
    ensures
        r matches Ok(names) ==> dec_pb_table_names(body@, Seq::<Seq<char>>::empty()) == Some(
            names.deep_view(),
        ),
        r is Err ==> dec_pb_table_names(body@, Seq::<Seq<char>>::empty()) is None,
        r matches Err(e) ==> e.code == ErrorCode::CorruptedResponse,
{
    let mut cur: usize = 0;
    let mut acc: Vec<String> = Vec::new();
    proof {
        assert(body@.skip(0) =~= body@);
        assert(acc.deep_view() =~= Seq::<Seq<char>>::empty());
    }
    while cur < buf_len(body)
        invariant
            cur <= body@.len(),
            dec_pb_table_names(body@, Seq::<Seq<char>>::empty()) == dec_pb_table_names(
                body@.skip(cur as int),
                acc.deep_view(),
            ),
        decreases body@.len() - cur,
    {
        let ghost scur = body@.skip(cur as int);
        let ghost acc0 = acc.deep_view();
        let (key, kp) = match read_varint(body, cur) {
            Ok(x) => x,
            Err(_) => {
                return corrupt();
            },
        };
        proof {
            assert(scur.skip(kp - cur as int) =~= body@.skip(kp as int));
        }
        if key == 10 {
            let (b, p) = match read_ld(body, kp) {
                Ok(x) => x,
                Err(_) => {
                    return corrupt();
                },
            };
            let st = match crate::strings::string_from_utf8(b) {
                Some(st) => st,
                None => {
                    return corrupt();
                },
            };
            proof {
                assert(scur.skip(p - cur as int) =~= body@.skip(p as int));
            }
            acc.push(st);
            proof {
                assert(acc.deep_view() =~= acc0.push(st@));
            }
            cur = p;
        } else {
            let p = match skip_field(body, kp, key & 7) {
                Ok(x) => x,
                Err(_) => {
                    return corrupt();
                },
            };
            proof {
                assert(scur.skip(p - cur as int) =~= body@.skip(p as int));
            }
            cur = p;
        }
    }
    proof {
        assert(body@.skip(cur as int).len() == 0);
    }
    Ok(acc)
}

/// Decodes the get-range response into the codec-encoded row bytes and
/// the optional continuation-key bytes.
#[verifier::rlimit(80)]
pub fn decode_pb_get_range(body: &[u8]) -> (r: Result<(Vec<u8>, Option<Vec<u8>>), Error>)
    ensures
        r matches Ok((rows, next)) ==> dec_pb_get_range(body@, Seq::<u8>::empty(), None) == Some(
            (rows@, next.deep_view()),
        ),
        r is Err ==> dec_pb_get_range(body@, Seq::<u8>::empty(), None) is None,
        r matches Err(e) ==> e.code == ErrorCode::CorruptedResponse,
{
    let mut cur: usize = 0;
    let mut rows: Vec<u8> = Vec::new();
    let mut next: Option<Vec<u8>> = None;
    proof {
        assert(body@.skip(0) =~= body@);
        assert(rows@ =~= Seq::<u8>::empty());
    }
    while cur < buf_len(body)
        invariant
            cur <= body@.len(),
            dec_pb_get_range(body@, Seq::<u8>::empty(), None) == dec_pb_get_range(
                body@.skip(cur as int),
                rows@,
                next.deep_view(),
            ),
        decreases body@.len() - cur,
    {
        let ghost scur = body@.skip(cur as int);
        let ghost rows0 = rows@;
        let ghost next0 = next.deep_view();
        let (key, kp) = match read_varint(body, cur) {
            Ok(x) => x,
            Err(_) => {
                return corrupt();
            },
        };
        proof {
            assert(scur.skip(kp - cur as int) =~= body@.skip(kp as int));
        }
        if key == 18 || key == 26 {
            let (b, p) = match read_ld(body, kp) {
                Ok(x) => x,
                Err(_) => {
                    return corrupt();
                },
            };
            proof {
                assert(scur.skip(p - cur as int) =~= body@.skip(p as int));
                assert(dec_ld(scur.skip(kp - cur as int)) == Some((b@, p - kp as int)));
                if key == 18 {
                    assert(dec_pb_get_range(scur, rows0, next0) == dec_pb_get_range(
                        body@.skip(p as int),
                        b@,
                        next0,
                    ));
                } else {
                    assert(dec_pb_get_range(scur, rows0, next0) == dec_pb_get_range(
                        body@.skip(p as int),
                        rows0,
                        Some(b@),
                    ));
                }
            }
            if key == 18 {
                rows = b;
                proof {
                    assert(rows@ == b@);
                    assert(next.deep_view() == next0);
                }
            } else {
                next = Some(b);
                proof {
                    assert(rows@ == rows0);
                    assert(next.deep_view() == Some(b@));
                }
            }
            cur = p;
        } else {
            let p = match skip_field(body, kp, key & 7) {
                Ok(x) => x,
                Err(_) => {
                    return corrupt();
                },
            };
            proof {
                assert(scur.skip(p - cur as int) =~= body@.skip(p as int));
            }
            cur = p;
        }
    }
    proof {
        assert(body@.skip(cur as int).len() == 0);
    }
    Ok((rows, next))
}

/// The slice's length.
fn buf_len(b: &[u8]) -> (r: usize)
    ensures
        r == b@.len(),
{
    b.len()
}

} // verus!
