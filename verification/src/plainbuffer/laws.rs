//! The round-trip laws of the binary row codec: decoding an encoding
//! yields the value that was encoded, for every well-formed row, key and
//! value, sentinels included.

use vstd::prelude::*;
use vstd::utf8::encode_utf8;
use crate::crc8::{spec_le4, spec_le8};
use crate::types::rowkey::{ValueModel, ColumnModel};
use crate::types::attr::{AttrValueModel, AttrModel};
use crate::types::row::RowModel;
use super::consts::{
    HEADER, TAG_ROW_KEY, TAG_ROW_DATA, TAG_CELL, TAG_CELL_NAME, TAG_CELL_VALUE,
    TAG_CELL_TIMESTAMP, TAG_ROW_CHECKSUM, TAG_CELL_CHECKSUM,
};
use super::spec::{
    spec_u32_of_le, spec_u64_of_le, wf_text, wf_value, wf_col, wf_cols, wf_attr_value, wf_attr,
    wf_attrs, wf_row, wf_rows, enc_name, val_payload, enc_val, cell_chk, enc_col, enc_cols,
    enc_key, attr_val_payload, enc_attr_val, attr_chk, enc_attr, enc_attrs, enc_row, enc_rows,
    enc_pbuf_row, enc_pbuf_rows, enc_pbuf_key, dec_name, dec_val, dec_col, dec_cols, dec_key,
    dec_attr_val, dec_attr, dec_attrs, dec_row, dec_rows, dec_pbuf_row, dec_pbuf_rows,
    dec_pbuf_key,
};

verus! {

/// Four little-endian bytes read back give the word they came from.
proof fn lemma_le4_inverse(v: u32)
    ensures
        spec_u32_of_le(spec_le4(v)) == v,
{
    assert(((v as u8) as u32) | ((((v >> 8) as u8) as u32) << 8) | ((((v >> 16) as u8) as u32)
        << 16) | ((((v >> 24) as u8) as u32) << 24) == v) by (bit_vector);
}

/// Eight little-endian bytes read back give the word they came from.
proof fn lemma_le8_inverse(v: u64)
    ensures
        spec_u64_of_le(spec_le8(v)) == v,
{
    assert(((v as u8) as u64) | ((((v >> 8) as u8) as u64) << 8) | ((((v >> 16) as u8) as u64)
        << 16) | ((((v >> 24) as u8) as u64) << 24) | ((((v >> 32) as u8) as u64) << 32) | ((((v
        >> 40) as u8) as u64) << 40) | ((((v >> 48) as u8) as u64) << 48) | ((((v
        >> 56) as u8) as u64) << 56) == v) by (bit_vector);
}

/// Decoding an encoded cell name yields the name.
proof fn lemma_rt_name(n: Seq<char>, rest: Seq<u8>)
    requires
        wf_text(n),
    ensures
        dec_name(enc_name(n) + rest) == Some((n, enc_name(n).len() as int)),
{
    let u = encode_utf8(n);
    let s = enc_name(n) + rest;
    assert(s[0] == TAG_CELL_NAME);
    assert(s.subrange(1, 5) =~= spec_le4(u.len() as u32));
    lemma_le4_inverse(u.len() as u32);
    assert(s.subrange(5, 5 + u.len() as int) =~= u);
    vstd::utf8::encode_utf8_valid_utf8(n);
    vstd::utf8::encode_utf8_decode_utf8(n);
}

/// Decoding an encoded key cell value yields the value.
proof fn lemma_rt_val(v: ValueModel, rest: Seq<u8>)
    requires
        wf_value(v),
    ensures
        dec_val(enc_val(v) + rest) == Some((v, enc_val(v).len() as int)),
{
    let pay = val_payload(v);
    let s = enc_val(v) + rest;
    assert(s[0] == TAG_CELL_VALUE);
    assert(s.subrange(1, 5) =~= spec_le4(pay.len() as u32));
    lemma_le4_inverse(pay.len() as u32);
    assert(s[5] == pay[0]);
    match v {
        ValueModel::Int(x) => {
            assert(s.subrange(6, 14) =~= spec_le8(x as u64));
            lemma_le8_inverse(x as u64);
            assert(spec_u64_of_le(spec_le8(x as u64)) as i64 == x) by (bit_vector);
        },
        ValueModel::Str(t) => {
            let u = encode_utf8(t);
            assert(s.subrange(6, 10) =~= spec_le4(u.len() as u32));
            lemma_le4_inverse(u.len() as u32);
            assert(s.subrange(10, 10 + u.len() as int) =~= u);
            vstd::utf8::encode_utf8_valid_utf8(t);
            vstd::utf8::encode_utf8_decode_utf8(t);
        },
        ValueModel::Blob(b) => {
            assert(s.subrange(6, 10) =~= spec_le4(b.len() as u32));
            lemma_le4_inverse(b.len() as u32);
            assert(s.subrange(10, 10 + b.len() as int) =~= b);
        },
        ValueModel::InfMin => {},
        ValueModel::InfMax => {},
        ValueModel::AutoIncr => {},
    }
}

/// Decoding an encoded attribute value yields the value.
proof fn lemma_rt_attr_val(v: AttrValueModel, rest: Seq<u8>)
    requires
        wf_attr_value(v),
    ensures
        dec_attr_val(enc_attr_val(v) + rest) == Some((v, enc_attr_val(v).len() as int)),
{
    let pay = attr_val_payload(v);
    let s = enc_attr_val(v) + rest;
    assert(s[0] == TAG_CELL_VALUE);
    assert(s.subrange(1, 5) =~= spec_le4(pay.len() as u32));
    lemma_le4_inverse(pay.len() as u32);
    assert(s[5] == pay[0]);
    match v {
        AttrValueModel::Int(x) => {
            assert(s.subrange(6, 14) =~= spec_le8(x as u64));
            lemma_le8_inverse(x as u64);
            assert(spec_u64_of_le(spec_le8(x as u64)) as i64 == x) by (bit_vector);
        },
        AttrValueModel::Str(t) => {
            let u = encode_utf8(t);
            assert(s.subrange(6, 10) =~= spec_le4(u.len() as u32));
            lemma_le4_inverse(u.len() as u32);
            assert(s.subrange(10, 10 + u.len() as int) =~= u);
            vstd::utf8::encode_utf8_valid_utf8(t);
            vstd::utf8::encode_utf8_decode_utf8(t);
        },
        AttrValueModel::Blob(b) => {
            assert(s.subrange(6, 10) =~= spec_le4(b.len() as u32));
            lemma_le4_inverse(b.len() as u32);
            assert(s.subrange(10, 10 + b.len() as int) =~= b);
        },
        AttrValueModel::Bool(b) => {
            assert(s[6] == pay[1]);
        },
        AttrValueModel::Float(bits) => {
            assert(s.subrange(6, 14) =~= spec_le8(bits));
            lemma_le8_inverse(bits);
        },
    }
}

/// Decoding an encoded key cell yields the cell.
proof fn lemma_rt_col(c: ColumnModel, rest: Seq<u8>)
    requires
        wf_col(c),
    ensures
        dec_col(enc_col(c) + rest) == Some((c, enc_col(c).len() as int)),
{
    let s = enc_col(c) + rest;
    let a = enc_name(c.name).len() as int;
    let b = enc_val(c.value).len() as int;
    assert(s[0] == TAG_CELL);
    assert(s.skip(1) =~= enc_name(c.name) + (enc_val(c.value) + seq![
        TAG_CELL_CHECKSUM,
        cell_chk(c),
    ] + rest));
    lemma_rt_name(c.name, enc_val(c.value) + seq![TAG_CELL_CHECKSUM, cell_chk(c)] + rest);
    assert(s.skip(1 + a) =~= enc_val(c.value) + (seq![TAG_CELL_CHECKSUM, cell_chk(c)] + rest));
    lemma_rt_val(c.value, seq![TAG_CELL_CHECKSUM, cell_chk(c)] + rest);
    assert(s[1 + a + b] == TAG_CELL_CHECKSUM);
    assert(s[1 + a + b + 1] == cell_chk(c));
    assert(c == (ColumnModel { name: c.name, value: c.value }));
}

/// Decoding encoded key cells, followed by anything that does not open
/// another cell, yields the cells.
proof fn lemma_rt_cols(cs: Seq<ColumnModel>, rest: Seq<u8>)
    requires
        wf_cols(cs),
        rest.len() == 0 || rest[0] != TAG_CELL,
    ensures
        dec_cols(enc_cols(cs) + rest) == Some((cs, enc_cols(cs).len() as int)),
    decreases cs.len(),
{
    let s = enc_cols(cs) + rest;
    if cs.len() == 0 {
        assert(s =~= rest);
        assert(cs =~= Seq::<ColumnModel>::empty());
    } else {
        let c = cs[0];
        assert(wf_col(c));
        let tail = cs.drop_first();
        assert(enc_cols(cs) =~= enc_col(c) + enc_cols(tail));
        assert(s =~= enc_col(c) + (enc_cols(tail) + rest));
        lemma_rt_col(c, enc_cols(tail) + rest);
        assert(s[0] == TAG_CELL);
        let n = enc_col(c).len() as int;
        assert(1 <= n <= s.len());
        assert(s.skip(n) =~= enc_cols(tail) + rest);
        assert(wf_cols(tail));
        lemma_rt_cols(tail, rest);
        assert(seq![c] + tail =~= cs);
    }
}

/// Decoding an encoded attribute cell yields the cell.
proof fn lemma_rt_attr(a: AttrModel, rest: Seq<u8>)
    requires
        wf_attr(a),
    ensures
        dec_attr(enc_attr(a) + rest) == Some((a, enc_attr(a).len() as int)),
{
    let s = enc_attr(a) + rest;
    let na = enc_name(a.name).len() as int;
    let vb = enc_attr_val(a.value).len() as int;
    let tsb = match a.ts {
        Some(t) => seq![TAG_CELL_TIMESTAMP] + spec_le8(t as u64),
        None => Seq::<u8>::empty(),
    };
    assert(s[0] == TAG_CELL);
    assert(s.skip(1) =~= enc_name(a.name) + (enc_attr_val(a.value) + tsb + seq![
        TAG_CELL_CHECKSUM,
        attr_chk(a),
    ] + rest));
    lemma_rt_name(a.name, enc_attr_val(a.value) + tsb + seq![TAG_CELL_CHECKSUM, attr_chk(a)]
        + rest);
    assert(s.skip(1 + na) =~= enc_attr_val(a.value) + (tsb + seq![TAG_CELL_CHECKSUM, attr_chk(a)]
        + rest));
    lemma_rt_attr_val(a.value, tsb + seq![TAG_CELL_CHECKSUM, attr_chk(a)] + rest);
    let p = 1 + na + vb;
    match a.ts {
        Some(t) => {
            assert(s[p] == TAG_CELL_TIMESTAMP);
            assert(s.subrange(p + 1, p + 9) =~= spec_le8(t as u64));
            lemma_le8_inverse(t as u64);
            assert(spec_u64_of_le(spec_le8(t as u64)) as i64 == t) by (bit_vector);
            assert(s[p + 9] == TAG_CELL_CHECKSUM);
            assert(s[p + 10] == attr_chk(a));
            assert(a == (AttrModel { name: a.name, value: a.value, ts: a.ts }));
        },
        None => {
            assert(s[p] == TAG_CELL_CHECKSUM);
            assert(s[p + 1] == attr_chk(a));
            assert(a == (AttrModel { name: a.name, value: a.value, ts: a.ts }));
        },
    }
}

/// Decoding encoded attribute cells, followed by anything that does not
/// open another cell, yields the cells.
#[verifier::rlimit(80)]
proof fn lemma_rt_attrs(attrs: Seq<AttrModel>, rest: Seq<u8>)
    requires
        wf_attrs(attrs),
        rest.len() == 0 || rest[0] != TAG_CELL,
    ensures
        dec_attrs(enc_attrs(attrs) + rest) == Some((attrs, enc_attrs(attrs).len() as int)),
    decreases attrs.len(),
{
    let s = enc_attrs(attrs) + rest;
    if attrs.len() == 0 {
        assert(s =~= rest);
        assert(attrs =~= Seq::<AttrModel>::empty());
    } else {
        let a = attrs[0];
        assert(wf_attr(a));
        let tail = attrs.drop_first();
        assert(enc_attrs(attrs) =~= enc_attr(a) + enc_attrs(tail));
        assert(s =~= enc_attr(a) + (enc_attrs(tail) + rest));
        lemma_rt_attr(a, enc_attrs(tail) + rest);
        assert(s[0] == TAG_CELL);
        let n = enc_attr(a).len() as int;
        assert(1 <= n <= s.len());
        assert(s.skip(n) =~= enc_attrs(tail) + rest);
        assert(wf_attrs(tail));
        lemma_rt_attrs(tail, rest);
        assert(seq![a] + tail =~= attrs);
    }
}

/// Decoding an encoded row yields the row.
#[verifier::rlimit(80)]
proof fn lemma_rt_row(r: RowModel, rest: Seq<u8>)
    requires
        wf_row(r),
    ensures
        dec_row(enc_row(r) + rest) == Some((r, enc_row(r).len() as int)),
{
    let s = enc_row(r) + rest;
    let chk_tail = seq![TAG_ROW_CHECKSUM, super::spec::row_chk(r)];
    if r.attrs.len() == 0 {
        assert(enc_row(r) =~= enc_key(r.key) + chk_tail);
        assert(s =~= seq![TAG_ROW_KEY] + (enc_cols(r.key) + (chk_tail + rest)));
        assert(s[0] == TAG_ROW_KEY);
        assert(s.skip(1) =~= enc_cols(r.key) + (chk_tail + rest));
        assert((chk_tail + rest)[0] == TAG_ROW_CHECKSUM);
        lemma_rt_cols(r.key, chk_tail + rest);
        let p = 1 + enc_cols(r.key).len() as int;
        assert(dec_key(s) == Some((r.key, p)));
        assert(s[p] == TAG_ROW_CHECKSUM);
        assert(s[p] != TAG_ROW_DATA);
        assert(s[p + 1] == super::spec::row_chk(r));
        assert(r == (RowModel { key: r.key, attrs: r.attrs }));
        assert(r.attrs =~= Seq::<AttrModel>::empty());
    } else {
        let ab = seq![TAG_ROW_DATA] + enc_attrs(r.attrs);
        assert(enc_row(r) =~= enc_key(r.key) + ab + chk_tail);
        assert(s =~= seq![TAG_ROW_KEY] + (enc_cols(r.key) + (ab + chk_tail + rest)));
        assert(s[0] == TAG_ROW_KEY);
        assert(s.skip(1) =~= enc_cols(r.key) + (ab + chk_tail + rest));
        assert((ab + chk_tail + rest)[0] == TAG_ROW_DATA);
        assert(TAG_ROW_DATA != TAG_CELL);
        lemma_rt_cols(r.key, ab + chk_tail + rest);
        let p = 1 + enc_cols(r.key).len() as int;
        assert(dec_key(s) == Some((r.key, p)));
        assert(s[p] == TAG_ROW_DATA);
        assert(s.skip(p + 1) =~= enc_attrs(r.attrs) + (chk_tail + rest));
        assert((chk_tail + rest)[0] == TAG_ROW_CHECKSUM);
        lemma_rt_attrs(r.attrs, chk_tail + rest);
        let q = p + 1 + enc_attrs(r.attrs).len() as int;
        assert(s[q] == TAG_ROW_CHECKSUM);
        assert(s[q + 1] == super::spec::row_chk(r));
        assert(r == (RowModel { key: r.key, attrs: r.attrs }));
    }
}

/// Decoding an encoded row batch yields the rows.
proof fn lemma_rt_rows(rs: Seq<RowModel>)
    requires
        wf_rows(rs),
    ensures
        dec_rows(enc_rows(rs)) == Some(rs),
    decreases rs.len(),
{
    let s = enc_rows(rs);
    if rs.len() == 0 {
        assert(s =~= Seq::<u8>::empty());
        assert(rs =~= Seq::<RowModel>::empty());
    } else {
        let r = rs[0];
        assert(wf_row(r));
        let tail = rs.drop_first();
        assert(s =~= enc_row(r) + enc_rows(tail));
        lemma_rt_row(r, enc_rows(tail));
        let n = enc_row(r).len() as int;
        assert(s.len() > 0);
        assert(1 <= n <= s.len());
        assert(s.skip(n) =~= enc_rows(tail));
        assert(wf_rows(tail));
        lemma_rt_rows(tail);
        assert(seq![r] + tail =~= rs);
    }
}

/// Codec round trip for one row: encoding then decoding yields an equal
/// row, and decoding succeeds at all only because the embedded CRC8,
/// recomputed on decode, equals the one written.
pub proof fn lemma_row_codec_round_trip(r: RowModel)
    requires
        wf_row(r),
    ensures
        dec_pbuf_row(enc_pbuf_row(r)) == Some(r),
{
    let s = enc_pbuf_row(r);
    assert(s.subrange(0, 4) =~= spec_le4(HEADER));
    lemma_le4_inverse(HEADER);
    assert(s.skip(4) =~= enc_row(r) + Seq::<u8>::empty());
    lemma_rt_row(r, Seq::<u8>::empty());
}

/// Codec round trip for a row batch.
pub proof fn lemma_rows_codec_round_trip(rs: Seq<RowModel>)
    requires
        wf_rows(rs),
    ensures
        dec_pbuf_rows(enc_pbuf_rows(rs)) == Some(rs),
{
    let s = enc_pbuf_rows(rs);
    assert(s.subrange(0, 4) =~= spec_le4(HEADER));
    lemma_le4_inverse(HEADER);
    assert(s.skip(4) =~= enc_rows(rs));
    lemma_rt_rows(rs);
}

/// Codec round trip for a boundary key, sentinels included.
pub proof fn lemma_key_codec_round_trip(cs: Seq<ColumnModel>)
    requires
        wf_cols(cs),
    ensures
        dec_pbuf_key(enc_pbuf_key(cs)) == Some(cs),
{
    let s = enc_pbuf_key(cs);
    assert(s.subrange(0, 4) =~= spec_le4(HEADER));
    lemma_le4_inverse(HEADER);
    assert(s.skip(4) =~= seq![TAG_ROW_KEY] + (enc_cols(cs) + Seq::<u8>::empty()));
    assert(s.skip(4)[0] == TAG_ROW_KEY);
    assert(s.skip(4).skip(1) =~= enc_cols(cs) + Seq::<u8>::empty());
    lemma_rt_cols(cs, Seq::<u8>::empty());
}

} // verus!
