//! The executable binary row codec, proved against the spec-level layout
//! in `spec`: encoders append exactly the specified bytes and fold the
//! specified checksums; decoders return exactly what the spec-level
//! decoder returns, and fail without partial output where it fails.

use vstd::prelude::*;
use vstd::utf8::encode_utf8;
use vstd::slice::{slice_subrange, slice_to_vec};
use crate::crc8::{
    crc8_u8, crc8_u32, crc8_u64, crc8_blob, spec_crc8, spec_crc8_bytes, spec_le4, spec_le8,
    lemma_crc8_bytes_concat, lemma_crc8_one,
};
use crate::error::{Error, ErrorCode};
use crate::types::common::Name;
use crate::types::rowkey::{
    RowKeyValue, ExtendedRowKeyValue, RowKeyColumn, ExtendedRowKeyColumn, ExtendedRowKey,
    ColumnModel,
};
use crate::types::attr::{AttrValue, Attribute, AttrTimestamp, AttrModel};
use crate::types::row::{Row, RowModel};
use super::consts::{
    HEADER, TAG_ROW_KEY, TAG_ROW_DATA, TAG_CELL, TAG_CELL_NAME, TAG_CELL_VALUE,
    TAG_CELL_TIMESTAMP, TAG_ROW_CHECKSUM, TAG_CELL_CHECKSUM, VT_INTEGER, VT_DOUBLE, VT_BOOLEAN,
    VT_STRING, VT_BLOB, VT_INF_MIN, VT_INF_MAX, VT_AUTO_INCREMENT,
};
use super::spec::{
    dec_name, dec_val, dec_col, dec_cols, dec_key, dec_attr_val, dec_attr, dec_attrs, dec_row,
    dec_rows, dec_pbuf_row, dec_pbuf_rows, dec_pbuf_key, spec_u32_of_le, spec_u64_of_le, wf_text, wf_value, wf_col, wf_cols, wf_attr_value, wf_attr,
    wf_attrs, wf_row, wf_rows, enc_name, val_payload, enc_val, cell_chk, enc_col, enc_cols,
    cols_chk, enc_key, attr_val_payload, enc_attr_val, attr_chk, enc_attr, enc_attrs, attrs_chk,
    row_chk, enc_row, enc_rows, enc_pbuf_row, enc_pbuf_rows, enc_pbuf_key, attr_chk_bytes,
    lemma_enc_cols_push, lemma_cols_chk_push, lemma_enc_attrs_push, lemma_attrs_chk_push,
    lemma_enc_rows_push, concrete_cols,
};

verus! {

/// Appends one byte.
fn put_u8(out: &mut Vec<u8>, b: u8)
    ensures
        final(out)@ == old(out)@ + seq![b],
{
    out.push(b);
    proof {
        assert(out@ =~= old(out)@ + seq![b]);
    }
}

/// Appends the four little-endian bytes of `v`.
fn put_le4(out: &mut Vec<u8>, v: u32)
    ensures
        final(out)@ == old(out)@ + spec_le4(v),
{
    out.push(v as u8);
    out.push((v >> 8u32) as u8);
    out.push((v >> 16u32) as u8);
    out.push((v >> 24u32) as u8);
    proof {
        assert(out@ =~= old(out)@ + spec_le4(v));
    }
}

/// Appends the eight little-endian bytes of `v`.
fn put_le8(out: &mut Vec<u8>, v: u64)
    ensures
        final(out)@ == old(out)@ + spec_le8(v),
{
    out.push(v as u8);
    out.push((v >> 8u64) as u8);
    out.push((v >> 16u64) as u8);
    out.push((v >> 24u64) as u8);
    out.push((v >> 32u64) as u8);
    out.push((v >> 40u64) as u8);
    out.push((v >> 48u64) as u8);
    out.push((v >> 56u64) as u8);
    proof {
        assert(out@ =~= old(out)@ + spec_le8(v));
    }
}

/// Appends a whole byte slice.
fn put_bytes(out: &mut Vec<u8>, b: &[u8])
    ensures
        final(out)@ == old(out)@ + b@,
{
    let mut i: usize = 0;
    while i < b.len()
        invariant
            i <= b@.len(),
            out@ =~= old(out)@ + b@.take(i as int),
        decreases b@.len() - i,
    {
        out.push(b[i]);
        i = i + 1;
        proof {
            assert(out@ =~= old(out)@ + b@.take(i as int));
        }
    }
    proof {
        assert(old(out)@ + b@.take(b@.len() as int) =~= old(out)@ + b@);
    }
}

/// Writes a cell name: tag, UTF-8 length, UTF-8 bytes; folds the name
/// bytes into the cell checksum.
fn s_name(name: &Name, out: &mut Vec<u8>, chk: &mut u8)
    requires
        wf_text(name@),
    ensures
        final(out)@ == old(out)@ + enc_name(name@),
        *final(chk) == spec_crc8_bytes(*old(chk), encode_utf8(name@)),
{
    let bytes = name.as_str().as_bytes();
    put_u8(out, TAG_CELL_NAME);
    put_le4(out, bytes.len() as u32);
    put_bytes(out, bytes);
    crc8_blob(chk, bytes);
    proof {
        assert(out@ =~= old(out)@ + enc_name(name@));
    }
}

/// Writes an integer cell-value payload; folds it into the checksum.
fn s_payload_int(x: i64, out: &mut Vec<u8>, chk: &mut u8)
    ensures
        final(out)@ == old(out)@ + (seq![VT_INTEGER] + spec_le8(x as u64)),
        *final(chk) == spec_crc8_bytes(*old(chk), seq![VT_INTEGER] + spec_le8(x as u64)),
{
    put_u8(out, VT_INTEGER);
    put_le8(out, x as u64);
    crc8_u8(chk, VT_INTEGER);
    crc8_u64(chk, x as u64);
    proof {
        assert(out@ =~= old(out)@ + (seq![VT_INTEGER] + spec_le8(x as u64)));
        lemma_crc8_bytes_concat(*old(chk), seq![VT_INTEGER], spec_le8(x as u64));
        lemma_crc8_one(*old(chk), VT_INTEGER);
    }
}

/// Writes a string cell-value payload; folds it into the checksum.
fn s_payload_str(s: &String, out: &mut Vec<u8>, chk: &mut u8)
    requires
        wf_text(s@),
    ensures
        final(out)@ == old(out)@ + (seq![VT_STRING] + spec_le4(encode_utf8(s@).len() as u32)
            + encode_utf8(s@)),
        *final(chk) == spec_crc8_bytes(
            *old(chk),
            seq![VT_STRING] + spec_le4(encode_utf8(s@).len() as u32) + encode_utf8(s@),
        ),
{
    let bytes = s.as_str().as_bytes();
    put_u8(out, VT_STRING);
    put_le4(out, bytes.len() as u32);
    put_bytes(out, bytes);
    crc8_u8(chk, VT_STRING);
    crc8_u32(chk, bytes.len() as u32);
    crc8_blob(chk, bytes);
    proof {
        let pay = seq![VT_STRING] + spec_le4(encode_utf8(s@).len() as u32) + encode_utf8(s@);
        assert(out@ =~= old(out)@ + pay);
        lemma_crc8_bytes_concat(
            *old(chk),
            seq![VT_STRING] + spec_le4(encode_utf8(s@).len() as u32),
            encode_utf8(s@),
        );
        lemma_crc8_bytes_concat(
            *old(chk),
            seq![VT_STRING],
            spec_le4(encode_utf8(s@).len() as u32),
        );
        lemma_crc8_one(*old(chk), VT_STRING);
        assert(seq![VT_STRING] + spec_le4(encode_utf8(s@).len() as u32) + encode_utf8(s@) =~= (
        seq![VT_STRING] + spec_le4(encode_utf8(s@).len() as u32)) + encode_utf8(s@));
    }
}

/// Writes a blob cell-value payload; folds it into the checksum.
fn s_payload_blob(b: &Vec<u8>, out: &mut Vec<u8>, chk: &mut u8)
    requires
        b@.len() + 5 <= 0xFFFF_FFFF,
    ensures
        final(out)@ == old(out)@ + (seq![VT_BLOB] + spec_le4(b@.len() as u32) + b@),
        *final(chk) == spec_crc8_bytes(
            *old(chk),
            seq![VT_BLOB] + spec_le4(b@.len() as u32) + b@,
        ),
{
    put_u8(out, VT_BLOB);
    put_le4(out, b.len() as u32);
    put_bytes(out, b.as_slice());
    crc8_u8(chk, VT_BLOB);
    crc8_u32(chk, b.len() as u32);
    crc8_blob(chk, b.as_slice());
    proof {
        let pay = seq![VT_BLOB] + spec_le4(b@.len() as u32) + b@;
        assert(out@ =~= old(out)@ + pay);
        lemma_crc8_bytes_concat(*old(chk), seq![VT_BLOB] + spec_le4(b@.len() as u32), b@);
        lemma_crc8_bytes_concat(*old(chk), seq![VT_BLOB], spec_le4(b@.len() as u32));
        lemma_crc8_one(*old(chk), VT_BLOB);
        assert(seq![VT_BLOB] + spec_le4(b@.len() as u32) + b@ =~= (seq![VT_BLOB] + spec_le4(
            b@.len() as u32,
        )) + b@);
    }
}

/// Writes a boundary key cell value: tag, declared length, payload;
/// folds the payload into the cell checksum.
fn s_val(v: &ExtendedRowKeyValue, out: &mut Vec<u8>, chk: &mut u8)
    requires
        wf_value(v@),
    ensures
        final(out)@ == old(out)@ + enc_val(v@),
        *final(chk) == spec_crc8_bytes(*old(chk), val_payload(v@)),
{
    put_u8(out, TAG_CELL_VALUE);
    match v {
        ExtendedRowKeyValue::Int(x) => {
            put_le4(out, 9);
            s_payload_int(*x, out, chk);
        },
        ExtendedRowKeyValue::Str(s) => {
            let bytes_len = s.as_str().as_bytes().len();
            put_le4(out, (bytes_len + 5) as u32);
            s_payload_str(s, out, chk);
        },
        ExtendedRowKeyValue::Blob(b) => {
            put_le4(out, (b.len() + 5) as u32);
            s_payload_blob(b, out, chk);
        },
        ExtendedRowKeyValue::InfMin => {
            put_le4(out, 1);
            put_u8(out, VT_INF_MIN);
            crc8_u8(chk, VT_INF_MIN);
            proof {
                lemma_crc8_one(*old(chk), VT_INF_MIN);
            }
        },
        ExtendedRowKeyValue::InfMax => {
            put_le4(out, 1);
            put_u8(out, VT_INF_MAX);
            crc8_u8(chk, VT_INF_MAX);
            proof {
                lemma_crc8_one(*old(chk), VT_INF_MAX);
            }
        },
        ExtendedRowKeyValue::AutoIncr => {
            put_le4(out, 1);
            put_u8(out, VT_AUTO_INCREMENT);
            crc8_u8(chk, VT_AUTO_INCREMENT);
            proof {
                lemma_crc8_one(*old(chk), VT_AUTO_INCREMENT);
            }
        },
    }
    proof {
        assert(out@ =~= old(out)@ + enc_val(v@));
    }
}

/// Writes a stored-row key cell value; same layout as the boundary form,
/// restricted to concrete values.
fn s_val_rk(v: &RowKeyValue, out: &mut Vec<u8>, chk: &mut u8)
    requires
        wf_value(v@),
    ensures
        final(out)@ == old(out)@ + enc_val(v@),
        *final(chk) == spec_crc8_bytes(*old(chk), val_payload(v@)),
{
    put_u8(out, TAG_CELL_VALUE);
    match v {
        RowKeyValue::Int(x) => {
            put_le4(out, 9);
            s_payload_int(*x, out, chk);
        },
        RowKeyValue::Str(s) => {
            let bytes_len = s.as_str().as_bytes().len();
            put_le4(out, (bytes_len + 5) as u32);
            s_payload_str(s, out, chk);
        },
        RowKeyValue::Blob(b) => {
            put_le4(out, (b.len() + 5) as u32);
            s_payload_blob(b, out, chk);
        },
    }
    proof {
        assert(out@ =~= old(out)@ + enc_val(v@));
    }
}

/// Writes one boundary key cell and folds its checksum byte into the
/// row checksum.
fn s_col(c: &ExtendedRowKeyColumn, out: &mut Vec<u8>, rowchk: &mut u8)
    requires
        wf_col(c@),
    ensures
        final(out)@ == old(out)@ + enc_col(c@),
        *final(rowchk) == spec_crc8(*old(rowchk), cell_chk(c@)),
{
    let mut cell: u8 = 0;
    put_u8(out, TAG_CELL);
    s_name(&c.name, out, &mut cell);
    s_val(&c.value, out, &mut cell);
    proof {
        lemma_crc8_bytes_concat(0, encode_utf8(c.name@), val_payload(c.value@));
    }
    put_u8(out, TAG_CELL_CHECKSUM);
    put_u8(out, cell);
    crc8_u8(rowchk, cell);
    proof {
        assert(out@ =~= old(out)@ + enc_col(c@));
    }
}

/// Writes one stored-row key cell and folds its checksum byte into the
/// row checksum.
fn s_col_rk(c: &RowKeyColumn, out: &mut Vec<u8>, rowchk: &mut u8)
    requires
        wf_col(c@),
    ensures
        final(out)@ == old(out)@ + enc_col(c@),
        *final(rowchk) == spec_crc8(*old(rowchk), cell_chk(c@)),
{
    let mut cell: u8 = 0;
    put_u8(out, TAG_CELL);
    s_name(&c.name, out, &mut cell);
    s_val_rk(&c.value, out, &mut cell);
    proof {
        lemma_crc8_bytes_concat(0, encode_utf8(c.name@), val_payload(c.value@));
    }
    put_u8(out, TAG_CELL_CHECKSUM);
    put_u8(out, cell);
    crc8_u8(rowchk, cell);
    proof {
        assert(out@ =~= old(out)@ + enc_col(c@));
    }
}

/// Writes a whole boundary key: its tag, then its cells; folds the
/// cells' checksum bytes into the row checksum.
fn s_key(cols: &Vec<ExtendedRowKeyColumn>, out: &mut Vec<u8>, rowchk: &mut u8)
    requires
        wf_cols(cols.deep_view()),
    ensures
        final(out)@ == old(out)@ + enc_key(cols.deep_view()),
        *final(rowchk) == spec_crc8_bytes(*old(rowchk), cols_chk(cols.deep_view())),
{
    let ghost dv = cols.deep_view();
    put_u8(out, TAG_ROW_KEY);
    let mut i: usize = 0;
    proof {
        assert(dv.take(0) =~= Seq::<ColumnModel>::empty());
    }
    while i < cols.len()
        invariant
            i <= cols@.len(),
            dv == cols.deep_view(),
            wf_cols(dv),
            dv.len() == cols@.len(),
            out@ =~= old(out)@ + seq![TAG_ROW_KEY] + enc_cols(dv.take(i as int)),
            *rowchk == spec_crc8_bytes(*old(rowchk), cols_chk(dv.take(i as int))),
        decreases cols@.len() - i,
    {
        let ghost chk0 = *rowchk;
        s_col(&cols[i], out, rowchk);
        proof {
            assert(dv.take(i + 1) =~= dv.take(i as int).push(dv[i as int]));
            lemma_enc_cols_push(dv.take(i as int), dv[i as int]);
            lemma_cols_chk_push(dv.take(i as int), dv[i as int]);
            lemma_crc8_bytes_concat(
                *old(rowchk),
                cols_chk(dv.take(i as int)),
                seq![cell_chk(dv[i as int])],
            );
            lemma_crc8_one(chk0, cell_chk(dv[i as int]));
            assert(out@ =~= old(out)@ + seq![TAG_ROW_KEY] + enc_cols(dv.take(i + 1)));
        }
        i = i + 1;
    }
    proof {
        assert(dv.take(dv.len() as int) =~= dv);
        assert(old(out)@ + seq![TAG_ROW_KEY] + enc_cols(dv) =~= old(out)@ + enc_key(dv));
    }
}

/// Writes a stored-row key; same layout, concrete cells only.
fn s_key_rk(cols: &Vec<RowKeyColumn>, out: &mut Vec<u8>, rowchk: &mut u8)
    requires
        wf_cols(cols.deep_view()),
    ensures
        final(out)@ == old(out)@ + enc_key(cols.deep_view()),
        *final(rowchk) == spec_crc8_bytes(*old(rowchk), cols_chk(cols.deep_view())),
{
    let ghost dv = cols.deep_view();
    put_u8(out, TAG_ROW_KEY);
    let mut i: usize = 0;
    proof {
        assert(dv.take(0) =~= Seq::<ColumnModel>::empty());
    }
    while i < cols.len()
        invariant
            i <= cols@.len(),
            dv == cols.deep_view(),
            wf_cols(dv),
            dv.len() == cols@.len(),
            out@ =~= old(out)@ + seq![TAG_ROW_KEY] + enc_cols(dv.take(i as int)),
            *rowchk == spec_crc8_bytes(*old(rowchk), cols_chk(dv.take(i as int))),
        decreases cols@.len() - i,
    {
        let ghost chk0 = *rowchk;
        s_col_rk(&cols[i], out, rowchk);
        proof {
            assert(dv.take(i + 1) =~= dv.take(i as int).push(dv[i as int]));
            lemma_enc_cols_push(dv.take(i as int), dv[i as int]);
            lemma_cols_chk_push(dv.take(i as int), dv[i as int]);
            lemma_crc8_bytes_concat(
                *old(rowchk),
                cols_chk(dv.take(i as int)),
                seq![cell_chk(dv[i as int])],
            );
            lemma_crc8_one(chk0, cell_chk(dv[i as int]));
            assert(out@ =~= old(out)@ + seq![TAG_ROW_KEY] + enc_cols(dv.take(i + 1)));
        }
        i = i + 1;
    }
    proof {
        assert(dv.take(dv.len() as int) =~= dv);
        assert(old(out)@ + seq![TAG_ROW_KEY] + enc_cols(dv) =~= old(out)@ + enc_key(dv));
    }
}

/// Writes an attribute cell value: tag, declared length, payload; folds
/// the payload into the cell checksum.
fn s_attr_val(v: &AttrValue, out: &mut Vec<u8>, chk: &mut u8)
    requires
        wf_attr_value(v@),
    ensures
        final(out)@ == old(out)@ + enc_attr_val(v@),
        *final(chk) == spec_crc8_bytes(*old(chk), attr_val_payload(v@)),
{
    put_u8(out, TAG_CELL_VALUE);
    match v {
        AttrValue::Int(x) => {
            put_le4(out, 9);
            s_payload_int(*x, out, chk);
        },
        AttrValue::Str(s) => {
            let bytes_len = s.as_str().as_bytes().len();
            put_le4(out, (bytes_len + 5) as u32);
            s_payload_str(s, out, chk);
        },
        AttrValue::Blob(b) => {
            put_le4(out, (b.len() + 5) as u32);
            s_payload_blob(b, out, chk);
        },
        AttrValue::Bool(b) => {
            put_le4(out, 2);
            put_u8(out, VT_BOOLEAN);
            let x: u8 = if *b {
                1
            } else {
                0
            };
            put_u8(out, x);
            crc8_u8(chk, VT_BOOLEAN);
            crc8_u8(chk, x);
            proof {
                lemma_crc8_bytes_concat(*old(chk), seq![VT_BOOLEAN], seq![x]);
                lemma_crc8_one(*old(chk), VT_BOOLEAN);
                lemma_crc8_one(spec_crc8(*old(chk), VT_BOOLEAN), x);
                assert(attr_val_payload(v@) =~= seq![VT_BOOLEAN] + seq![x]);
            }
        },
        AttrValue::Float(bits) => {
            put_le4(out, 9);
            put_u8(out, VT_DOUBLE);
            put_le8(out, *bits);
            crc8_u8(chk, VT_DOUBLE);
            crc8_u64(chk, *bits);
            proof {
                lemma_crc8_bytes_concat(*old(chk), seq![VT_DOUBLE], spec_le8(*bits));
                lemma_crc8_one(*old(chk), VT_DOUBLE);
            }
        },
    }
    proof {
        assert(out@ =~= old(out)@ + enc_attr_val(v@));
    }
}

/// Writes one attribute cell, timestamp included when present; folds its
/// checksum byte into the row checksum.
fn s_attr(a: &Attribute, out: &mut Vec<u8>, rowchk: &mut u8)
    requires
        wf_attr(a@),
    ensures
        final(out)@ == old(out)@ + enc_attr(a@),
        *final(rowchk) == spec_crc8(*old(rowchk), attr_chk(a@)),
{
    let mut cell: u8 = 0;
    put_u8(out, TAG_CELL);
    s_name(&a.name, out, &mut cell);
    s_attr_val(&a.value, out, &mut cell);
    match &a.timestamp {
        AttrTimestamp::ClientAttach(t) => {
            put_u8(out, TAG_CELL_TIMESTAMP);
            let ms = t.to_millis();
            put_le8(out, ms as u64);
            crc8_u64(&mut cell, ms as u64);
            proof {
                lemma_crc8_bytes_concat(
                    0,
                    encode_utf8(a.name@) + attr_val_payload(a.value@),
                    spec_le8(ms as u64),
                );
                lemma_crc8_bytes_concat(0, encode_utf8(a.name@), attr_val_payload(a.value@));
                assert(attr_chk_bytes(a@) =~= (encode_utf8(a.name@) + attr_val_payload(a.value@))
                    + spec_le8(ms as u64));
            }
        },
        AttrTimestamp::ServerAttach => {
            proof {
                lemma_crc8_bytes_concat(0, encode_utf8(a.name@), attr_val_payload(a.value@));
                assert(attr_chk_bytes(a@) =~= encode_utf8(a.name@) + attr_val_payload(a.value@));
            }
        },
    }
    put_u8(out, TAG_CELL_CHECKSUM);
    put_u8(out, cell);
    crc8_u8(rowchk, cell);
    proof {
        assert(cell == attr_chk(a@));
        assert(out@ =~= old(out)@ + enc_attr(a@));
    }
}

/// Writes the attribute cells of a row, in order; folds their checksum
/// bytes into the row checksum.
fn s_attrs(attrs: &Vec<Attribute>, out: &mut Vec<u8>, rowchk: &mut u8)
    requires
        wf_attrs(attrs.deep_view()),
    ensures
        final(out)@ == old(out)@ + enc_attrs(attrs.deep_view()),
        *final(rowchk) == spec_crc8_bytes(*old(rowchk), attrs_chk(attrs.deep_view())),
{
    let ghost dv = attrs.deep_view();
    let mut i: usize = 0;
    proof {
        assert(dv.take(0) =~= Seq::<AttrModel>::empty());
        assert(out@ =~= old(out)@ + enc_attrs(dv.take(0)));
    }
    while i < attrs.len()
        invariant
            i <= attrs@.len(),
            dv == attrs.deep_view(),
            wf_attrs(dv),
            dv.len() == attrs@.len(),
            out@ =~= old(out)@ + enc_attrs(dv.take(i as int)),
            *rowchk == spec_crc8_bytes(*old(rowchk), attrs_chk(dv.take(i as int))),
        decreases attrs@.len() - i,
    {
        let ghost chk0 = *rowchk;
        s_attr(&attrs[i], out, rowchk);
        proof {
            assert(dv.take(i + 1) =~= dv.take(i as int).push(dv[i as int]));
            lemma_enc_attrs_push(dv.take(i as int), dv[i as int]);
            lemma_attrs_chk_push(dv.take(i as int), dv[i as int]);
            lemma_crc8_bytes_concat(
                *old(rowchk),
                attrs_chk(dv.take(i as int)),
                seq![attr_chk(dv[i as int])],
            );
            lemma_crc8_one(chk0, attr_chk(dv[i as int]));
            assert(out@ =~= old(out)@ + enc_attrs(dv.take(i + 1)));
        }
        i = i + 1;
    }
    proof {
        assert(dv.take(dv.len() as int) =~= dv);
    }
}

/// Writes one whole row: its key, the attribute block when any
/// attribute exists, and the row checksum.
fn s_row(row: &Row, out: &mut Vec<u8>)
    requires
        wf_row(row@),
    ensures
        final(out)@ == old(out)@ + enc_row(row@),
{
    let mut chk: u8 = 0;
    s_key_rk(&row.row_key.0, out, &mut chk);
    if row.attrs.len() > 0 {
        put_u8(out, TAG_ROW_DATA);
        s_attrs(&row.attrs, out, &mut chk);
    }
    proof {
        lemma_crc8_bytes_concat(0, cols_chk(row@.key), attrs_chk(row@.attrs));
        if row.attrs@.len() == 0 {
            assert(attrs_chk(row@.attrs) =~= Seq::<u8>::empty());
            assert(attrs_chk(Seq::<AttrModel>::empty()) == Seq::<u8>::empty());
        }
    }
    crc8_u8(&mut chk, 0);
    put_u8(out, TAG_ROW_CHECKSUM);
    put_u8(out, chk);
    proof {
        lemma_crc8_bytes_concat(0, cols_chk(row@.key) + attrs_chk(row@.attrs), seq![0u8]);
        lemma_crc8_one(spec_crc8_bytes(0, cols_chk(row@.key) + attrs_chk(row@.attrs)), 0u8);
        assert(chk == row_chk(row@));
        assert(out@ =~= old(out)@ + enc_row(row@));
    }
}

/// Encodes one row as a whole buffer: the magic header, then the row.
pub fn encode_row(row: &Row) -> (r: Vec<u8>)
    requires
        wf_row(row@),
    ensures
        r@ == enc_pbuf_row(row@),
{
    let mut out: Vec<u8> = Vec::new();
    put_le4(&mut out, HEADER);
    s_row(row, &mut out);
    proof {
        assert(out@ =~= enc_pbuf_row(row@));
    }
    out
}

/// Encodes a row batch as a whole buffer: the header once, then each
/// row's bytes.
pub fn encode_rows(rows: &Vec<Row>) -> (r: Vec<u8>)
    requires
        wf_rows(rows.deep_view()),
    ensures
        r@ == enc_pbuf_rows(rows.deep_view()),
{
    let ghost dv = rows.deep_view();
    let mut out: Vec<u8> = Vec::new();
    put_le4(&mut out, HEADER);
    let mut i: usize = 0;
    proof {
        assert(dv.take(0) =~= Seq::<RowModel>::empty());
        assert(out@ =~= spec_le4(HEADER) + enc_rows(dv.take(0)));
    }
    while i < rows.len()
        invariant
            i <= rows@.len(),
            dv == rows.deep_view(),
            wf_rows(dv),
            dv.len() == rows@.len(),
            out@ =~= spec_le4(HEADER) + enc_rows(dv.take(i as int)),
        decreases rows@.len() - i,
    {
        proof {
            assert(wf_row(dv[i as int]));
            assert(rows@[i as int]@ == dv[i as int]);
        }
        s_row(&rows[i], &mut out);
        proof {
            assert(dv.take(i + 1) =~= dv.take(i as int).push(dv[i as int]));
            lemma_enc_rows_push(dv.take(i as int), dv[i as int]);
            assert(out@ =~= spec_le4(HEADER) + enc_rows(dv.take(i + 1)));
        }
        i = i + 1;
    }
    proof {
        assert(dv.take(dv.len() as int) =~= dv);
    }
    out
}

/// Encodes a boundary key as a whole buffer: the header, then the key.
pub fn encode_ext_key(k: &ExtendedRowKey) -> (r: Vec<u8>)
    requires
        wf_cols(k@),
    ensures
        r@ == enc_pbuf_key(k@),
{
    let mut out: Vec<u8> = Vec::new();
    put_le4(&mut out, HEADER);
    let mut chk: u8 = 0;
    s_key(&k.0, &mut out, &mut chk);
    proof {
        assert(out@ =~= enc_pbuf_key(k@));
    }
    out
}

/// The corruption error every decoding failure reports.
fn corrupt<T>() -> (r: Result<T, Error>)
    ensures
        r matches Err(e) && e.code == ErrorCode::CorruptedResponse,
{
    Err(
        Error {
            code: ErrorCode::CorruptedResponse,
            message: String::new(),
        },
    )
}

/// Reads four little-endian bytes as a `u32`.
fn read_le4(buf: &[u8], pos: usize) -> (r: u32)
    requires
        pos + 4 <= buf@.len(),
    ensures
        r == spec_u32_of_le(buf@.subrange(pos as int, pos as int + 4)),
{
    let r = (buf[pos] as u32) | ((buf[pos + 1] as u32) << 8u32) | ((buf[pos + 2] as u32) << 16u32)
        | ((buf[pos + 3] as u32) << 24u32);
    proof {
        let s = buf@.subrange(pos as int, pos as int + 4);
        assert(s[0] == buf@[pos as int]);
        assert(s[1] == buf@[pos as int + 1]);
        assert(s[2] == buf@[pos as int + 2]);
        assert(s[3] == buf@[pos as int + 3]);
    }
    r
}

/// Reads eight little-endian bytes as a `u64`.
fn read_le8(buf: &[u8], pos: usize) -> (r: u64)
    requires
        pos + 8 <= buf@.len(),
    ensures
        r == spec_u64_of_le(buf@.subrange(pos as int, pos as int + 8)),
{
    let r = (buf[pos] as u64) | ((buf[pos + 1] as u64) << 8u64) | ((buf[pos + 2] as u64) << 16u64)
        | ((buf[pos + 3] as u64) << 24u64) | ((buf[pos + 4] as u64) << 32u64) | ((buf[pos
        + 5] as u64) << 40u64) | ((buf[pos + 6] as u64) << 48u64) | ((buf[pos + 7] as u64)
        << 56u64);
    proof {
        let s = buf@.subrange(pos as int, pos as int + 8);
        assert(s[0] == buf@[pos as int]);
        assert(s[1] == buf@[pos as int + 1]);
        assert(s[2] == buf@[pos as int + 2]);
        assert(s[3] == buf@[pos as int + 3]);
        assert(s[4] == buf@[pos as int + 4]);
        assert(s[5] == buf@[pos as int + 5]);
        assert(s[6] == buf@[pos as int + 6]);
        assert(s[7] == buf@[pos as int + 7]);
    }
    r
}

/// Reads a cell name.
fn d_name(buf: &[u8], pos: usize) -> (r: Result<(Name, usize), Error>)
    requires
        pos <= buf@.len(),
    ensures
        r matches Ok((n, p)) ==> pos < p <= buf@.len() && dec_name(buf@.skip(pos as int)) == Some(
            (n@, p - pos as int),
        ),
        r is Err ==> dec_name(buf@.skip(pos as int)) is None,
        r matches Err(e) ==> e.code == ErrorCode::CorruptedResponse,
{
    let ghost s = buf@.skip(pos as int);
    let rem = buf.len() - pos;
    if rem < 5 || buf[pos] != TAG_CELL_NAME {
        return corrupt();
    }
    let l = read_le4(buf, pos + 1);
    proof {
        assert(s.subrange(1, 5) =~= buf@.subrange(pos as int + 1, pos as int + 5));
        assert(s[0] == buf@[pos as int]);
    }
    if (l as usize) > rem - 5 {
        return corrupt();
    }
    let start = pos + 5;
    let end = start + (l as usize);
    let bytes = slice_to_vec(slice_subrange(buf, start, end));
    proof {
        assert(bytes@ =~= s.subrange(5, 5 + l as int));
    }
    match crate::strings::string_from_utf8(bytes) {
        Some(st) => {
            let n = Name::from_string(st);
            Ok((n, end))
        },
        None => corrupt(),
    }
}

/// Reads a boundary key cell value.
fn d_val(buf: &[u8], pos: usize) -> (r: Result<(ExtendedRowKeyValue, usize), Error>)
    requires
        pos <= buf@.len(),
    ensures
        r matches Ok((v, p)) ==> pos < p <= buf@.len() && dec_val(buf@.skip(pos as int)) == Some(
            (v@, p - pos as int),
        ),
        r is Err ==> dec_val(buf@.skip(pos as int)) is None,
        r matches Err(e) ==> e.code == ErrorCode::CorruptedResponse,
{
    let ghost s = buf@.skip(pos as int);
    let rem = buf.len() - pos;
    if rem < 6 || buf[pos] != TAG_CELL_VALUE {
        return corrupt();
    }
    let decl = read_le4(buf, pos + 1);
    let vt = buf[pos + 5];
    proof {
        assert(s.subrange(1, 5) =~= buf@.subrange(pos as int + 1, pos as int + 5));
        assert(s[0] == buf@[pos as int]);
        assert(s[5] == buf@[pos as int + 5]);
    }
    if vt == VT_INTEGER {
        if rem >= 14 && decl == 9 {
            let x = read_le8(buf, pos + 6);
            proof {
                assert(s.subrange(6, 14) =~= buf@.subrange(pos as int + 6, pos as int + 14));
            }
            Ok((ExtendedRowKeyValue::Int(x as i64), pos + 14))
        } else {
            corrupt()
        }
    } else if vt == VT_STRING {
        if rem < 10 {
            return corrupt();
        }
        let l = read_le4(buf, pos + 6);
        proof {
            assert(s.subrange(6, 10) =~= buf@.subrange(pos as int + 6, pos as int + 10));
        }
        if (l as usize) > rem - 10 || !(decl as u64 == l as u64 + 5) {
            return corrupt();
        }
        let start = pos + 10;
        let end = start + (l as usize);
        let bytes = slice_to_vec(slice_subrange(buf, start, end));
        proof {
            assert(bytes@ =~= s.subrange(10, 10 + l as int));
        }
        match crate::strings::string_from_utf8(bytes) {
            Some(st) => Ok((ExtendedRowKeyValue::Str(st), end)),
            None => corrupt(),
        }
    } else if vt == VT_BLOB {
        if rem < 10 {
            return corrupt();
        }
        let l = read_le4(buf, pos + 6);
        proof {
            assert(s.subrange(6, 10) =~= buf@.subrange(pos as int + 6, pos as int + 10));
        }
        if (l as usize) > rem - 10 || !(decl as u64 == l as u64 + 5) {
            return corrupt();
        }
        let start = pos + 10;
        let end = start + (l as usize);
        let bytes = slice_to_vec(slice_subrange(buf, start, end));
        proof {
            assert(bytes@ =~= s.subrange(10, 10 + l as int));
        }
        Ok((ExtendedRowKeyValue::Blob(bytes), end))
    } else if vt == VT_INF_MIN {
        if decl == 1 {
            Ok((ExtendedRowKeyValue::InfMin, pos + 6))
        } else {
            corrupt()
        }
    } else if vt == VT_INF_MAX {
        if decl == 1 {
            Ok((ExtendedRowKeyValue::InfMax, pos + 6))
        } else {
            corrupt()
        }
    } else if vt == VT_AUTO_INCREMENT {
        if decl == 1 {
            Ok((ExtendedRowKeyValue::AutoIncr, pos + 6))
        } else {
            corrupt()
        }
    } else {
        corrupt()
    }
}

/// Reads an attribute cell value.
fn d_attr_val(buf: &[u8], pos: usize) -> (r: Result<(AttrValue, usize), Error>)
    requires
        pos <= buf@.len(),
    ensures
        r matches Ok((v, p)) ==> pos < p <= buf@.len() && dec_attr_val(buf@.skip(pos as int))
            == Some((v@, p - pos as int)),
        r is Err ==> dec_attr_val(buf@.skip(pos as int)) is None,
        r matches Err(e) ==> e.code == ErrorCode::CorruptedResponse,
{
    let ghost s = buf@.skip(pos as int);
    let rem = buf.len() - pos;
    if rem < 6 || buf[pos] != TAG_CELL_VALUE {
        return corrupt();
    }
    let decl = read_le4(buf, pos + 1);
    let vt = buf[pos + 5];
    proof {
        assert(s.subrange(1, 5) =~= buf@.subrange(pos as int + 1, pos as int + 5));
        assert(s[0] == buf@[pos as int]);
        assert(s[5] == buf@[pos as int + 5]);
    }
    if vt == VT_INTEGER {
        if rem >= 14 && decl == 9 {
            let x = read_le8(buf, pos + 6);
            proof {
                assert(s.subrange(6, 14) =~= buf@.subrange(pos as int + 6, pos as int + 14));
            }
            Ok((AttrValue::Int(x as i64), pos + 14))
        } else {
            corrupt()
        }
    } else if vt == VT_STRING {
        if rem < 10 {
            return corrupt();
        }
        let l = read_le4(buf, pos + 6);
        proof {
            assert(s.subrange(6, 10) =~= buf@.subrange(pos as int + 6, pos as int + 10));
        }
        if (l as usize) > rem - 10 || !(decl as u64 == l as u64 + 5) {
            return corrupt();
        }
        let start = pos + 10;
        let end = start + (l as usize);
        let bytes = slice_to_vec(slice_subrange(buf, start, end));
        proof {
            assert(bytes@ =~= s.subrange(10, 10 + l as int));
        }
        match crate::strings::string_from_utf8(bytes) {
            Some(st) => Ok((AttrValue::Str(st), end)),
            None => corrupt(),
        }
    } else if vt == VT_BLOB {
        if rem < 10 {
            return corrupt();
        }
        let l = read_le4(buf, pos + 6);
        proof {
            assert(s.subrange(6, 10) =~= buf@.subrange(pos as int + 6, pos as int + 10));
        }
        if (l as usize) > rem - 10 || !(decl as u64 == l as u64 + 5) {
            return corrupt();
        }
        let start = pos + 10;
        let end = start + (l as usize);
        let bytes = slice_to_vec(slice_subrange(buf, start, end));
        proof {
            assert(bytes@ =~= s.subrange(10, 10 + l as int));
        }
        Ok((AttrValue::Blob(bytes), end))
    } else if vt == VT_BOOLEAN {
        if rem >= 7 && decl == 2 {
            let x = buf[pos + 6];
            proof {
                assert(s[6] == buf@[pos as int + 6]);
            }
            Ok((AttrValue::Bool(x > 0), pos + 7))
        } else {
            corrupt()
        }
    } else if vt == VT_DOUBLE {
        if rem >= 14 && decl == 9 {
            let x = read_le8(buf, pos + 6);
            proof {
                assert(s.subrange(6, 14) =~= buf@.subrange(pos as int + 6, pos as int + 14));
            }
            Ok((AttrValue::Float(x), pos + 14))
        } else {
            corrupt()
        }
    } else {
        corrupt()
    }
}

/// Refolds a key cell value's checksummed part from the decoded value.
fn fold_val_payload(v: &ExtendedRowKeyValue, chk: &mut u8)
    ensures
        *final(chk) == spec_crc8_bytes(*old(chk), val_payload(v@)),
{
    match v {
        ExtendedRowKeyValue::Int(x) => {
            crc8_u8(chk, VT_INTEGER);
            crc8_u64(chk, *x as u64);
            proof {
                lemma_crc8_bytes_concat(*old(chk), seq![VT_INTEGER], spec_le8(*x as u64));
                lemma_crc8_one(*old(chk), VT_INTEGER);
            }
        },
        ExtendedRowKeyValue::Str(st) => {
            let bytes = st.as_str().as_bytes();
            crc8_u8(chk, VT_STRING);
            crc8_u32(chk, bytes.len() as u32);
            crc8_blob(chk, bytes);
            proof {
                lemma_crc8_bytes_concat(
                    *old(chk),
                    seq![VT_STRING] + spec_le4(encode_utf8(st@).len() as u32),
                    encode_utf8(st@),
                );
                lemma_crc8_bytes_concat(
                    *old(chk),
                    seq![VT_STRING],
                    spec_le4(encode_utf8(st@).len() as u32),
                );
                lemma_crc8_one(*old(chk), VT_STRING);
                assert(val_payload(v@) =~= (seq![VT_STRING] + spec_le4(
                    encode_utf8(st@).len() as u32,
                )) + encode_utf8(st@));
            }
        },
        ExtendedRowKeyValue::Blob(b) => {
            crc8_u8(chk, VT_BLOB);
            crc8_u32(chk, b.len() as u32);
            crc8_blob(chk, b.as_slice());
            proof {
                lemma_crc8_bytes_concat(*old(chk), seq![VT_BLOB] + spec_le4(b@.len() as u32), b@);
                lemma_crc8_bytes_concat(*old(chk), seq![VT_BLOB], spec_le4(b@.len() as u32));
                lemma_crc8_one(*old(chk), VT_BLOB);
                assert(val_payload(v@) =~= (seq![VT_BLOB] + spec_le4(b@.len() as u32)) + b@);
            }
        },
        ExtendedRowKeyValue::InfMin => {
            crc8_u8(chk, VT_INF_MIN);
            proof {
                lemma_crc8_one(*old(chk), VT_INF_MIN);
            }
        },
        ExtendedRowKeyValue::InfMax => {
            crc8_u8(chk, VT_INF_MAX);
            proof {
                lemma_crc8_one(*old(chk), VT_INF_MAX);
            }
        },
        ExtendedRowKeyValue::AutoIncr => {
            crc8_u8(chk, VT_AUTO_INCREMENT);
            proof {
                lemma_crc8_one(*old(chk), VT_AUTO_INCREMENT);
            }
        },
    }
}

/// Refolds an attribute value's checksummed part from the decoded value.
fn fold_attr_val_payload(v: &AttrValue, chk: &mut u8)
    ensures
        *final(chk) == spec_crc8_bytes(*old(chk), attr_val_payload(v@)),
{
    match v {
        AttrValue::Int(x) => {
            crc8_u8(chk, VT_INTEGER);
            crc8_u64(chk, *x as u64);
            proof {
                lemma_crc8_bytes_concat(*old(chk), seq![VT_INTEGER], spec_le8(*x as u64));
                lemma_crc8_one(*old(chk), VT_INTEGER);
            }
        },
        AttrValue::Str(st) => {
            let bytes = st.as_str().as_bytes();
            crc8_u8(chk, VT_STRING);
            crc8_u32(chk, bytes.len() as u32);
            crc8_blob(chk, bytes);
            proof {
                lemma_crc8_bytes_concat(
                    *old(chk),
                    seq![VT_STRING] + spec_le4(encode_utf8(st@).len() as u32),
                    encode_utf8(st@),
                );
                lemma_crc8_bytes_concat(
                    *old(chk),
                    seq![VT_STRING],
                    spec_le4(encode_utf8(st@).len() as u32),
                );
                lemma_crc8_one(*old(chk), VT_STRING);
                assert(attr_val_payload(v@) =~= (seq![VT_STRING] + spec_le4(
                    encode_utf8(st@).len() as u32,
                )) + encode_utf8(st@));
            }
        },
        AttrValue::Blob(b) => {
            crc8_u8(chk, VT_BLOB);
            crc8_u32(chk, b.len() as u32);
            crc8_blob(chk, b.as_slice());
            proof {
                lemma_crc8_bytes_concat(*old(chk), seq![VT_BLOB] + spec_le4(b@.len() as u32), b@);
                lemma_crc8_bytes_concat(*old(chk), seq![VT_BLOB], spec_le4(b@.len() as u32));
                lemma_crc8_one(*old(chk), VT_BLOB);
                assert(attr_val_payload(v@) =~= (seq![VT_BLOB] + spec_le4(b@.len() as u32)) + b@);
            }
        },
        AttrValue::Bool(b) => {
            let x: u8 = if *b {
                1
            } else {
                0
            };
            crc8_u8(chk, VT_BOOLEAN);
            crc8_u8(chk, x);
            proof {
                lemma_crc8_bytes_concat(*old(chk), seq![VT_BOOLEAN], seq![x]);
                lemma_crc8_one(*old(chk), VT_BOOLEAN);
                lemma_crc8_one(spec_crc8(*old(chk), VT_BOOLEAN), x);
                assert(attr_val_payload(v@) =~= seq![VT_BOOLEAN] + seq![x]);
            }
        },
        AttrValue::Float(bits) => {
            crc8_u8(chk, VT_DOUBLE);
            crc8_u64(chk, *bits);
            proof {
                lemma_crc8_bytes_concat(*old(chk), seq![VT_DOUBLE], spec_le8(*bits));
                lemma_crc8_one(*old(chk), VT_DOUBLE);
            }
        },
    }
}

/// Reads one boundary key cell and checks its checksum byte; folds that
/// byte into the row checksum.
fn d_col(buf: &[u8], pos: usize, rowchk: &mut u8) -> (r: Result<(ExtendedRowKeyColumn, usize),
    Error>)
    requires
        pos <= buf@.len(),
    ensures
        r matches Ok((c, p)) ==> pos < p <= buf@.len() && dec_col(buf@.skip(pos as int)) == Some(
            (c@, p - pos as int),
        ) && *final(rowchk) == spec_crc8(*old(rowchk), cell_chk(c@)),
        r is Err ==> dec_col(buf@.skip(pos as int)) is None,
        r matches Err(e) ==> e.code == ErrorCode::CorruptedResponse,
{
    let ghost s = buf@.skip(pos as int);
    if pos >= buf.len() || buf[pos] != TAG_CELL {
        return corrupt();
    }
    proof {
        assert(s[0] == buf@[pos as int]);
        assert(s.skip(1) =~= buf@.skip(pos as int + 1));
    }
    let (n, p1) = match d_name(buf, pos + 1) {
        Ok(x) => x,
        Err(e) => {
            return Err(e);
        },
    };
    proof {
        assert(s.skip(1 + (p1 - pos - 1)) =~= buf@.skip(p1 as int));
    }
    let (v, p2) = match d_val(buf, p1) {
        Ok(x) => x,
        Err(e) => {
            return Err(e);
        },
    };
    let mut cell: u8 = 0;
    crc8_blob(&mut cell, n.as_str().as_bytes());
    fold_val_payload(&v, &mut cell);
    proof {
        lemma_crc8_bytes_concat(0, encode_utf8(n@), val_payload(v@));
    }
    if buf.len() - p2 < 2 {
        return corrupt();
    }
    proof {
        assert(s[p2 - pos as int] == buf@[p2 as int]);
        assert(s[p2 + 1 - pos as int] == buf@[p2 as int + 1]);
    }
    if buf[p2] != TAG_CELL_CHECKSUM {
        return corrupt();
    }
    if buf[p2 + 1] != cell {
        return corrupt();
    }
    crc8_u8(rowchk, cell);
    Ok((ExtendedRowKeyColumn { name: n, value: v }, p2 + 2))
}

/// Reads key cells until the next byte no longer opens a cell; folds
/// each cell's checksum byte into the row checksum.
fn d_cols(buf: &[u8], pos: usize, rowchk: &mut u8) -> (r: Result<
    (Vec<ExtendedRowKeyColumn>, usize),
    Error,
>)
    requires
        pos <= buf@.len(),
    ensures
        r matches Ok((cs, p)) ==> pos <= p <= buf@.len() && dec_cols(buf@.skip(pos as int))
            == Some((cs.deep_view(), p - pos as int)) && *final(rowchk) == spec_crc8_bytes(
            *old(rowchk),
            cols_chk(cs.deep_view()),
        ),
        r is Err ==> dec_cols(buf@.skip(pos as int)) is None,
        r matches Err(e) ==> e.code == ErrorCode::CorruptedResponse,
{
    let mut cur: usize = pos;
    let mut acc: Vec<ExtendedRowKeyColumn> = Vec::new();
    proof {
        assert(acc.deep_view() =~= Seq::<ColumnModel>::empty());
        if dec_cols(buf@.skip(pos as int)) is Some {
            let r0 = dec_cols(buf@.skip(pos as int))->Some_0;
            assert(acc.deep_view() + r0.0 =~= r0.0);
        }
        assert(cols_chk(Seq::<ColumnModel>::empty()) == Seq::<u8>::empty());
    }
    while cur < buf.len() && buf[cur] == TAG_CELL
        invariant
            pos <= cur <= buf@.len(),
            *rowchk == spec_crc8_bytes(*old(rowchk), cols_chk(acc.deep_view())),
            dec_cols(buf@.skip(cur as int)) is Some ==> {
                let r0 = dec_cols(buf@.skip(cur as int))->Some_0;
                dec_cols(buf@.skip(pos as int)) == Some(
                    (acc.deep_view() + r0.0, cur - pos + r0.1),
                )
            },
            dec_cols(buf@.skip(cur as int)) is None ==> dec_cols(buf@.skip(pos as int)) is None,
        decreases buf@.len() - cur,
    {
        let ghost scur = buf@.skip(cur as int);
        let ghost chk0 = *rowchk;
        let ghost acc0 = acc.deep_view();
        let rr = d_col(buf, cur, rowchk);
        match rr {
            Err(e) => {
                proof {
                    assert(scur[0] == buf@[cur as int]);
                    assert(dec_cols(scur) is None);
                }
                return Err(e);
            },
            Ok((c, p)) => {
                proof {
                    assert(scur[0] == buf@[cur as int]);
                    assert(scur.skip(p - cur as int) =~= buf@.skip(p as int));
                    assert(dec_col(scur) == Some((c@, p - cur as int)));
                    if dec_cols(buf@.skip(p as int)) is Some {
                        let r1 = dec_cols(buf@.skip(p as int))->Some_0;
                        assert(dec_cols(scur) == Some(
                            (seq![c@] + r1.0, (p - cur as int) + r1.1),
                        ));
                    } else {
                        assert(dec_cols(scur) is None);
                    }
                }
                acc.push(c);
                proof {
                    assert(acc.deep_view() =~= acc0.push(c@));
                    assert(acc0.push(c@) =~= acc0 + seq![c@]);
                    lemma_cols_chk_push(acc0, c@);
                    lemma_crc8_bytes_concat(*old(rowchk), cols_chk(acc0), seq![cell_chk(c@)]);
                    lemma_crc8_one(chk0, cell_chk(c@));
                    if dec_cols(buf@.skip(p as int)) is Some {
                        let r1 = dec_cols(buf@.skip(p as int))->Some_0;
                        assert((acc0 + seq![c@]) + r1.0 =~= acc0 + (seq![c@] + r1.0));
                    }
                }
                cur = p;
            },
        }
    }
    proof {
        let scur = buf@.skip(cur as int);
        if cur < buf@.len() {
            assert(scur[0] == buf@[cur as int]);
        }
        assert(dec_cols(scur) == Some((Seq::<ColumnModel>::empty(), 0int)));
        assert(acc.deep_view() + Seq::<ColumnModel>::empty() =~= acc.deep_view());
    }
    Ok((acc, cur))
}

/// Reads one attribute cell, its optional timestamp included, and
/// checks its checksum byte; folds that byte into the row checksum.
#[verifier::rlimit(80)]
fn d_attr(buf: &[u8], pos: usize, rowchk: &mut u8) -> (r: Result<(Attribute, usize), Error>)
    requires
        pos <= buf@.len(),
    ensures
        r matches Ok((a, p)) ==> pos < p <= buf@.len() && dec_attr(buf@.skip(pos as int)) == Some(
            (a@, p - pos as int),
        ) && *final(rowchk) == spec_crc8(*old(rowchk), attr_chk(a@)),
        r is Err ==> dec_attr(buf@.skip(pos as int)) is None,
        r matches Err(e) ==> e.code == ErrorCode::CorruptedResponse,
{
    let ghost s = buf@.skip(pos as int);
    if pos >= buf.len() || buf[pos] != TAG_CELL {
        return corrupt();
    }
    proof {
        assert(s[0] == buf@[pos as int]);
        assert(s.skip(1) =~= buf@.skip(pos as int + 1));
    }
    let (n, p1) = match d_name(buf, pos + 1) {
        Ok(x) => x,
        Err(e) => {
            return Err(e);
        },
    };
    proof {
        assert(s.skip(1 + (p1 - pos - 1)) =~= buf@.skip(p1 as int));
    }
    let (v, p2) = match d_attr_val(buf, p1) {
        Ok(x) => x,
        Err(e) => {
            return Err(e);
        },
    };
    let mut cell: u8 = 0;
    crc8_blob(&mut cell, n.as_str().as_bytes());
    fold_attr_val_payload(&v, &mut cell);
    let ghost p_rel = p2 - pos as int;
    let has_ts = p2 < buf.len() && buf[p2] == TAG_CELL_TIMESTAMP;
    proof {
        if p2 < buf@.len() {
            assert(s[p_rel] == buf@[p2 as int]);
        }
    }
    let (timestamp, q) = if has_ts {
        if buf.len() - p2 < 9 {
            return corrupt();
        }
        let t = read_le8(buf, p2 + 1);
        proof {
            assert(s.subrange(p_rel + 1, p_rel + 9) =~= buf@.subrange(
                p2 as int + 1,
                p2 as int + 9,
            ));
        }
        crc8_u64(&mut cell, t);
        proof {
            assert(t as i64 as u64 == t) by (bit_vector);
        }
        (AttrTimestamp::ClientAttach(crate::types::common::DateTime::from_millis(t as i64)), p2
            + 9)
    } else {
        (AttrTimestamp::ServerAttach, p2)
    };
    let a = Attribute { name: n, value: v, timestamp };
    proof {
        if a@.ts is Some {
            lemma_crc8_bytes_concat(
                0,
                encode_utf8(a@.name) + attr_val_payload(a@.value),
                spec_le8(a@.ts->Some_0 as u64),
            );
            lemma_crc8_bytes_concat(0, encode_utf8(a@.name), attr_val_payload(a@.value));
            assert(attr_chk_bytes(a@) =~= (encode_utf8(a@.name) + attr_val_payload(a@.value))
                + spec_le8(a@.ts->Some_0 as u64));
        } else {
            lemma_crc8_bytes_concat(0, encode_utf8(a@.name), attr_val_payload(a@.value));
            assert(attr_chk_bytes(a@) =~= encode_utf8(a@.name) + attr_val_payload(a@.value));
        }
        assert(cell == attr_chk(a@));
    }
    if buf.len() - q < 2 {
        return corrupt();
    }
    proof {
        assert(s[q - pos as int] == buf@[q as int]);
        assert(s[q + 1 - pos as int] == buf@[q as int + 1]);
    }
    if buf[q] != TAG_CELL_CHECKSUM {
        return corrupt();
    }
    if buf[q + 1] != cell {
        return corrupt();
    }
    crc8_u8(rowchk, cell);
    Ok((a, q + 2))
}

/// Reads attribute cells until the next byte no longer opens a cell;
/// folds each cell's checksum byte into the row checksum.
#[verifier::rlimit(80)]
fn d_attrs(buf: &[u8], pos: usize, rowchk: &mut u8) -> (r: Result<(Vec<Attribute>, usize), Error>)
    requires
        pos <= buf@.len(),
    ensures
        r matches Ok((attrs, p)) ==> pos <= p <= buf@.len() && dec_attrs(buf@.skip(pos as int))
            == Some((attrs.deep_view(), p - pos as int)) && *final(rowchk) == spec_crc8_bytes(
            *old(rowchk),
            attrs_chk(attrs.deep_view()),
        ),
        r is Err ==> dec_attrs(buf@.skip(pos as int)) is None,
        r matches Err(e) ==> e.code == ErrorCode::CorruptedResponse,
{
    let mut cur: usize = pos;
    let mut acc: Vec<Attribute> = Vec::new();
    proof {
        assert(acc.deep_view() =~= Seq::<AttrModel>::empty());
        if dec_attrs(buf@.skip(pos as int)) is Some {
            let r0 = dec_attrs(buf@.skip(pos as int))->Some_0;
            assert(acc.deep_view() + r0.0 =~= r0.0);
        }
        assert(attrs_chk(Seq::<AttrModel>::empty()) == Seq::<u8>::empty());
    }
    while cur < buf.len() && buf[cur] == TAG_CELL
        invariant
            pos <= cur <= buf@.len(),
            *rowchk == spec_crc8_bytes(*old(rowchk), attrs_chk(acc.deep_view())),
            dec_attrs(buf@.skip(cur as int)) is Some ==> {
                let r0 = dec_attrs(buf@.skip(cur as int))->Some_0;
                dec_attrs(buf@.skip(pos as int)) == Some(
                    (acc.deep_view() + r0.0, cur - pos + r0.1),
                )
            },
            dec_attrs(buf@.skip(cur as int)) is None ==> dec_attrs(buf@.skip(pos as int)) is None,
        decreases buf@.len() - cur,
    {
        let ghost scur = buf@.skip(cur as int);
        let ghost chk0 = *rowchk;
        let ghost acc0 = acc.deep_view();
        let rr = d_attr(buf, cur, rowchk);
        match rr {
            Err(e) => {
                proof {
                    assert(scur[0] == buf@[cur as int]);
                    assert(dec_attrs(scur) is None);
                }
                return Err(e);
            },
            Ok((a, p)) => {
                proof {
                    assert(scur[0] == buf@[cur as int]);
                    assert(scur.skip(p - cur as int) =~= buf@.skip(p as int));
                    assert(dec_attr(scur) == Some((a@, p - cur as int)));
                    if dec_attrs(buf@.skip(p as int)) is Some {
                        let r1 = dec_attrs(buf@.skip(p as int))->Some_0;
                        assert(dec_attrs(scur) == Some(
                            (seq![a@] + r1.0, (p - cur as int) + r1.1),
                        ));
                    } else {
                        assert(dec_attrs(scur) is None);
                    }
                }
                acc.push(a);
                proof {
                    assert(acc.deep_view() =~= acc0.push(a@));
                    assert(acc0.push(a@) =~= acc0 + seq![a@]);
                    lemma_attrs_chk_push(acc0, a@);
                    lemma_crc8_bytes_concat(*old(rowchk), attrs_chk(acc0), seq![attr_chk(a@)]);
                    lemma_crc8_one(chk0, attr_chk(a@));
                    if dec_attrs(buf@.skip(p as int)) is Some {
                        let r1 = dec_attrs(buf@.skip(p as int))->Some_0;
                        assert((acc0 + seq![a@]) + r1.0 =~= acc0 + (seq![a@] + r1.0));
                    }
                }
                cur = p;
            },
        }
    }
    proof {
        let scur = buf@.skip(cur as int);
        if cur < buf@.len() {
            assert(scur[0] == buf@[cur as int]);
        }
        assert(dec_attrs(scur) == Some((Seq::<AttrModel>::empty(), 0int)));
        assert(acc.deep_view() + Seq::<AttrModel>::empty() =~= acc.deep_view());
    }
    Ok((acc, cur))
}

/// Reads one whole row: key, optional attribute block, row checksum.
#[verifier::rlimit(80)]
fn d_row(buf: &[u8], pos: usize) -> (r: Result<(Row, usize), Error>)
    requires
        pos <= buf@.len(),
    ensures
        r matches Ok((row, p)) ==> pos < p <= buf@.len() && dec_row(buf@.skip(pos as int)) == Some(
            (row@, p - pos as int),
        ),
        r is Err ==> dec_row(buf@.skip(pos as int)) is None,
        r matches Err(e) ==> e.code == ErrorCode::CorruptedResponse,
{
    let ghost s = buf@.skip(pos as int);
    if pos >= buf.len() || buf[pos] != TAG_ROW_KEY {
        return corrupt();
    }
    proof {
        assert(s[0] == buf@[pos as int]);
        assert(s.skip(1) =~= buf@.skip(pos as int + 1));
    }
    let mut chk: u8 = 0;
    let (cols, p1) = match d_cols(buf, pos + 1, &mut chk) {
        Ok(x) => x,
        Err(e) => {
            return Err(e);
        },
    };
    proof {
        assert(dec_key(s) == Some((cols.deep_view(), p1 - pos as int)));
    }
    let ghost key_model = cols.deep_view();
    let ext = ExtendedRowKey(cols);
    let row_key = match ext.into_row_key() {
        Ok(k) => k,
        Err(_) => {
            proof {
                assert(!concrete_cols(key_model));
            }
            return corrupt();
        },
    };
    proof {
        assert(row_key@ == key_model);
        assert(concrete_cols(key_model));
        if p1 < buf@.len() {
            assert(s[p1 - pos as int] == buf@[p1 as int]);
        }
    }
    let has_attrs = p1 < buf.len() && buf[p1] == TAG_ROW_DATA;
    let (attrs, p2) = if has_attrs {
        proof {
            assert(s.skip(p1 - pos as int + 1) =~= buf@.skip(p1 as int + 1));
        }
        match d_attrs(buf, p1 + 1, &mut chk) {
            Ok(x) => x,
            Err(e) => {
                return Err(e);
            },
        }
    } else {
        (Vec::new(), p1)
    };
    let ghost row_model = RowModel { key: key_model, attrs: attrs.deep_view() };
    proof {
        if !has_attrs {
            assert(attrs.deep_view() =~= Seq::<AttrModel>::empty());
            assert(attrs_chk(Seq::<AttrModel>::empty()) == Seq::<u8>::empty());
            assert(cols_chk(key_model) + attrs_chk(attrs.deep_view()) =~= cols_chk(key_model));
        }
        lemma_crc8_bytes_concat(0, cols_chk(key_model), attrs_chk(attrs.deep_view()));
    }
    crc8_u8(&mut chk, 0);
    proof {
        lemma_crc8_bytes_concat(
            0,
            cols_chk(key_model) + attrs_chk(attrs.deep_view()),
            seq![0u8],
        );
        lemma_crc8_one(
            spec_crc8_bytes(0, cols_chk(key_model) + attrs_chk(attrs.deep_view())),
            0u8,
        );
        assert(chk == row_chk(row_model));
    }
    if buf.len() - p2 < 2 {
        return corrupt();
    }
    proof {
        assert(s[p2 - pos as int] == buf@[p2 as int]);
        assert(s[p2 + 1 - pos as int] == buf@[p2 as int + 1]);
    }
    if buf[p2] != TAG_ROW_CHECKSUM {
        return corrupt();
    }
    if buf[p2 + 1] != chk {
        return corrupt();
    }
    let row = Row { row_key, attrs };
    proof {
        assert(row@ == row_model);
    }
    Ok((row, p2 + 2))
}

/// Decodes one whole-buffer row: the magic header, then the row.
pub fn decode_row(buf: &[u8]) -> (r: Result<Row, Error>)
    ensures
        r matches Ok(row) ==> dec_pbuf_row(buf@) == Some(row@),
        r is Err ==> dec_pbuf_row(buf@) is None,
        r matches Err(e) ==> e.code == ErrorCode::CorruptedResponse,
{
    if buf.len() < 4 {
        return corrupt();
    }
    let h = read_le4(buf, 0);
    if h != HEADER {
        return corrupt();
    }
    proof {
        assert(buf@.subrange(0, 4) =~= buf@.subrange(0int, 0int + 4));
    }
    match d_row(buf, 4) {
        Ok((row, _)) => {
            proof {
                assert(buf@.skip(4) =~= buf@.skip(4int));
            }
            Ok(row)
        },
        Err(e) => Err(e),
    }
}

/// Decodes a whole-buffer row batch: the header, then rows until the
/// input is exhausted.
#[verifier::rlimit(80)]
pub fn decode_rows(buf: &[u8]) -> (r: Result<Vec<Row>, Error>)
    ensures
        r matches Ok(rows) ==> dec_pbuf_rows(buf@) == Some(rows.deep_view()),
        r is Err ==> dec_pbuf_rows(buf@) is None,
        r matches Err(e) ==> e.code == ErrorCode::CorruptedResponse,
{
    if buf.len() < 4 {
        return corrupt();
    }
    let h = read_le4(buf, 0);
    if h != HEADER {
        return corrupt();
    }
    proof {
        assert(buf@.subrange(0, 4) =~= buf@.subrange(0int, 0int + 4));
    }
    let mut cur: usize = 4;
    let mut acc: Vec<Row> = Vec::new();
    proof {
        assert(acc.deep_view() =~= Seq::<RowModel>::empty());
        if dec_rows(buf@.skip(4)) is Some {
            let r0 = dec_rows(buf@.skip(4))->Some_0;
            assert(acc.deep_view() + r0 =~= r0);
        }
    }
    while cur < buf.len()
        invariant
            4 <= cur <= buf@.len(),
            dec_rows(buf@.skip(cur as int)) is Some ==> dec_rows(buf@.skip(4)) == Some(
                acc.deep_view() + dec_rows(buf@.skip(cur as int))->Some_0,
            ),
            dec_rows(buf@.skip(cur as int)) is None ==> dec_rows(buf@.skip(4)) is None,
        decreases buf@.len() - cur,
    {
        let ghost scur = buf@.skip(cur as int);
        let ghost acc0 = acc.deep_view();
        let rr = d_row(buf, cur);
        match rr {
            Err(e) => {
                proof {
                    assert(scur.len() > 0);
                    assert(dec_rows(scur) is None);
                }
                return Err(e);
            },
            Ok((row, p)) => {
                proof {
                    assert(scur.skip(p - cur as int) =~= buf@.skip(p as int));
                    assert(dec_row(scur) == Some((row@, p - cur as int)));
                    if dec_rows(buf@.skip(p as int)) is Some {
                        let r1 = dec_rows(buf@.skip(p as int))->Some_0;
                        assert(dec_rows(scur) == Some(seq![row@] + r1));
                    } else {
                        assert(dec_rows(scur) is None);
                    }
                }
                acc.push(row);
                proof {
                    assert(acc.deep_view() =~= acc0.push(row@));
                    assert(acc0.push(row@) =~= acc0 + seq![row@]);
                    if dec_rows(buf@.skip(p as int)) is Some {
                        let r1 = dec_rows(buf@.skip(p as int))->Some_0;
                        assert((acc0 + seq![row@]) + r1 =~= acc0 + (seq![row@] + r1));
                    }
                }
                cur = p;
            },
        }
    }
    proof {
        let scur = buf@.skip(cur as int);
        assert(scur.len() == 0);
        assert(dec_rows(scur) == Some(Seq::<RowModel>::empty()));
        assert(acc.deep_view() + Seq::<RowModel>::empty() =~= acc.deep_view());
    }
    Ok(acc)
}

/// Decodes a whole-buffer boundary key: the header, then the key.
pub fn decode_ext_key(buf: &[u8]) -> (r: Result<ExtendedRowKey, Error>)
    ensures
        r matches Ok(k) ==> dec_pbuf_key(buf@) == Some(k@),
        r is Err ==> dec_pbuf_key(buf@) is None,
        r matches Err(e) ==> e.code == ErrorCode::CorruptedResponse,
{
    if buf.len() < 4 {
        return corrupt();
    }
    let h = read_le4(buf, 0);
    if h != HEADER {
        return corrupt();
    }
    proof {
        assert(buf@.subrange(0, 4) =~= buf@.subrange(0int, 0int + 4));
    }
    let ghost s = buf@.skip(4);
    if buf.len() < 5 || buf[4] != TAG_ROW_KEY {
        proof {
            if buf@.len() >= 5 {
                assert(s[0] == buf@[4int]);
            }
        }
        return corrupt();
    }
    proof {
        assert(s[0] == buf@[4int]);
        assert(s.skip(1) =~= buf@.skip(5));
    }
    let mut chk: u8 = 0;
    match d_cols(buf, 5, &mut chk) {
        Ok((cols, _)) => {
            let k = ExtendedRowKey(cols);
            Ok(k)
        },
        Err(e) => Err(e),
    }
}

} // verus!
