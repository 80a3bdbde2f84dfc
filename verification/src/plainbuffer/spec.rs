//! The mathematical layout of the binary row codec: for every element a
//! spec-level encoder, a checksum, and a spec-level decoder.  The
//! executable codec in `serde` is proved against these, and the
//! round-trip laws in `laws` relate them to one another.

use vstd::prelude::*;
use vstd::utf8::{encode_utf8, decode_utf8, valid_utf8};
use crate::crc8::{spec_crc8_bytes, spec_le4, spec_le8};
use crate::types::rowkey::{ValueModel, ColumnModel, is_concrete};
use crate::types::attr::{AttrValueModel, AttrModel};
use crate::types::row::RowModel;
use super::consts::{
    HEADER, TAG_ROW_KEY, TAG_ROW_DATA, TAG_CELL, TAG_CELL_NAME, TAG_CELL_VALUE,
    TAG_CELL_TIMESTAMP, TAG_ROW_CHECKSUM, TAG_CELL_CHECKSUM, VT_INTEGER, VT_DOUBLE, VT_BOOLEAN,
    VT_STRING, VT_BLOB, VT_INF_MIN, VT_INF_MAX, VT_AUTO_INCREMENT,
};

verus! {

/// The `u32` held by four little-endian bytes.
pub open spec fn spec_u32_of_le(s: Seq<u8>) -> u32 {
    (s[0] as u32) | ((s[1] as u32) << 8) | ((s[2] as u32) << 16) | ((s[3] as u32) << 24)
}

/// The `u64` held by eight little-endian bytes.
pub open spec fn spec_u64_of_le(s: Seq<u8>) -> u64 {
    (s[0] as u64) | ((s[1] as u64) << 8) | ((s[2] as u64) << 16) | ((s[3] as u64) << 24) | (
    (s[4] as u64) << 32) | ((s[5] as u64) << 40) | ((s[6] as u64) << 48) | ((s[7] as u64) << 56)
}

/// A piece of text small enough that its UTF-8 length survives the
/// codec's 32-bit length prefixes.
pub open spec fn wf_text(s: Seq<char>) -> bool {
    encode_utf8(s).len() + 5 <= 0xFFFF_FFFF
}

/// A blob small enough for the codec's 32-bit length prefixes.
pub open spec fn wf_blob(b: Seq<u8>) -> bool {
    b.len() + 5 <= 0xFFFF_FFFF
}

/// A key value the codec can carry.
pub open spec fn wf_value(v: ValueModel) -> bool {
    match v {
        ValueModel::Str(s) => wf_text(s),
        ValueModel::Blob(b) => wf_blob(b),
        _ => true,
    }
}

/// A key column the codec can carry.
pub open spec fn wf_col(c: ColumnModel) -> bool {
    wf_text(c.name) && wf_value(c.value)
}

/// A whole key the codec can carry.
pub open spec fn wf_cols(cs: Seq<ColumnModel>) -> bool {
    forall|i: int| 0 <= i < cs.len() ==> wf_col(#[trigger] cs[i])
}

/// An attribute value the codec can carry.
pub open spec fn wf_attr_value(v: AttrValueModel) -> bool {
    match v {
        AttrValueModel::Str(s) => wf_text(s),
        AttrValueModel::Blob(b) => wf_blob(b),
        _ => true,
    }
}

/// An attribute cell the codec can carry.
pub open spec fn wf_attr(a: AttrModel) -> bool {
    wf_text(a.name) && wf_attr_value(a.value)
}

/// A list of attribute cells the codec can carry.
pub open spec fn wf_attrs(attrs: Seq<AttrModel>) -> bool {
    forall|i: int| 0 <= i < attrs.len() ==> wf_attr(#[trigger] attrs[i])
}

/// Every key column holds a concrete value, as a stored row must.
pub open spec fn concrete_cols(cs: Seq<ColumnModel>) -> bool {
    forall|i: int| 0 <= i < cs.len() ==> is_concrete((#[trigger] cs[i]).value)
}

/// A row the codec can carry.
pub open spec fn wf_row(r: RowModel) -> bool {
    wf_cols(r.key) && concrete_cols(r.key) && wf_attrs(r.attrs)
}

/// A batch of rows the codec can carry.
pub open spec fn wf_rows(rs: Seq<RowModel>) -> bool {
    forall|i: int| 0 <= i < rs.len() ==> wf_row(#[trigger] rs[i])
}

/// A cell name on the wire: its tag, the UTF-8 length, the UTF-8 bytes.
pub open spec fn enc_name(n: Seq<char>) -> Seq<u8> {
    seq![TAG_CELL_NAME] + spec_le4(encode_utf8(n).len() as u32) + encode_utf8(n)
}

/// The checksummed part of a key cell value: its variant byte followed
/// by its payload.  This is also exactly what stands behind the cell
/// value's declared length.
pub open spec fn val_payload(v: ValueModel) -> Seq<u8> {
    match v {
        ValueModel::Int(x) => seq![VT_INTEGER] + spec_le8(x as u64),
        ValueModel::Str(s) => seq![VT_STRING] + spec_le4(encode_utf8(s).len() as u32) + encode_utf8(
            s,
        ),
        ValueModel::Blob(b) => seq![VT_BLOB] + spec_le4(b.len() as u32) + b,
        ValueModel::InfMin => seq![VT_INF_MIN],
        ValueModel::InfMax => seq![VT_INF_MAX],
        ValueModel::AutoIncr => seq![VT_AUTO_INCREMENT],
    }
}

/// A key cell value on the wire: its tag, the declared payload length,
/// the payload.
pub open spec fn enc_val(v: ValueModel) -> Seq<u8> {
    seq![TAG_CELL_VALUE] + spec_le4(val_payload(v).len() as u32) + val_payload(v)
}

/// The CRC8 a key cell carries: a fold over the name's UTF-8 bytes and
/// the value's checksummed part.
pub open spec fn cell_chk(c: ColumnModel) -> u8 {
    spec_crc8_bytes(0, encode_utf8(c.name) + val_payload(c.value))
}

/// A whole key cell on the wire.
pub open spec fn enc_col(c: ColumnModel) -> Seq<u8> {
    seq![TAG_CELL] + enc_name(c.name) + enc_val(c.value) + seq![TAG_CELL_CHECKSUM, cell_chk(c)]
}

/// Key cells on the wire, one after the other.
pub open spec fn enc_cols(cs: Seq<ColumnModel>) -> Seq<u8>
    decreases cs.len(),
{
    if cs.len() == 0 {
        Seq::<u8>::empty()
    } else {
        enc_col(cs[0]) + enc_cols(cs.drop_first())
    }
}

/// The checksum bytes of the key cells, in order: what the row checksum
/// folds for the key part.
pub open spec fn cols_chk(cs: Seq<ColumnModel>) -> Seq<u8>
    decreases cs.len(),
{
    if cs.len() == 0 {
        Seq::<u8>::empty()
    } else {
        seq![cell_chk(cs[0])] + cols_chk(cs.drop_first())
    }
}

/// A whole row key on the wire: its tag, then its cells.
pub open spec fn enc_key(cs: Seq<ColumnModel>) -> Seq<u8> {
    seq![TAG_ROW_KEY] + enc_cols(cs)
}

/// The checksummed part of an attribute value.
pub open spec fn attr_val_payload(v: AttrValueModel) -> Seq<u8> {
    match v {
        AttrValueModel::Str(s) => seq![VT_STRING] + spec_le4(encode_utf8(s).len() as u32)
            + encode_utf8(s),
        AttrValueModel::Int(x) => seq![VT_INTEGER] + spec_le8(x as u64),
        AttrValueModel::Blob(b) => seq![VT_BLOB] + spec_le4(b.len() as u32) + b,
        AttrValueModel::Bool(b) => seq![VT_BOOLEAN] + seq![
            if b {
                1u8
            } else {
                0u8
            },
        ],
        AttrValueModel::Float(bits) => seq![VT_DOUBLE] + spec_le8(bits),
    }
}

/// An attribute value on the wire.
pub open spec fn enc_attr_val(v: AttrValueModel) -> Seq<u8> {
    seq![TAG_CELL_VALUE] + spec_le4(attr_val_payload(v).len() as u32) + attr_val_payload(v)
}

/// Everything an attribute cell's CRC8 folds: the name's UTF-8 bytes,
/// the value's checksummed part, and, when present, the eight bytes of
/// the client-attached timestamp.
pub open spec fn attr_chk_bytes(a: AttrModel) -> Seq<u8> {
    encode_utf8(a.name) + attr_val_payload(a.value) + (match a.ts {
        Some(t) => spec_le8(t as u64),
        None => Seq::<u8>::empty(),
    })
}

/// The CRC8 an attribute cell carries.
pub open spec fn attr_chk(a: AttrModel) -> u8 {
    spec_crc8_bytes(0, attr_chk_bytes(a))
}

/// A whole attribute cell on the wire: tag, name, value, the optional
/// timestamp, and its checksum.
pub open spec fn enc_attr(a: AttrModel) -> Seq<u8> {
    seq![TAG_CELL] + enc_name(a.name) + enc_attr_val(a.value) + (match a.ts {
        Some(t) => seq![TAG_CELL_TIMESTAMP] + spec_le8(t as u64),
        None => Seq::<u8>::empty(),
    }) + seq![TAG_CELL_CHECKSUM, attr_chk(a)]
}

/// Attribute cells on the wire, one after the other.
pub open spec fn enc_attrs(attrs: Seq<AttrModel>) -> Seq<u8>
    decreases attrs.len(),
{
    if attrs.len() == 0 {
        Seq::<u8>::empty()
    } else {
        enc_attr(attrs[0]) + enc_attrs(attrs.drop_first())
    }
}

/// The checksum bytes of the attribute cells, in order.
pub open spec fn attrs_chk(attrs: Seq<AttrModel>) -> Seq<u8>
    decreases attrs.len(),
{
    if attrs.len() == 0 {
        Seq::<u8>::empty()
    } else {
        seq![attr_chk(attrs[0])] + attrs_chk(attrs.drop_first())
    }
}

/// The row-level CRC8: a fold over every cell's checksum byte, key cells
/// first, closed by a constant zero standing in for the always-absent
/// row delete marker, kept for wire compatibility.
pub open spec fn row_chk(r: RowModel) -> u8 {
    spec_crc8_bytes(0, cols_chk(r.key) + attrs_chk(r.attrs) + seq![0u8])
}

/// A whole row on the wire: its key, its attribute block when any
/// attribute exists, and the row checksum.
pub open spec fn enc_row(r: RowModel) -> Seq<u8> {
    enc_key(r.key) + (if r.attrs.len() == 0 {
        Seq::<u8>::empty()
    } else {
        seq![TAG_ROW_DATA] + enc_attrs(r.attrs)
    }) + seq![TAG_ROW_CHECKSUM, row_chk(r)]
}

/// Rows on the wire, one after the other.
pub open spec fn enc_rows(rs: Seq<RowModel>) -> Seq<u8>
    decreases rs.len(),
{
    if rs.len() == 0 {
        Seq::<u8>::empty()
    } else {
        enc_row(rs[0]) + enc_rows(rs.drop_first())
    }
}

/// One encoded row, with the magic header in front.
pub open spec fn enc_pbuf_row(r: RowModel) -> Seq<u8> {
    spec_le4(HEADER) + enc_row(r)
}

/// An encoded row batch: the header once, then each row's bytes.
pub open spec fn enc_pbuf_rows(rs: Seq<RowModel>) -> Seq<u8> {
    spec_le4(HEADER) + enc_rows(rs)
}

/// An encoded boundary key: the header once, then the key.
pub open spec fn enc_pbuf_key(cs: Seq<ColumnModel>) -> Seq<u8> {
    spec_le4(HEADER) + enc_key(cs)
}

/// Decodes a cell name.  `None` is a corrupt input; `Some` carries the
/// name and how many bytes it stood in.
pub open spec fn dec_name(s: Seq<u8>) -> Option<(Seq<char>, int)> {
    if s.len() >= 5 && s[0] == TAG_CELL_NAME {
        let l = spec_u32_of_le(s.subrange(1, 5)) as int;
        if s.len() >= 5 + l && valid_utf8(s.subrange(5, 5 + l)) {
            Some((decode_utf8(s.subrange(5, 5 + l)), 5 + l))
        } else {
            None
        }
    } else {
        None
    }
}

/// Decodes a key cell value: tag, declared length, variant, payload.
/// The declared length must equal the bytes the payload actually
/// stands in.
pub open spec fn dec_val(s: Seq<u8>) -> Option<(ValueModel, int)> {
    if s.len() >= 6 && s[0] == TAG_CELL_VALUE {
        let decl = spec_u32_of_le(s.subrange(1, 5)) as int;
        let vt = s[5];
        if vt == VT_INTEGER {
            if s.len() >= 14 && decl == 9 {
                Some((ValueModel::Int(spec_u64_of_le(s.subrange(6, 14)) as i64), 14))
            } else {
                None
            }
        } else if vt == VT_STRING {
            if s.len() >= 10 {
                let l = spec_u32_of_le(s.subrange(6, 10)) as int;
                if s.len() >= 10 + l && decl == l + 5 && valid_utf8(s.subrange(10, 10 + l)) {
                    Some((ValueModel::Str(decode_utf8(s.subrange(10, 10 + l))), 10 + l))
                } else {
                    None
                }
            } else {
                None
            }
        } else if vt == VT_BLOB {
            if s.len() >= 10 {
                let l = spec_u32_of_le(s.subrange(6, 10)) as int;
                if s.len() >= 10 + l && decl == l + 5 {
                    Some((ValueModel::Blob(s.subrange(10, 10 + l)), 10 + l))
                } else {
                    None
                }
            } else {
                None
            }
        } else if vt == VT_INF_MIN {
            if decl == 1 {
                Some((ValueModel::InfMin, 6))
            } else {
                None
            }
        } else if vt == VT_INF_MAX {
            if decl == 1 {
                Some((ValueModel::InfMax, 6))
            } else {
                None
            }
        } else if vt == VT_AUTO_INCREMENT {
            if decl == 1 {
                Some((ValueModel::AutoIncr, 6))
            } else {
                None
            }
        } else {
            None
        }
    } else {
        None
    }
}

/// Decodes one key cell: tag, name, value, and its checksum byte, which
/// must equal the checksum recomputed from what was read.
pub open spec fn dec_col(s: Seq<u8>) -> Option<(ColumnModel, int)> {
    if s.len() >= 1 && s[0] == TAG_CELL {
        match dec_name(s.skip(1)) {
            Some((n, a)) => match dec_val(s.skip(1 + a)) {
                Some((v, b)) => {
                    let c = ColumnModel { name: n, value: v };
                    let p = 1 + a + b;
                    if s.len() >= p + 2 && s[p] == TAG_CELL_CHECKSUM && s[p + 1] == cell_chk(c) {
                        Some((c, p + 2))
                    } else {
                        None
                    }
                },
                None => None,
            },
            None => None,
        }
    } else {
        None
    }
}

/// Decodes key cells until the next byte no longer opens a cell.
pub open spec fn dec_cols(s: Seq<u8>) -> Option<(Seq<ColumnModel>, int)>
    decreases s.len(),
{
    if s.len() == 0 || s[0] != TAG_CELL {
        Some((Seq::<ColumnModel>::empty(), 0))
    } else {
        match dec_col(s) {
            Some((c, n)) => if 1 <= n <= s.len() {
                match dec_cols(s.skip(n)) {
                    Some((cs, m)) => Some((seq![c] + cs, n + m)),
                    None => None,
                }
            } else {
                None
            },
            None => None,
        }
    }
}

/// Decodes a whole row key: its tag, then its cells.
pub open spec fn dec_key(s: Seq<u8>) -> Option<(Seq<ColumnModel>, int)> {
    if s.len() >= 1 && s[0] == TAG_ROW_KEY {
        match dec_cols(s.skip(1)) {
            Some((cs, m)) => Some((cs, 1 + m)),
            None => None,
        }
    } else {
        None
    }
}

/// Decodes an attribute value.
pub open spec fn dec_attr_val(s: Seq<u8>) -> Option<(AttrValueModel, int)> {
    if s.len() >= 6 && s[0] == TAG_CELL_VALUE {
        let decl = spec_u32_of_le(s.subrange(1, 5)) as int;
        let vt = s[5];
        if vt == VT_INTEGER {
            if s.len() >= 14 && decl == 9 {
                Some((AttrValueModel::Int(spec_u64_of_le(s.subrange(6, 14)) as i64), 14))
            } else {
                None
            }
        } else if vt == VT_STRING {
            if s.len() >= 10 {
                let l = spec_u32_of_le(s.subrange(6, 10)) as int;
                if s.len() >= 10 + l && decl == l + 5 && valid_utf8(s.subrange(10, 10 + l)) {
                    Some((AttrValueModel::Str(decode_utf8(s.subrange(10, 10 + l))), 10 + l))
                } else {
                    None
                }
            } else {
                None
            }
        } else if vt == VT_BLOB {
            if s.len() >= 10 {
                let l = spec_u32_of_le(s.subrange(6, 10)) as int;
                if s.len() >= 10 + l && decl == l + 5 {
                    Some((AttrValueModel::Blob(s.subrange(10, 10 + l)), 10 + l))
                } else {
                    None
                }
            } else {
                None
            }
        } else if vt == VT_BOOLEAN {
            if s.len() >= 7 && decl == 2 {
                Some((AttrValueModel::Bool(s[6] > 0), 7))
            } else {
                None
            }
        } else if vt == VT_DOUBLE {
            if s.len() >= 14 && decl == 9 {
                Some((AttrValueModel::Float(spec_u64_of_le(s.subrange(6, 14))), 14))
            } else {
                None
            }
        } else {
            None
        }
    } else {
        None
    }
}

/// Decodes one attribute cell: tag, name, value, the optional
/// timestamp, and its checksum byte, which must match.
pub open spec fn dec_attr(s: Seq<u8>) -> Option<(AttrModel, int)> {
    if s.len() >= 1 && s[0] == TAG_CELL {
        match dec_name(s.skip(1)) {
            Some((n, a)) => match dec_attr_val(s.skip(1 + a)) {
                Some((v, b)) => {
                    let p = 1 + a + b;
                    if s.len() > p && s[p] == TAG_CELL_TIMESTAMP {
                        if s.len() >= p + 9 {
                            let t = spec_u64_of_le(s.subrange(p + 1, p + 9)) as i64;
                            let m = AttrModel { name: n, value: v, ts: Some(t) };
                            let q = p + 9;
                            if s.len() >= q + 2 && s[q] == TAG_CELL_CHECKSUM && s[q + 1]
                                == attr_chk(m) {
                                Some((m, q + 2))
                            } else {
                                None
                            }
                        } else {
                            None
                        }
                    } else {
                        let m = AttrModel { name: n, value: v, ts: None };
                        if s.len() >= p + 2 && s[p] == TAG_CELL_CHECKSUM && s[p + 1] == attr_chk(
                            m,
                        ) {
                            Some((m, p + 2))
                        } else {
                            None
                        }
                    }
                },
                None => None,
            },
            None => None,
        }
    } else {
        None
    }
}

/// Decodes attribute cells until the next byte no longer opens a cell.
pub open spec fn dec_attrs(s: Seq<u8>) -> Option<(Seq<AttrModel>, int)>
    decreases s.len(),
{
    if s.len() == 0 || s[0] != TAG_CELL {
        Some((Seq::<AttrModel>::empty(), 0))
    } else {
        match dec_attr(s) {
            Some((a, n)) => if 1 <= n <= s.len() {
                match dec_attrs(s.skip(n)) {
                    Some((attrs, m)) => Some((seq![a] + attrs, n + m)),
                    None => None,
                }
            } else {
                None
            },
            None => None,
        }
    }
}

/// Decodes one row: its key, whose cells must all be concrete, the
/// optional attribute block, and the row checksum, which must match.
pub open spec fn dec_row(s: Seq<u8>) -> Option<(RowModel, int)> {
    match dec_key(s) {
        Some((key, p)) => if concrete_cols(key) {
            if s.len() > p && s[p] == TAG_ROW_DATA {
                match dec_attrs(s.skip(p + 1)) {
                    Some((attrs, m)) => {
                        let r = RowModel { key, attrs };
                        let q = p + 1 + m;
                        if s.len() >= q + 2 && s[q] == TAG_ROW_CHECKSUM && s[q + 1] == row_chk(r) {
                            Some((r, q + 2))
                        } else {
                            None
                        }
                    },
                    None => None,
                }
            } else {
                let r = RowModel { key, attrs: Seq::<AttrModel>::empty() };
                if s.len() >= p + 2 && s[p] == TAG_ROW_CHECKSUM && s[p + 1] == row_chk(r) {
                    Some((r, p + 2))
                } else {
                    None
                }
            }
        } else {
            None
        },
        None => None,
    }
}

/// Decodes rows until the input is exhausted.
pub open spec fn dec_rows(s: Seq<u8>) -> Option<Seq<RowModel>>
    decreases s.len(),
{
    if s.len() == 0 {
        Some(Seq::<RowModel>::empty())
    } else {
        match dec_row(s) {
            Some((r, n)) => if 1 <= n <= s.len() {
                match dec_rows(s.skip(n)) {
                    Some(rs) => Some(seq![r] + rs),
                    None => None,
                }
            } else {
                None
            },
            None => None,
        }
    }
}

/// Decodes one whole-buffer row: the header, then the row.  Trailing
/// bytes are ignored, as a single-row buffer carries one row.
pub open spec fn dec_pbuf_row(s: Seq<u8>) -> Option<RowModel> {
    if s.len() >= 4 && spec_u32_of_le(s.subrange(0, 4)) == HEADER {
        match dec_row(s.skip(4)) {
            Some((r, _)) => Some(r),
            None => None,
        }
    } else {
        None
    }
}

/// Decodes a whole-buffer row batch: the header, then rows until the
/// input ends.
pub open spec fn dec_pbuf_rows(s: Seq<u8>) -> Option<Seq<RowModel>> {
    if s.len() >= 4 && spec_u32_of_le(s.subrange(0, 4)) == HEADER {
        dec_rows(s.skip(4))
    } else {
        None
    }
}

/// Decodes a whole-buffer boundary key: the header, then the key.
pub open spec fn dec_pbuf_key(s: Seq<u8>) -> Option<Seq<ColumnModel>> {
    if s.len() >= 4 && spec_u32_of_le(s.subrange(0, 4)) == HEADER {
        match dec_key(s.skip(4)) {
            Some((cs, _)) => Some(cs),
            None => None,
        }
    } else {
        None
    }
}

/// Appending one cell to a key appends its encoding.
pub proof fn lemma_enc_cols_push(cs: Seq<ColumnModel>, c: ColumnModel)
    ensures
        enc_cols(cs.push(c)) == enc_cols(cs) + enc_col(c),
    decreases cs.len(),
{
    if cs.len() == 0 {
        assert(cs.push(c)[0] == c);
        assert(cs.push(c).drop_first() =~= Seq::<ColumnModel>::empty());
        assert(enc_cols(Seq::<ColumnModel>::empty()) == Seq::<u8>::empty());
        assert(enc_col(c) + Seq::<u8>::empty() =~= enc_col(c));
        assert(Seq::<u8>::empty() + enc_col(c) =~= enc_col(c));
    } else {
        assert(cs.push(c)[0] == cs[0]);
        assert(cs.push(c).drop_first() =~= cs.drop_first().push(c));
        lemma_enc_cols_push(cs.drop_first(), c);
        assert(enc_col(cs[0]) + (enc_cols(cs.drop_first()) + enc_col(c)) =~= (enc_col(cs[0])
            + enc_cols(cs.drop_first())) + enc_col(c));
    }
}

/// Appending one cell to a key appends its checksum byte.
pub proof fn lemma_cols_chk_push(cs: Seq<ColumnModel>, c: ColumnModel)
    ensures
        cols_chk(cs.push(c)) == cols_chk(cs) + seq![cell_chk(c)],
    decreases cs.len(),
{
    if cs.len() == 0 {
        assert(cs.push(c)[0] == c);
        assert(cs.push(c).drop_first() =~= Seq::<ColumnModel>::empty());
        assert(cols_chk(Seq::<ColumnModel>::empty()) == Seq::<u8>::empty());
        assert(seq![cell_chk(c)] + Seq::<u8>::empty() =~= seq![cell_chk(c)]);
        assert(Seq::<u8>::empty() + seq![cell_chk(c)] =~= seq![cell_chk(c)]);
    } else {
        assert(cs.push(c)[0] == cs[0]);
        assert(cs.push(c).drop_first() =~= cs.drop_first().push(c));
        lemma_cols_chk_push(cs.drop_first(), c);
        assert(seq![cell_chk(cs[0])] + (cols_chk(cs.drop_first()) + seq![cell_chk(c)]) =~= (seq![
            cell_chk(cs[0]),
        ] + cols_chk(cs.drop_first())) + seq![cell_chk(c)]);
    }
}

/// Appending one attribute cell appends its encoding.
pub proof fn lemma_enc_attrs_push(attrs: Seq<AttrModel>, a: AttrModel)
    ensures
        enc_attrs(attrs.push(a)) == enc_attrs(attrs) + enc_attr(a),
    decreases attrs.len(),
{
    if attrs.len() == 0 {
        assert(attrs.push(a)[0] == a);
        assert(attrs.push(a).drop_first() =~= Seq::<AttrModel>::empty());
        assert(enc_attrs(Seq::<AttrModel>::empty()) == Seq::<u8>::empty());
        assert(enc_attr(a) + Seq::<u8>::empty() =~= enc_attr(a));
        assert(Seq::<u8>::empty() + enc_attr(a) =~= enc_attr(a));
    } else {
        assert(attrs.push(a)[0] == attrs[0]);
        assert(attrs.push(a).drop_first() =~= attrs.drop_first().push(a));
        lemma_enc_attrs_push(attrs.drop_first(), a);
        assert(enc_attr(attrs[0]) + (enc_attrs(attrs.drop_first()) + enc_attr(a)) =~= (enc_attr(
            attrs[0],
        ) + enc_attrs(attrs.drop_first())) + enc_attr(a));
    }
}

/// Appending one attribute cell appends its checksum byte.
pub proof fn lemma_attrs_chk_push(attrs: Seq<AttrModel>, a: AttrModel)
    ensures
        attrs_chk(attrs.push(a)) == attrs_chk(attrs) + seq![attr_chk(a)],
    decreases attrs.len(),
{
    if attrs.len() == 0 {
        assert(attrs.push(a)[0] == a);
        assert(attrs.push(a).drop_first() =~= Seq::<AttrModel>::empty());
        assert(attrs_chk(Seq::<AttrModel>::empty()) == Seq::<u8>::empty());
        assert(seq![attr_chk(a)] + Seq::<u8>::empty() =~= seq![attr_chk(a)]);
        assert(Seq::<u8>::empty() + seq![attr_chk(a)] =~= seq![attr_chk(a)]);
    } else {
        assert(attrs.push(a)[0] == attrs[0]);
        assert(attrs.push(a).drop_first() =~= attrs.drop_first().push(a));
        lemma_attrs_chk_push(attrs.drop_first(), a);
        assert(seq![attr_chk(attrs[0])] + (attrs_chk(attrs.drop_first()) + seq![attr_chk(a)]) =~= (
        seq![attr_chk(attrs[0])] + attrs_chk(attrs.drop_first())) + seq![attr_chk(a)]);
    }
}

/// Appending one row to a batch appends its encoding.
#[verifier::rlimit(50)]
pub proof fn lemma_enc_rows_push(rs: Seq<RowModel>, r: RowModel)
    ensures
        enc_rows(rs.push(r)) == enc_rows(rs) + enc_row(r),
    decreases rs.len(),
{
    if rs.len() == 0 {
        assert(rs.push(r)[0] == r);
        assert(rs.push(r).drop_first() =~= Seq::<RowModel>::empty());
        assert(enc_rows(Seq::<RowModel>::empty()) == Seq::<u8>::empty());
        assert(enc_row(r) + Seq::<u8>::empty() =~= enc_row(r));
        assert(Seq::<u8>::empty() + enc_row(r) =~= enc_row(r));
    } else {
        assert(rs.push(r)[0] == rs[0]);
        assert(rs.push(r).drop_first() =~= rs.drop_first().push(r));
        lemma_enc_rows_push(rs.drop_first(), r);
        assert(enc_row(rs[0]) + (enc_rows(rs.drop_first()) + enc_row(r)) =~= (enc_row(rs[0])
            + enc_rows(rs.drop_first())) + enc_row(r));
    }
}

} // verus!
