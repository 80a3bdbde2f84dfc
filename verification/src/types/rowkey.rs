//! The row-key model: typed key values, the sentinel boundary values, and
//! the partial order that drives range-scan construction.
//!
//! Comparison is defined only within matching variants; `InfMin` sits
//! below every concrete value, `InfMax` above, and `AutoIncr` compares
//! with nothing, itself included.  The result is the explicit four-way
//! `KeyOrder`, never a coerced equality.

use vstd::prelude::*;
use vstd::utf8::encode_utf8;
use vstd::string::StringExecFns;
use crate::error::{Error, ErrorCode};
use super::common::Name;

verus! {

/// A primary-key value legal in a stored row.
#[derive(Debug, PartialEq, Eq)]
pub enum RowKeyValue {
    Int(i64),
    Str(String),
    Blob(Vec<u8>),
}

/// A primary-key value legal in a scan boundary or schema declaration:
/// the stored values plus the three sentinels.
#[derive(Debug, PartialEq, Eq)]
pub enum ExtendedRowKeyValue {
    Int(i64),
    Str(String),
    Blob(Vec<u8>),
    InfMin,
    InfMax,
    AutoIncr,
}

/// The mathematical shadow of a key value: strings as character
/// sequences, blobs as byte sequences.
pub enum ValueModel {
    Int(i64),
    Str(Seq<char>),
    Blob(Seq<u8>),
    InfMin,
    InfMax,
    AutoIncr,
}

impl View for RowKeyValue {
    type V = ValueModel;

    open spec fn view(&self) -> ValueModel {
        match self {
            RowKeyValue::Int(x) => ValueModel::Int(*x),
            RowKeyValue::Str(s) => ValueModel::Str(s@),
            RowKeyValue::Blob(b) => ValueModel::Blob(b@),
        }
    }
}

impl DeepView for RowKeyValue {
    type V = ValueModel;

    open spec fn deep_view(&self) -> ValueModel {
        self.view()
    }
}

impl View for ExtendedRowKeyValue {
    type V = ValueModel;

    open spec fn view(&self) -> ValueModel {
        match self {
            ExtendedRowKeyValue::Int(x) => ValueModel::Int(*x),
            ExtendedRowKeyValue::Str(s) => ValueModel::Str(s@),
            ExtendedRowKeyValue::Blob(b) => ValueModel::Blob(b@),
            ExtendedRowKeyValue::InfMin => ValueModel::InfMin,
            ExtendedRowKeyValue::InfMax => ValueModel::InfMax,
            ExtendedRowKeyValue::AutoIncr => ValueModel::AutoIncr,
        }
    }
}

impl DeepView for ExtendedRowKeyValue {
    type V = ValueModel;

    open spec fn deep_view(&self) -> ValueModel {
        self.view()
    }
}

impl Clone for RowKeyValue {
    fn clone(&self) -> (r: Self)
        ensures
            r@ == self@,
    {
        match self {
            RowKeyValue::Int(x) => RowKeyValue::Int(*x),
            RowKeyValue::Str(s) => RowKeyValue::Str(s.clone()),
            RowKeyValue::Blob(b) => RowKeyValue::Blob(crate::strings::clone_bytes(b)),
        }
    }
}

impl Clone for ExtendedRowKeyValue {
    fn clone(&self) -> (r: Self)
        ensures
            r@ == self@,
    {
        match self {
            ExtendedRowKeyValue::Int(x) => ExtendedRowKeyValue::Int(*x),
            ExtendedRowKeyValue::Str(s) => ExtendedRowKeyValue::Str(s.clone()),
            ExtendedRowKeyValue::Blob(b) => ExtendedRowKeyValue::Blob(
                crate::strings::clone_bytes(b),
            ),
            ExtendedRowKeyValue::InfMin => ExtendedRowKeyValue::InfMin,
            ExtendedRowKeyValue::InfMax => ExtendedRowKeyValue::InfMax,
            ExtendedRowKeyValue::AutoIncr => ExtendedRowKeyValue::AutoIncr,
        }
    }
}

/// A key value holds a concrete (storable) value, not a sentinel.
pub open spec fn is_concrete(v: ValueModel) -> bool {
    match v {
        ValueModel::Int(_) => true,
        ValueModel::Str(_) => true,
        ValueModel::Blob(_) => true,
        _ => false,
    }
}

/// One named key column.
#[derive(Debug, PartialEq, Eq)]
pub struct RowKeyColumn {
    pub name: Name,
    pub value: RowKeyValue,
}

/// One named key column of a scan boundary.
#[derive(Debug, PartialEq, Eq)]
pub struct ExtendedRowKeyColumn {
    pub name: Name,
    pub value: ExtendedRowKeyValue,
}

/// The mathematical shadow of one key column.
pub struct ColumnModel {
    pub name: Seq<char>,
    pub value: ValueModel,
}

impl View for RowKeyColumn {
    type V = ColumnModel;

    open spec fn view(&self) -> ColumnModel {
        ColumnModel { name: self.name@, value: self.value@ }
    }
}

impl DeepView for RowKeyColumn {
    type V = ColumnModel;

    open spec fn deep_view(&self) -> ColumnModel {
        self.view()
    }
}

impl View for ExtendedRowKeyColumn {
    type V = ColumnModel;

    open spec fn view(&self) -> ColumnModel {
        ColumnModel { name: self.name@, value: self.value@ }
    }
}

impl DeepView for ExtendedRowKeyColumn {
    type V = ColumnModel;

    open spec fn deep_view(&self) -> ColumnModel {
        self.view()
    }
}

impl Clone for RowKeyColumn {
    fn clone(&self) -> (r: Self)
        ensures
            r@ == self@,
    {
        RowKeyColumn { name: self.name.clone(), value: self.value.clone() }
    }
}

impl Clone for ExtendedRowKeyColumn {
    fn clone(&self) -> (r: Self)
        ensures
            r@ == self@,
    {
        ExtendedRowKeyColumn { name: self.name.clone(), value: self.value.clone() }
    }
}

/// The primary key of a stored row: its columns in the order of the
/// table's schema.
#[derive(Debug, PartialEq, Eq)]
pub struct RowKey(pub Vec<RowKeyColumn>);

/// A scan boundary: key columns that may hold sentinels.
#[derive(Debug, PartialEq, Eq)]
pub struct ExtendedRowKey(pub Vec<ExtendedRowKeyColumn>);

impl View for RowKey {
    type V = Seq<ColumnModel>;

    open spec fn view(&self) -> Seq<ColumnModel> {
        self.0.deep_view()
    }
}

impl View for ExtendedRowKey {
    type V = Seq<ColumnModel>;

    open spec fn view(&self) -> Seq<ColumnModel> {
        self.0.deep_view()
    }
}

impl Clone for RowKey {
    fn clone(&self) -> (r: Self)
        ensures
            r@ == self@,
    {
        RowKey(clone_row_key_columns(&self.0))
    }
}

impl Clone for ExtendedRowKey {
    fn clone(&self) -> (r: Self)
        ensures
            r@ == self@,
    {
        ExtendedRowKey(clone_ext_columns(&self.0))
    }
}

fn clone_row_key_columns(v: &Vec<RowKeyColumn>) -> (r: Vec<RowKeyColumn>)
    ensures
        r.deep_view() == v.deep_view(),
{
    let mut out: Vec<RowKeyColumn> = Vec::new();
    let mut i: usize = 0;
    while i < v.len()
        invariant
            i <= v@.len(),
            out@.len() == i,
            out.deep_view() =~= v.deep_view().take(i as int),
        decreases v@.len() - i,
    {
        let c = v[i].clone();
        proof {
            assert(c@ == v@[i as int]@);
        }
        out.push(c);
        i = i + 1;
        proof {
            assert(out.deep_view() =~= v.deep_view().take(i as int));
        }
    }
    proof {
        assert(v.deep_view().take(v@.len() as int) =~= v.deep_view());
    }
    out
}

fn clone_ext_columns(v: &Vec<ExtendedRowKeyColumn>) -> (r: Vec<ExtendedRowKeyColumn>)
    ensures
        r.deep_view() == v.deep_view(),
{
    let mut out: Vec<ExtendedRowKeyColumn> = Vec::new();
    let mut i: usize = 0;
    while i < v.len()
        invariant
            i <= v@.len(),
            out@.len() == i,
            out.deep_view() =~= v.deep_view().take(i as int),
        decreases v@.len() - i,
    {
        let c = v[i].clone();
        proof {
            assert(c@ == v@[i as int]@);
        }
        out.push(c);
        i = i + 1;
        proof {
            assert(out.deep_view() =~= v.deep_view().take(i as int));
        }
    }
    proof {
        assert(v.deep_view().take(v@.len() as int) =~= v.deep_view());
    }
    out
}

/// The four-way outcome of comparing key values or whole keys: a genuine
/// partial order, with incomparability kept explicit.
#[derive(Debug, Clone, Copy, PartialEq, Eq, Structural)]
pub enum KeyOrder {
    Less,
    Equal,
    Greater,
    Incomparable,
}

/// Lexicographic order on byte sequences, shorter prefixes first.
pub open spec fn spec_lex_bytes(a: Seq<u8>, b: Seq<u8>) -> KeyOrder
    decreases a.len(),
{
    if a.len() == 0 && b.len() == 0 {
        KeyOrder::Equal
    } else if a.len() == 0 {
        KeyOrder::Less
    } else if b.len() == 0 {
        KeyOrder::Greater
    } else if a[0] < b[0] {
        KeyOrder::Less
    } else if a[0] > b[0] {
        KeyOrder::Greater
    } else {
        spec_lex_bytes(a.drop_first(), b.drop_first())
    }
}

/// The partial order on key values: numeric within `Int`, lexicographic
/// byte order within `Str` and `Blob`, `InfMin` below and `InfMax` above
/// every concrete value, `AutoIncr` incomparable with everything.
pub open spec fn spec_cmp_value(a: ValueModel, b: ValueModel) -> KeyOrder {
    match a {
        ValueModel::InfMin => match b {
            ValueModel::InfMin => KeyOrder::Incomparable,
            ValueModel::AutoIncr => KeyOrder::Incomparable,
            _ => KeyOrder::Less,
        },
        ValueModel::InfMax => match b {
            ValueModel::InfMax => KeyOrder::Incomparable,
            ValueModel::AutoIncr => KeyOrder::Incomparable,
            _ => KeyOrder::Greater,
        },
        ValueModel::Int(x) => match b {
            ValueModel::Int(y) => if x < y {
                KeyOrder::Less
            } else if x > y {
                KeyOrder::Greater
            } else {
                KeyOrder::Equal
            },
            ValueModel::InfMin => KeyOrder::Greater,
            ValueModel::InfMax => KeyOrder::Less,
            _ => KeyOrder::Incomparable,
        },
        ValueModel::Str(x) => match b {
            ValueModel::Str(y) => spec_lex_bytes(encode_utf8(x), encode_utf8(y)),
            ValueModel::InfMin => KeyOrder::Greater,
            ValueModel::InfMax => KeyOrder::Less,
            _ => KeyOrder::Incomparable,
        },
        ValueModel::Blob(x) => match b {
            ValueModel::Blob(y) => spec_lex_bytes(x, y),
            ValueModel::InfMin => KeyOrder::Greater,
            ValueModel::InfMax => KeyOrder::Less,
            _ => KeyOrder::Incomparable,
        },
        ValueModel::AutoIncr => KeyOrder::Incomparable,
    }
}

/// Column-wise lexicographic order on whole keys: short-circuits at the
/// first column pair that does not compare `Equal`; with every compared
/// pair equal, the shorter key comes first.  Column names take no part.
pub open spec fn spec_cmp_key(a: Seq<ColumnModel>, b: Seq<ColumnModel>) -> KeyOrder
    decreases a.len(),
{
    if a.len() == 0 && b.len() == 0 {
        KeyOrder::Equal
    } else if a.len() == 0 {
        KeyOrder::Less
    } else if b.len() == 0 {
        KeyOrder::Greater
    } else {
        let c = spec_cmp_value(a[0].value, b[0].value);
        if c == KeyOrder::Equal {
            spec_cmp_key(a.drop_first(), b.drop_first())
        } else {
            c
        }
    }
}

/// Lexicographic byte comparison.
fn lex_bytes(a: &[u8], b: &[u8]) -> (r: KeyOrder)
    ensures
        r == spec_lex_bytes(a@, b@),
{
    let mut i: usize = 0;
    proof {
        assert(a@.skip(0) =~= a@);
        assert(b@.skip(0) =~= b@);
    }
    while i < a.len() && i < b.len()
        invariant
            i <= a@.len(),
            i <= b@.len(),
            spec_lex_bytes(a@, b@) == spec_lex_bytes(a@.skip(i as int), b@.skip(i as int)),
        decreases a@.len() - i,
    {
        if a[i] < b[i] {
            return KeyOrder::Less;
        }
        if a[i] > b[i] {
            return KeyOrder::Greater;
        }
        proof {
            assert(a@.skip(i as int).drop_first() =~= a@.skip(i + 1));
            assert(b@.skip(i as int).drop_first() =~= b@.skip(i + 1));
        }
        i = i + 1;
    }
    if a.len() == b.len() {
        KeyOrder::Equal
    } else if a.len() < b.len() {
        KeyOrder::Less
    } else {
        KeyOrder::Greater
    }
}

/// Compares two boundary key values under the partial order.
pub fn compare_values(a: &ExtendedRowKeyValue, b: &ExtendedRowKeyValue) -> (r: KeyOrder)
    ensures
        r == spec_cmp_value(a@, b@),
{
    match a {
        ExtendedRowKeyValue::InfMin => match b {
            ExtendedRowKeyValue::InfMin => KeyOrder::Incomparable,
            ExtendedRowKeyValue::AutoIncr => KeyOrder::Incomparable,
            _ => KeyOrder::Less,
        },
        ExtendedRowKeyValue::InfMax => match b {
            ExtendedRowKeyValue::InfMax => KeyOrder::Incomparable,
            ExtendedRowKeyValue::AutoIncr => KeyOrder::Incomparable,
            _ => KeyOrder::Greater,
        },
        ExtendedRowKeyValue::Int(x) => match b {
            ExtendedRowKeyValue::Int(y) => if *x < *y {
                KeyOrder::Less
            } else if *x > *y {
                KeyOrder::Greater
            } else {
                KeyOrder::Equal
            },
            ExtendedRowKeyValue::InfMin => KeyOrder::Greater,
            ExtendedRowKeyValue::InfMax => KeyOrder::Less,
            _ => KeyOrder::Incomparable,
        },
        ExtendedRowKeyValue::Str(x) => match b {
            ExtendedRowKeyValue::Str(y) => lex_bytes(x.as_str().as_bytes(), y.as_str().as_bytes()),
            ExtendedRowKeyValue::InfMin => KeyOrder::Greater,
            ExtendedRowKeyValue::InfMax => KeyOrder::Less,
            _ => KeyOrder::Incomparable,
        },
        ExtendedRowKeyValue::Blob(x) => match b {
            ExtendedRowKeyValue::Blob(y) => lex_bytes(x.as_slice(), y.as_slice()),
            ExtendedRowKeyValue::InfMin => KeyOrder::Greater,
            ExtendedRowKeyValue::InfMax => KeyOrder::Less,
            _ => KeyOrder::Incomparable,
        },
        ExtendedRowKeyValue::AutoIncr => KeyOrder::Incomparable,
    }
}

/// Compares two boundary keys column-wise.
pub fn compare_keys(a: &ExtendedRowKey, b: &ExtendedRowKey) -> (r: KeyOrder)
    ensures
        r == spec_cmp_key(a@, b@),
{
    let mut i: usize = 0;
    proof {
        assert(a@.skip(0) =~= a@);
        assert(b@.skip(0) =~= b@);
    }
    while i < a.0.len() && i < b.0.len()
        invariant
            i <= a@.len(),
            i <= b@.len(),
            a@.len() == a.0@.len(),
            b@.len() == b.0@.len(),
            spec_cmp_key(a@, b@) == spec_cmp_key(a@.skip(i as int), b@.skip(i as int)),
        decreases a@.len() - i,
    {
        let c = compare_values(&a.0[i].value, &b.0[i].value);
        proof {
            assert(a@.skip(i as int)[0] == a@[i as int]);
            assert(b@.skip(i as int)[0] == b@[i as int]);
            assert(a@.skip(i as int).drop_first() =~= a@.skip(i + 1));
            assert(b@.skip(i as int).drop_first() =~= b@.skip(i + 1));
        }
        if !matches!(c, KeyOrder::Equal) {
            return c;
        }
        i = i + 1;
    }
    if a.0.len() == b.0.len() {
        KeyOrder::Equal
    } else if a.0.len() < b.0.len() {
        KeyOrder::Less
    } else {
        KeyOrder::Greater
    }
}

impl PartialOrd for ExtendedRowKeyValue {
    /// The partial order as std sees it: `None` for incomparable pairs.
    fn partial_cmp(&self, other: &Self) -> (r: Option<core::cmp::Ordering>)
        ensures
            r == (match spec_cmp_value(self@, other@) {
                KeyOrder::Less => Some(core::cmp::Ordering::Less),
                KeyOrder::Equal => Some(core::cmp::Ordering::Equal),
                KeyOrder::Greater => Some(core::cmp::Ordering::Greater),
                KeyOrder::Incomparable => None::<core::cmp::Ordering>,
            }),
    {
        match compare_values(self, other) {
            KeyOrder::Less => Some(core::cmp::Ordering::Less),
            KeyOrder::Equal => Some(core::cmp::Ordering::Equal),
            KeyOrder::Greater => Some(core::cmp::Ordering::Greater),
            KeyOrder::Incomparable => None,
        }
    }
}

impl vstd::std_specs::cmp::PartialOrdSpecImpl for ExtendedRowKeyValue {
    open spec fn obeys_partial_cmp_spec() -> bool {
        true
    }

    open spec fn partial_cmp_spec(&self, other: &Self) -> Option<core::cmp::Ordering> {
        match spec_cmp_value(self@, other@) {
            KeyOrder::Less => Some(core::cmp::Ordering::Less),
            KeyOrder::Equal => Some(core::cmp::Ordering::Equal),
            KeyOrder::Greater => Some(core::cmp::Ordering::Greater),
            KeyOrder::Incomparable => None,
        }
    }
}

/// Within matching concrete variants, the order agrees with the
/// underlying primitive's natural order: numeric for integers,
/// lexicographic byte order for strings (over their UTF-8 bytes) and
/// blobs.
pub proof fn lemma_order_same_variant()
    ensures
        forall|x: i64, y: i64|
            spec_cmp_value(ValueModel::Int(x), ValueModel::Int(y)) == (if x < y {
                KeyOrder::Less
            } else if x > y {
                KeyOrder::Greater
            } else {
                KeyOrder::Equal
            }),
        forall|x: Seq<u8>, y: Seq<u8>|
            spec_cmp_value(ValueModel::Blob(x), ValueModel::Blob(y)) == spec_lex_bytes(x, y),
        forall|x: Seq<char>, y: Seq<char>|
            spec_cmp_value(ValueModel::Str(x), ValueModel::Str(y)) == spec_lex_bytes(
                encode_utf8(x),
                encode_utf8(y),
            ),
{
}

/// `InfMin` is strictly below every concrete value and below `InfMax`;
/// `InfMax` is strictly above every concrete value.
pub proof fn lemma_order_sentinel_bounds(v: ValueModel)
    requires
        is_concrete(v),
    ensures
        spec_cmp_value(ValueModel::InfMin, v) == KeyOrder::Less,
        spec_cmp_value(v, ValueModel::InfMin) == KeyOrder::Greater,
        spec_cmp_value(ValueModel::InfMax, v) == KeyOrder::Greater,
        spec_cmp_value(v, ValueModel::InfMax) == KeyOrder::Less,
        spec_cmp_value(ValueModel::InfMin, ValueModel::InfMax) == KeyOrder::Less,
        spec_cmp_value(ValueModel::InfMax, ValueModel::InfMin) == KeyOrder::Greater,
{
}

/// `AutoIncr` compares incomparable with every value, itself included,
/// and so do `InfMin` and `InfMax` with themselves.
pub proof fn lemma_order_incomparable(v: ValueModel)
    ensures
        spec_cmp_value(ValueModel::AutoIncr, v) == KeyOrder::Incomparable,
        spec_cmp_value(v, ValueModel::AutoIncr) == KeyOrder::Incomparable,
        spec_cmp_value(ValueModel::InfMin, ValueModel::InfMin) == KeyOrder::Incomparable,
        spec_cmp_value(ValueModel::InfMax, ValueModel::InfMax) == KeyOrder::Incomparable,
{
}

impl RowKey {
    /// Wraps key columns as a stored-row primary key.
    pub fn new(keys: Vec<RowKeyColumn>) -> (r: Self)
        ensures
            r@ == keys.deep_view(),
    {
        RowKey(keys)
    }

    /// Widens a stored-row key into a boundary key; every column keeps
    /// its name and value, so the view is unchanged.
    pub fn into_extended(self) -> (r: ExtendedRowKey)
        ensures
            r@ == self@,
    {
        let RowKey(cols) = self;
        let ghost orig = cols.deep_view();
        let mut rest = cols;
        let mut out: Vec<ExtendedRowKeyColumn> = Vec::new();
        while rest.len() > 0
            invariant
                out@.len() + rest@.len() == orig.len(),
                out.deep_view() =~= orig.take(out@.len() as int),
                rest.deep_view() =~= orig.skip(out@.len() as int),
            decreases rest@.len(),
        {
            let ghost k = out@.len() as int;
            let ghost rt = rest.deep_view();
            let col = rest.remove(0);
            proof {
                assert(col.deep_view() == rt[0]);
                assert(rest.deep_view() =~= rt.drop_first());
                assert(rt.drop_first() =~= orig.skip(k + 1));
            }
            let RowKeyColumn { name, value } = col;
            let value = match value {
                RowKeyValue::Int(x) => ExtendedRowKeyValue::Int(x),
                RowKeyValue::Str(s) => ExtendedRowKeyValue::Str(s),
                RowKeyValue::Blob(b) => ExtendedRowKeyValue::Blob(b),
            };
            out.push(ExtendedRowKeyColumn { name, value });
            proof {
                assert(out.deep_view() =~= orig.take(k + 1));
            }
        }
        proof {
            assert(orig.take(orig.len() as int) =~= orig);
        }
        ExtendedRowKey(out)
    }
}

impl ExtendedRowKey {
    /// Wraps boundary key columns as a boundary key.
    pub fn new(keys: Vec<ExtendedRowKeyColumn>) -> (r: Self)
        ensures
            r@ == keys.deep_view(),
    {
        ExtendedRowKey(keys)
    }

    /// Narrows a boundary key back to a stored-row key.  Succeeds, with
    /// the view unchanged, exactly when no column holds a sentinel.
    pub fn into_row_key(self) -> (r: Result<RowKey, Error>)
        ensures
            r is Ok <==> (forall|i: int|
                0 <= i < self@.len() ==> is_concrete(#[trigger] self@[i].value)),
            r matches Ok(k) ==> k@ == self@,
            r matches Err(e) ==> e.code == ErrorCode::ClientUnknown,
    {
        let n = self.0.len();
        let mut i: usize = 0;
        while i < n
            invariant
                i <= n,
                n == self@.len() == self.0@.len(),
                forall|j: int| 0 <= j < i ==> is_concrete(#[trigger] self@[j].value),
            decreases n - i,
        {
            match &self.0[i].value {
                ExtendedRowKeyValue::Int(_) => {},
                ExtendedRowKeyValue::Str(_) => {},
                ExtendedRowKeyValue::Blob(_) => {},
                _ => {
                    proof {
                        assert(!is_concrete(self@[i as int].value));
                        assert(!(forall|j: int|
                            0 <= j < self@.len() ==> is_concrete(#[trigger] self@[j].value)));
                    }
                    return Err(
                        Error {
                            code: ErrorCode::ClientUnknown,
                            message: String::from_str(
                                "Cannot convert InfMin/InfMax/AutoIncr to PrimaryKeyValue",
                            ),
                        },
                    );
                },
            }
            i = i + 1;
        }
        let ghost whole = self@;
        let ExtendedRowKey(cols) = self;
        let ghost orig = cols.deep_view();
        proof {
            assert(orig == whole);
        }
        let mut rest = cols;
        let mut out: Vec<RowKeyColumn> = Vec::new();
        while rest.len() > 0
            invariant
                out@.len() + rest@.len() == orig.len(),
                out.deep_view() =~= orig.take(out@.len() as int),
                rest.deep_view() =~= orig.skip(out@.len() as int),
                forall|j: int| 0 <= j < orig.len() ==> is_concrete(#[trigger] orig[j].value),
            decreases rest@.len(),
        {
            let ghost k = out@.len() as int;
            let ghost rt = rest.deep_view();
            let col = rest.remove(0);
            proof {
                assert(col.deep_view() == rt[0]);
                assert(rt[0] == orig[k]);
                assert(rest.deep_view() =~= rt.drop_first());
                assert(rt.drop_first() =~= orig.skip(k + 1));
            }
            let ExtendedRowKeyColumn { name, value } = col;
            let value = match value {
                ExtendedRowKeyValue::Int(x) => RowKeyValue::Int(x),
                ExtendedRowKeyValue::Str(s) => RowKeyValue::Str(s),
                ExtendedRowKeyValue::Blob(b) => RowKeyValue::Blob(b),
                _ => {
                    proof {
                        assert(is_concrete(orig[k].value));
                        assert(value@ == orig[k].value);
                        assert(false);
                    }
                    RowKeyValue::Int(0)
                },
            };
            out.push(RowKeyColumn { name, value });
            proof {
                assert(out.deep_view() =~= orig.take(k + 1));
            }
        }
        proof {
            assert(orig.take(orig.len() as int) =~= orig);
        }
        Ok(RowKey(out))
    }

    /// Builds a boundary key over the schema's column names from a
    /// concrete prefix, padding the remaining columns with `InfMin`: the
    /// open lower bound of a scan.
    pub fn fill_with_infmin(rowkey_names: &Vec<Name>, rowkey_prefix: Vec<RowKeyValue>) -> (r:
        Result<ExtendedRowKey, Error>)
        ensures
            r is Ok <==> rowkey_names@.len() >= rowkey_prefix@.len(),
            r matches Ok(k) ==> filled_key(
                k@,
                rowkey_names.deep_view(),
                rowkey_prefix.deep_view(),
                ValueModel::InfMin,
            ),
            r matches Err(e) ==> e.code == ErrorCode::ClientUnknown,
    {
        Self::fill_with(rowkey_names, rowkey_prefix, ExtendedRowKeyValue::InfMin)
    }

    /// Builds a boundary key over the schema's column names from a
    /// concrete prefix, padding the remaining columns with `InfMax`: the
    /// open upper bound of a scan.
    pub fn fill_with_infmax(rowkey_names: &Vec<Name>, rowkey_prefix: Vec<RowKeyValue>) -> (r:
        Result<ExtendedRowKey, Error>)
        ensures
            r is Ok <==> rowkey_names@.len() >= rowkey_prefix@.len(),
            r matches Ok(k) ==> filled_key(
                k@,
                rowkey_names.deep_view(),
                rowkey_prefix.deep_view(),
                ValueModel::InfMax,
            ),
            r matches Err(e) ==> e.code == ErrorCode::ClientUnknown,
    {
        Self::fill_with(rowkey_names, rowkey_prefix, ExtendedRowKeyValue::InfMax)
    }

    fn fill_with(
        rowkey_names: &Vec<Name>,
        rowkey_prefix: Vec<RowKeyValue>,
        fill: ExtendedRowKeyValue,
    ) -> (r: Result<ExtendedRowKey, Error>)
        ensures
            r is Ok <==> rowkey_names@.len() >= rowkey_prefix@.len(),
            r matches Ok(k) ==> filled_key(
                k@,
                rowkey_names.deep_view(),
                rowkey_prefix.deep_view(),
                fill@,
            ),
            r matches Err(e) ==> e.code == ErrorCode::ClientUnknown,
    {
        if rowkey_names.len() < rowkey_prefix.len() {
            return Err(
                Error {
                    code: ErrorCode::ClientUnknown,
                    message: String::from_str("rowkey_names must be longer than rowkey_prefix."),
                },
            );
        }
        let ghost names = rowkey_names.deep_view();
        let ghost prefix_model = rowkey_prefix.deep_view();
        let plen = rowkey_prefix.len();
        let n = rowkey_names.len();
        let mut rest = rowkey_prefix;
        let mut out: Vec<ExtendedRowKeyColumn> = Vec::new();
        while rest.len() > 0
            invariant
                out@.len() + rest@.len() == plen,
                plen == prefix_model.len() <= names.len(),
                names == rowkey_names.deep_view(),
                names.len() == rowkey_names@.len(),
                rest.deep_view() =~= prefix_model.skip(out@.len() as int),
                forall|t: int| 0 <= t < out@.len() ==> (#[trigger] out.deep_view()[t]).name
                    == names[t] && out.deep_view()[t].value == prefix_model[t],
            decreases rest@.len(),
        {
            let i = out.len();
            let ghost rt = rest.deep_view();
            let v = rest.remove(0);
            proof {
                assert(v.deep_view() == rt[0]);
                assert(rest.deep_view() =~= rt.drop_first());
                assert(rt.drop_first() =~= prefix_model.skip(i as int + 1));
            }
            let value = match v {
                RowKeyValue::Int(x) => ExtendedRowKeyValue::Int(x),
                RowKeyValue::Str(s) => ExtendedRowKeyValue::Str(s),
                RowKeyValue::Blob(b) => ExtendedRowKeyValue::Blob(b),
            };
            let nm = rowkey_names[i].clone();
            proof {
                assert(nm@ == names[i as int]);
                assert(value@ == prefix_model[i as int]);
            }
            let ghost before = out.deep_view();
            out.push(ExtendedRowKeyColumn { name: nm, value });
            proof {
                assert(out.deep_view() =~= before.push(
                    ColumnModel { name: names[i as int], value: prefix_model[i as int] },
                ));
            }
        }
        let mut k: usize = plen;
        while k < n
            invariant
                plen <= k <= n,
                n == names.len() == rowkey_names@.len(),
                names == rowkey_names.deep_view(),
                plen == prefix_model.len(),
                out@.len() == k,
                forall|t: int| 0 <= t < plen ==> (#[trigger] out.deep_view()[t]).name == names[t]
                    && out.deep_view()[t].value == prefix_model[t],
                forall|t: int| plen <= t < k ==> (#[trigger] out.deep_view()[t]).name == names[t]
                    && out.deep_view()[t].value == fill@,
            decreases n - k,
        {
            let nm = rowkey_names[k].clone();
            let fv = fill.clone();
            proof {
                assert(nm@ == names[k as int]);
                assert(fv@ == fill@);
            }
            let ghost before = out.deep_view();
            out.push(ExtendedRowKeyColumn { name: nm, value: fv });
            proof {
                assert(out.deep_view() =~= before.push(
                    ColumnModel { name: names[k as int], value: fill@ },
                ));
            }
            k = k + 1;
        }
        Ok(ExtendedRowKey(out))
    }
}

/// The shape that `fill_with_infmin` / `fill_with_infmax` promise: the
/// key runs over the schema's names, carries the concrete prefix first,
/// and pads the rest with the sentinel.
pub open spec fn filled_key(
    k: Seq<ColumnModel>,
    names: Seq<Seq<char>>,
    prefix: Seq<ValueModel>,
    fill: ValueModel,
) -> bool {
    &&& k.len() == names.len()
    &&& forall|i: int| 0 <= i < k.len() ==> (#[trigger] k[i]).name == names[i]
    &&& forall|i: int| 0 <= i < prefix.len() ==> (#[trigger] k[i]).value == prefix[i]
    &&& forall|i: int| prefix.len() <= i < k.len() ==> (#[trigger] k[i]).value == fill
}



} // verus!
