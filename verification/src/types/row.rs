//! A row: the unit of read and write, a primary key plus its attributes.

use vstd::prelude::*;
use super::rowkey::{RowKey, ColumnModel};
use super::attr::{Attribute, AttrModel};

verus! {

/// One stored row: its primary key and its attribute cells, in order.
#[derive(Debug, PartialEq, Eq)]
pub struct Row {
    pub row_key: RowKey,
    pub attrs: Vec<Attribute>,
}

/// The mathematical shadow of a row.
pub struct RowModel {
    pub key: Seq<ColumnModel>,
    pub attrs: Seq<AttrModel>,
}

impl View for Row {
    type V = RowModel;

    open spec fn view(&self) -> RowModel {
        RowModel { key: self.row_key@, attrs: self.attrs.deep_view() }
    }
}

impl DeepView for Row {
    type V = RowModel;

    open spec fn deep_view(&self) -> RowModel {
        self.view()
    }
}

impl Clone for Row {
    fn clone(&self) -> (r: Self)
        ensures
            r@ == self@,
    {
        let row_key = self.row_key.clone();
        let mut attrs: Vec<Attribute> = Vec::new();
        let mut i: usize = 0;
        while i < self.attrs.len()
            invariant
                i <= self.attrs@.len(),
                attrs@.len() == i,
                attrs.deep_view() =~= self.attrs.deep_view().take(i as int),
            decreases self.attrs@.len() - i,
        {
            let a = self.attrs[i].clone();
            proof {
                assert(a@ == self.attrs@[i as int]@);
            }
            attrs.push(a);
            i = i + 1;
            proof {
                assert(attrs.deep_view() =~= self.attrs.deep_view().take(i as int));
            }
        }
        proof {
            assert(self.attrs.deep_view().take(self.attrs@.len() as int) =~= self.attrs.deep_view());
        }
        Row { row_key, attrs }
    }
}

} // verus!
