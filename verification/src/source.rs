//! The data a query runs over: typed per-leaf columns, leaves (contiguous row
//! ranges stored column-wise), and a leaf source exposing leaves by index.
//!
//! The capability interfaces (`LeafSource`, `RowSource`, `ColumnSource`) are
//! what the storage layer supplies to the engine; `Table`, `Leaf` and `Column`
//! are the in-memory store of this crate that implements them. A missing cell
//! models a null and is never an error.

use vstd::prelude::*;

use crate::value::{ValKind, ValV, Value};

verus! {

/// A typed per-leaf array of optional values.
#[derive(Clone, Debug)]
pub enum Column {
    Ints(Vec<Option<i64>>),
    Floats(Vec<Option<u64>>),
    Bools(Vec<Option<bool>>),
    Strs(Vec<Option<Vec<u8>>>),
}

/// The mathematical model of a column: its kind and its cells.
pub ghost struct ColV {
    pub kind: ValKind,
    pub cells: Seq<Option<ValV>>,
}

impl View for Column {
    type V = ColV;

    open spec fn view(&self) -> ColV {
        match self {
            Column::Ints(v) => ColV {
                kind: ValKind::Int,
                cells: Seq::new(
                    v@.len(),
                    |i: int|
                        match v@[i] {
                            Some(x) => Some(ValV::Int(x)),
                            None => None,
                        },
                ),
            },
            Column::Floats(v) => ColV {
                kind: ValKind::Float,
                cells: Seq::new(
                    v@.len(),
                    |i: int|
                        match v@[i] {
                            Some(x) => Some(ValV::Float(x)),
                            None => None,
                        },
                ),
            },
            Column::Bools(v) => ColV {
                kind: ValKind::Bool,
                cells: Seq::new(
                    v@.len(),
                    |i: int|
                        match v@[i] {
                            Some(x) => Some(ValV::Bool(x)),
                            None => None,
                        },
                ),
            },
            Column::Strs(v) => ColV {
                kind: ValKind::Str,
                cells: Seq::new(
                    v@.len(),
                    |i: int|
                        match v@[i] {
                            Some(x) => Some(ValV::Str(x@)),
                            None => None,
                        },
                ),
            },
        }
    }
}

/// The cell of a column at a row, with every out-of-range row reading as null.
pub open spec fn cell_at(c: ColV, row: int) -> Option<ValV> {
    if 0 <= row < c.cells.len() {
        c.cells[row]
    } else {
        None
    }
}

/// The model of what a fetched cell holds.
pub open spec fn opt_value_view(r: Option<Value>) -> Option<ValV> {
    match r {
        Some(v) => Some(v@),
        None => None,
    }
}

/// A leaf: a contiguous range of `rows` rows, stored as parallel columns.
#[derive(Clone, Debug)]
pub struct Leaf {
    pub rows: usize,
    pub columns: Vec<Column>,
}

/// The mathematical model of a leaf.
pub ghost struct LeafV {
    pub rows: nat,
    pub cols: Seq<ColV>,
}

impl View for Leaf {
    type V = LeafV;

    open spec fn view(&self) -> LeafV {
        LeafV { rows: self.rows as nat, cols: Seq::new(self.columns@.len(), |i: int| self.columns@[i]@) }
    }
}

/// The cell of a leaf at a column index and row, with every out-of-range
/// column reading as null.
pub open spec fn leaf_cell(l: LeafV, col: int, row: int) -> Option<ValV> {
    if 0 <= col < l.cols.len() {
        cell_at(l.cols[col], row)
    } else {
        None
    }
}

/// Array of values in a per-leaf column.
pub trait ColumnSource: Sized {
    spec fn col_view(&self) -> ColV;

    /// Fetch a value by row index; `None` models null or an out-of-range row.
    fn get(&self, index: usize) -> (r: Option<Value>)
        ensures
            opt_value_view(r) == cell_at(self.col_view(), index as int),
    ;
}

/// Rows in a leaf.
pub trait RowSource: Sized {
    spec fn leaf_view(&self) -> LeafV;

    /// Number of rows in the leaf.
    fn len(&self) -> (n: usize)
        ensures
            n == self.leaf_view().rows,
    ;

    /// Resolve a positional column index to its typed column; `None` when the
    /// index is not a column of this leaf (a schema mismatch, surfaced as an
    /// explicit result rather than a crash).
    fn get_column(&self, index: usize) -> (r: Option<&Column>)
        ensures
            match r {
                Some(c) => index < self.leaf_view().cols.len() && c@ == self.leaf_view().cols[index as int],
                None => index >= self.leaf_view().cols.len(),
            },
    ;
}

/// Something that can give out handles to leaves, like a cluster tree.
pub trait LeafSource: Sized {
    spec fn leaves(&self) -> Seq<LeafV>;

    /// Number of leaves.
    fn len(&self) -> (n: usize)
        ensures
            n == self.leaves().len(),
    ;

    /// Fetch a leaf by 0-based index; `None` once the index is out of range.
    fn get_leaf(&self, index: usize) -> (r: Option<&Leaf>)
        ensures
            match r {
                Some(l) => index < self.leaves().len() && l@ == self.leaves()[index as int],
                None => index >= self.leaves().len(),
            },
    ;
}

impl ColumnSource for Column {
    open spec fn col_view(&self) -> ColV {
        self@
    }

    fn get(&self, index: usize) -> (r: Option<Value>) {
        match self {
            Column::Ints(v) => {
                if index < v.len() {
                    match v[index] {
                        Some(x) => Some(Value::Int(x)),
                        None => None,
                    }
                } else {
                    None
                }
            },
            Column::Floats(v) => {
                if index < v.len() {
                    match v[index] {
                        Some(x) => Some(Value::Float(x)),
                        None => None,
                    }
                } else {
                    None
                }
            },
            Column::Bools(v) => {
                if index < v.len() {
                    match v[index] {
                        Some(x) => Some(Value::Bool(x)),
                        None => None,
                    }
                } else {
                    None
                }
            },
            Column::Strs(v) => {
                if index < v.len() {
                    match &v[index] {
                        Some(x) => {
                            let copied = copy_bytes(x);
                            Some(Value::Str(copied))
                        },
                        None => None,
                    }
                } else {
                    None
                }
            },
        }
    }
}

/// Copy a byte string cell out of its column.
pub(crate) fn copy_bytes(src: &Vec<u8>) -> (r: Vec<u8>)
    ensures
        r@ == src@,
{
    let mut out: Vec<u8> = Vec::new();
    let n = src.len();
    let mut i: usize = 0;
    while i < n
        invariant
            0 <= i <= n,
            n == src@.len(),
            out@ == src@.subrange(0, i as int),
        decreases n - i,
    {
        out.push(src[i]);
        proof {
            assert(out@ =~= src@.subrange(0, i + 1));
        }
        i += 1;
    }
    proof {
        assert(out@ =~= src@);
    }
    out
}

impl RowSource for Leaf {
    open spec fn leaf_view(&self) -> LeafV {
        self@
    }

    fn len(&self) -> (n: usize) {
        self.rows
    }

    fn get_column(&self, index: usize) -> (r: Option<&Column>) {
        if index < self.columns.len() {
            Some(&self.columns[index])
        } else {
            None
        }
    }
}

/// A full partitioned relation: the leaves of one table, in row order.
#[derive(Clone, Debug)]
pub struct Table {
    pub leaves: Vec<Leaf>,
}

impl View for Table {
    type V = Seq<LeafV>;

    open spec fn view(&self) -> Seq<LeafV> {
        Seq::new(self.leaves@.len(), |i: int| self.leaves@[i]@)
    }
}

impl LeafSource for Table {
    open spec fn leaves(&self) -> Seq<LeafV> {
        self@
    }

    fn len(&self) -> (n: usize) {
        self.leaves.len()
    }

    fn get_leaf(&self, index: usize) -> (r: Option<&Leaf>) {
        if index < self.leaves.len() {
            Some(&self.leaves[index])
        } else {
            None
        }
    }
}

} // verus!
