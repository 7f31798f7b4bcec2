//! Tables of the storage model: their schemas, references to them, row
//! objects and cluster handles. Column lookups resolve names and positions
//! against the schema; row objects hold their values keyed by column key.

use vstd::prelude::*;

use crate::keys::{
    attr_bits, spec_col_attrs, spec_col_index, spec_col_tag, spec_col_type_code, type_code, ColKey,
    ColumnAttr, DataType, ObjKey, TableKey,
};
use crate::store::{Error, Writer};
use crate::value::{ValV, Value};

verus! {

broadcast use vstd::seq::group_seq_axioms, vstd::std_specs::vec::group_vec_axioms;

/// A column type as callers declare it: a storable type, nullable or not.
pub enum ColumnType {
    NonNullable(DataType),
    Nullable(DataType),
}

/// The storage-level column type a declared data type maps to.
pub open spec fn spec_data_column_type(d: DataType) -> crate::keys::ColumnType {
    match d {
        DataType::Int => crate::keys::ColumnType::Int,
        DataType::Bool => crate::keys::ColumnType::Bool,
        DataType::String => crate::keys::ColumnType::String,
        DataType::Binary => crate::keys::ColumnType::Binary,
        DataType::Mixed => crate::keys::ColumnType::Mixed,
        DataType::Timestamp => crate::keys::ColumnType::Timestamp,
        DataType::Float => crate::keys::ColumnType::Float,
        DataType::Double => crate::keys::ColumnType::Double,
        DataType::Decimal => crate::keys::ColumnType::Decimal,
        DataType::Link => crate::keys::ColumnType::Link,
        DataType::LinkList => crate::keys::ColumnType::LinkList,
        DataType::ObjectId => crate::keys::ColumnType::ObjectId,
        DataType::TypedLink => crate::keys::ColumnType::TypedLink,
        DataType::UUID => crate::keys::ColumnType::UUID,
    }
}

/// Map a declared data type to its storage-level column type.
pub fn data_column_type(d: DataType) -> (r: crate::keys::ColumnType)
    ensures
        r == spec_data_column_type(d),
{
    match d {
        DataType::Int => crate::keys::ColumnType::Int,
        DataType::Bool => crate::keys::ColumnType::Bool,
        DataType::String => crate::keys::ColumnType::String,
        DataType::Binary => crate::keys::ColumnType::Binary,
        DataType::Mixed => crate::keys::ColumnType::Mixed,
        DataType::Timestamp => crate::keys::ColumnType::Timestamp,
        DataType::Float => crate::keys::ColumnType::Float,
        DataType::Double => crate::keys::ColumnType::Double,
        DataType::Decimal => crate::keys::ColumnType::Decimal,
        DataType::Link => crate::keys::ColumnType::Link,
        DataType::LinkList => crate::keys::ColumnType::LinkList,
        DataType::ObjectId => crate::keys::ColumnType::ObjectId,
        DataType::TypedLink => crate::keys::ColumnType::TypedLink,
        DataType::UUID => crate::keys::ColumnType::UUID,
    }
}

/// One column of a table's schema.
pub struct ColumnInfo {
    pub key: ColKey,
    pub ty: crate::keys::ColumnType,
    pub name: String,
}

/// A table's schema: its columns, in leaf order.
pub struct Spec {
    pub columns: Vec<ColumnInfo>,
}

impl Spec {
    /// Number of columns.
    pub fn get_column_count(&self) -> (n: usize)
        ensures
            n == self.columns@.len(),
    {
        self.columns.len()
    }

    /// The key of the column at a position; an error exactly when the
    /// position is out of range.
    pub fn get_key(&self, column_ndx: usize) -> (r: Result<ColKey, Error>)
        ensures
            match r {
                Ok(k) => column_ndx < self.columns@.len() && k == self.columns@[column_ndx as int].key,
                Err(_) => column_ndx >= self.columns@.len(),
            },
    {
        if column_ndx < self.columns.len() {
            Ok(self.columns[column_ndx].key)
        } else {
            Err(Error::with_message(String::new()))
        }
    }

    /// The type of the column at a position.
    pub fn get_column_type(&self, column_ndx: usize) -> (r: crate::keys::ColumnType)
        requires
            column_ndx < self.columns@.len(),
        ensures
            r == self.columns@[column_ndx as int].ty,
    {
        self.columns[column_ndx].ty
    }

    /// The name of the column at a position.
    pub fn get_column_name(&self, column_ndx: usize) -> (r: &str)
        requires
            column_ndx < self.columns@.len(),
        ensures
            r@ == self.columns@[column_ndx as int].name@,
    {
        self.columns[column_ndx].name.as_str()
    }

    /// The position of the first column with the given name, or the column
    /// count when no column has it.
    pub fn get_column_index(&self, name: &String) -> (r: usize)
        ensures
            r <= self.columns@.len(),
            r < self.columns@.len() ==> self.columns@[r as int].name@ == name@ && forall|j: int|
                0 <= j < r ==> (#[trigger] self.columns@[j]).name@ != name@,
            r == self.columns@.len() ==> forall|j: int|
                0 <= j < self.columns@.len() ==> (#[trigger] self.columns@[j]).name@ != name@,
    {
        let n = self.columns.len();
        let mut j: usize = 0;
        while j < n
            invariant
                0 <= j <= n,
                n == self.columns@.len(),
                forall|t: int| 0 <= t < j ==> (#[trigger] self.columns@[t]).name@ != name@,
            decreases n - j,
        {
            if self.columns[j].name.eq(name) {
                return j;
            }
            j += 1;
        }
        n
    }
}

/// A reference to a table: its key, name, row count and schema.
pub struct TableRef {
    pub key: TableKey,
    pub name: String,
    pub size: usize,
    pub table_spec: Spec,
}

impl TableRef {
    /// The table's key.
    pub fn key(&self) -> (r: TableKey)
        ensures
            r == self.key,
    {
        self.key
    }

    /// The table's name.
    pub fn name(&self) -> (r: &str)
        ensures
            r@ == self.name@,
    {
        self.name.as_str()
    }

    /// Number of rows in the table.
    pub fn size(&self) -> (r: usize)
        ensures
            r == self.size,
    {
        self.size
    }

    /// The table's schema.
    pub fn spec(&self) -> (r: &Spec)
        ensures
            r == &self.table_spec,
    {
        &self.table_spec
    }

    /// Add a column of the given type to the end of the schema. The writer
    /// witnesses that a write transaction is open. The new key packs the
    /// column's position, its type and, when nullable, the nullability
    /// attribute.
    pub fn add_column(
        &mut self,
        writer: &mut Writer,
        ty: DataType,
        name: &str,
        nullable: bool,
    ) -> (r: Result<ColKey, Error>)
        requires
            old(self).table_spec.columns@.len() < 0x1_0000_0000,
        ensures
            *final(writer) == *old(writer),
            final(self).key == old(self).key,
            final(self).name == old(self).name,
            final(self).size == old(self).size,
            match r {
                Ok(k) => {
                    &&& final(self).table_spec.columns@.len() == old(
                        self,
                    ).table_spec.columns@.len() + 1
                    &&& final(self).table_spec.columns@.drop_last() == old(self).table_spec.columns@
                    &&& final(self).table_spec.columns@.last().key == k
                    &&& final(self).table_spec.columns@.last().ty == spec_data_column_type(ty)
                    &&& final(self).table_spec.columns@.last().name@ == name@
                    &&& spec_col_index(k) == old(self).table_spec.columns@.len()
                    &&& spec_col_type_code(k) == type_code(spec_data_column_type(ty))
                    &&& spec_col_attrs(k) == (if nullable {
                        attr_bits(ColumnAttr::col_attr_Nullable)
                    } else {
                        0
                    })
                    &&& spec_col_tag(k) == 0
                },
                Err(_) => false,
            },
    {
        let index = self.table_spec.columns.len() as u32;
        let ct = data_column_type(ty);
        let attrs: u64 = if nullable {
            16
        } else {
            0
        };
        let k = ColKey::new(index, ct, attrs, 0);
        self.table_spec.columns.push(ColumnInfo { key: k, ty: ct, name: name.to_owned() });
        proof {
            assert(self.table_spec.columns@.drop_last() =~= old(self).table_spec.columns@);
        }
        Ok(k)
    }
}

/// The first value stored under a column key, if any.
pub open spec fn spec_lookup(s: Seq<(ColKey, Value)>, k: ColKey) -> Option<ValV>
    decreases s.len(),
{
    if s.len() == 0 {
        None
    } else if s[0].0 == k {
        Some(s[0].1@)
    } else {
        spec_lookup(s.skip(1), k)
    }
}

proof fn lemma_lookup_update(s: Seq<(ColKey, Value)>, i: int, kv: (ColKey, Value), k2: ColKey)
    requires
        0 <= i < s.len(),
        forall|j: int| 0 <= j < i ==> (#[trigger] s[j]).0 != kv.0,
        s[i].0 == kv.0,
    ensures
        spec_lookup(s.update(i, kv), k2) == if k2 == kv.0 {
            Some(kv.1@)
        } else {
            spec_lookup(s, k2)
        },
    decreases i,
{
    let s2 = s.update(i, kv);
    if i == 0 {
        assert(s2.skip(1) =~= s.skip(1));
    } else {
        assert(s2.skip(1) =~= s.skip(1).update(i - 1, kv));
        lemma_lookup_update(s.skip(1), i - 1, kv, k2);
    }
}

proof fn lemma_lookup_push(s: Seq<(ColKey, Value)>, kv: (ColKey, Value), k2: ColKey)
    requires
        forall|j: int| 0 <= j < s.len() ==> (#[trigger] s[j]).0 != kv.0,
    ensures
        spec_lookup(s.push(kv), k2) == if k2 == kv.0 {
            Some(kv.1@)
        } else {
            spec_lookup(s, k2)
        },
    decreases s.len(),
{
    if s.len() == 0 {
        assert(s.push(kv)[0] == kv);
        assert(s.push(kv).skip(1) =~= Seq::<(ColKey, Value)>::empty());
        assert(spec_lookup(s, k2) is None);
        assert(spec_lookup(s.push(kv).skip(1), k2) is None);
    } else {
        assert(s.push(kv).skip(1) =~= s.skip(1).push(kv));
        lemma_lookup_push(s.skip(1), kv, k2);
    }
}

/// A row object: its key and its values, each under its column key.
pub struct Obj {
    pub key: ObjKey,
    pub fields: Vec<(ColKey, Value)>,
}

impl Obj {
    /// The integer stored under a column key; an error exactly when nothing
    /// is stored there or the stored value is of another kind.
    pub fn get_int(&self, col_key: ColKey) -> (r: Result<i64, Error>)
        ensures
            match r {
                Ok(v) => spec_lookup(self.fields@, col_key) == Some(ValV::Int(v)),
                Err(_) => !(spec_lookup(self.fields@, col_key) matches Some(x) && x is Int),
            },
    {
        let n = self.fields.len();
        let mut j: usize = 0;
        proof {
            assert(self.fields@.skip(0) =~= self.fields@);
        }
        while j < n
            invariant
                0 <= j <= n,
                n == self.fields@.len(),
                spec_lookup(self.fields@, col_key) == spec_lookup(
                    self.fields@.skip(j as int),
                    col_key,
                ),
                forall|t: int| 0 <= t < j ==> (#[trigger] self.fields@[t]).0 != col_key,
            decreases n - j,
        {
            proof {
                assert(self.fields@.skip(j as int)[0] == self.fields@[j as int]);
                assert(self.fields@.skip(j as int).skip(1) =~= self.fields@.skip(j + 1));
            }
            if self.fields[j].0 == col_key {
                match &self.fields[j].1 {
                    Value::Int(x) => {
                        return Ok(*x);
                    },
                    _ => {
                        return Err(Error::with_message(String::new()));
                    },
                }
            }
            j += 1;
        }
        Err(Error::with_message(String::new()))
    }

    /// Store an integer under a column key, replacing what the first entry
    /// with that key held or appending a fresh entry. Nothing stored under
    /// any other key changes.
    pub fn set_int(&mut self, col_key: ColKey, value: i64) -> (r: Result<(), Error>)
        ensures
            r is Ok,
            final(self).key == old(self).key,
            spec_lookup(final(self).fields@, col_key) == Some(ValV::Int(value)),
            forall|k2: ColKey|
                k2 != col_key ==> #[trigger] spec_lookup(final(self).fields@, k2) == spec_lookup(
                    old(self).fields@,
                    k2,
                ),
    {
        self.set_value(col_key, Value::Int(value));
        Ok(())
    }

    /// Store a byte string under a column key, replacing what the first
    /// entry with that key held or appending a fresh entry. Nothing stored
    /// under any other key changes.
    pub fn set_string(&mut self, col_key: ColKey, value: Vec<u8>) -> (r: Result<(), Error>)
        ensures
            r is Ok,
            final(self).key == old(self).key,
            spec_lookup(final(self).fields@, col_key) matches Some(x) && x == ValV::Str(value@),
            forall|k2: ColKey|
                k2 != col_key ==> #[trigger] spec_lookup(final(self).fields@, k2) == spec_lookup(
                    old(self).fields@,
                    k2,
                ),
    {
        self.set_value(col_key, Value::Str(value));
        Ok(())
    }

    /// Store a value under a column key: the shared heart of every setter.
    fn set_value(&mut self, col_key: ColKey, value: Value)
        ensures
            final(self).key == old(self).key,
            spec_lookup(final(self).fields@, col_key) == Some(value@),
            forall|k2: ColKey|
                k2 != col_key ==> #[trigger] spec_lookup(final(self).fields@, k2) == spec_lookup(
                    old(self).fields@,
                    k2,
                ),
    {
        let n = self.fields.len();
        let mut j: usize = 0;
        while j < n
            invariant
                0 <= j <= n,
                n == self.fields@.len(),
                *self == *old(self),
                forall|t: int| 0 <= t < j ==> (#[trigger] self.fields@[t]).0 != col_key,
            decreases n - j,
        {
            if self.fields[j].0 == col_key {
                let slot = &mut self.fields[j];
                *slot = (col_key, value);
                proof {
                    lemma_lookup_update(
                        old(self).fields@,
                        j as int,
                        (col_key, value),
                        col_key,
                    );
                    assert forall|k2: ColKey| k2 != col_key implies #[trigger] spec_lookup(
                        self.fields@,
                        k2,
                    ) == spec_lookup(old(self).fields@, k2) by {
                        lemma_lookup_update(old(self).fields@, j as int, (col_key, value), k2);
                    }
                }
                return ;
            }
            j += 1;
        }
        self.fields.push((col_key, value));
        proof {
            lemma_lookup_push(old(self).fields@, (col_key, value), col_key);
            assert forall|k2: ColKey| k2 != col_key implies #[trigger] spec_lookup(
                self.fields@,
                k2,
            ) == spec_lookup(old(self).fields@, k2) by {
                lemma_lookup_push(old(self).fields@, (col_key, value), k2);
            }
        }
    }
}

/// A handle to one cluster (leaf node) of a table's cluster tree: where the
/// object keys and each column's leaf array live.
pub struct Cluster {
    pub keys_ref: usize,
    pub column_refs: Vec<usize>,
}

impl Cluster {
    /// The node holding the cluster's object keys.
    pub fn get_keys_ref(&self) -> (r: usize)
        ensures
            r == self.keys_ref,
    {
        self.keys_ref
    }

    /// The node holding the given column's leaf array.
    pub fn get_column_ref(&self, column_ndx: usize) -> (r: usize)
        requires
            column_ndx < self.column_refs@.len(),
        ensures
            r == self.column_refs@[column_ndx as int],
    {
        self.column_refs[column_ndx]
    }
}

} // verus!
