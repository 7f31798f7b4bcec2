//! Stable keys of the storage layer: tables, columns and objects are
//! addressed by small packed keys rather than positions. A column key packs
//! the column's leaf position, its type, its attribute mask and a tag into
//! one 64-bit value.

use vstd::prelude::*;

verus! {

/// The type of a value a column can store.
#[derive(Clone, Copy, PartialEq, Eq, Structural, Debug)]
pub enum DataType {
    Int,
    Bool,
    String,
    Binary,
    Mixed,
    Timestamp,
    Float,
    Double,
    Decimal,
    Link,
    LinkList,
    ObjectId,
    TypedLink,
    UUID,
}

/// The on-disk column type; a superset of `DataType` with backlinks.
#[derive(Clone, Copy, PartialEq, Eq, Structural, Debug)]
pub enum ColumnType {
    Int,
    Bool,
    String,
    Binary,
    Mixed,
    Timestamp,
    Float,
    Double,
    Decimal,
    Link,
    LinkList,
    BackLink,
    ObjectId,
    TypedLink,
    UUID,
}

/// The numeric code a column type is stored under inside a column key.
pub open spec fn type_code(t: ColumnType) -> u64 {
    match t {
        ColumnType::Int => 0,
        ColumnType::Bool => 1,
        ColumnType::String => 2,
        ColumnType::Binary => 4,
        ColumnType::Mixed => 6,
        ColumnType::Timestamp => 8,
        ColumnType::Float => 9,
        ColumnType::Double => 10,
        ColumnType::Decimal => 11,
        ColumnType::Link => 12,
        ColumnType::LinkList => 13,
        ColumnType::BackLink => 14,
        ColumnType::ObjectId => 15,
        ColumnType::TypedLink => 16,
        ColumnType::UUID => 17,
    }
}

/// The column type a stored code stands for, if any.
pub open spec fn type_of_code(c: u64) -> Option<ColumnType> {
    if c == 0 {
        Some(ColumnType::Int)
    } else if c == 1 {
        Some(ColumnType::Bool)
    } else if c == 2 {
        Some(ColumnType::String)
    } else if c == 4 {
        Some(ColumnType::Binary)
    } else if c == 6 {
        Some(ColumnType::Mixed)
    } else if c == 8 {
        Some(ColumnType::Timestamp)
    } else if c == 9 {
        Some(ColumnType::Float)
    } else if c == 10 {
        Some(ColumnType::Double)
    } else if c == 11 {
        Some(ColumnType::Decimal)
    } else if c == 12 {
        Some(ColumnType::Link)
    } else if c == 13 {
        Some(ColumnType::LinkList)
    } else if c == 14 {
        Some(ColumnType::BackLink)
    } else if c == 15 {
        Some(ColumnType::ObjectId)
    } else if c == 16 {
        Some(ColumnType::TypedLink)
    } else if c == 17 {
        Some(ColumnType::UUID)
    } else {
        None
    }
}

/// Per-column attribute flags, one bit each in a column key's attribute mask.
#[allow(non_camel_case_types)]
#[derive(Clone, Copy, PartialEq, Eq, Structural, Debug)]
pub enum ColumnAttr {
    col_attr_None,
    col_attr_Indexed,
    col_attr_Unique,
    col_attr_Reserved,
    col_attr_StrongLinks,
    col_attr_Nullable,
    col_attr_List,
    col_attr_Dictionary,
    col_attr_Set,
    col_attr_FullText_Indexed,
    col_attr_Collection,
}

/// The bit (or, for `col_attr_Collection`, the union of bits) an attribute
/// occupies in the mask.
pub open spec fn attr_bits(a: ColumnAttr) -> u64 {
    match a {
        ColumnAttr::col_attr_None => 0,
        ColumnAttr::col_attr_Indexed => 1,
        ColumnAttr::col_attr_Unique => 2,
        ColumnAttr::col_attr_Reserved => 4,
        ColumnAttr::col_attr_StrongLinks => 8,
        ColumnAttr::col_attr_Nullable => 16,
        ColumnAttr::col_attr_List => 32,
        ColumnAttr::col_attr_Dictionary => 64,
        ColumnAttr::col_attr_Set => 128,
        ColumnAttr::col_attr_FullText_Indexed => 256,
        ColumnAttr::col_attr_Collection => 224,
    }
}

impl ColumnAttr {
    /// The attribute's place in a column key's attribute mask.
    pub fn bits(&self) -> (r: u64)
        ensures
            r == attr_bits(*self),
    {
        match self {
            ColumnAttr::col_attr_None => 0,
            ColumnAttr::col_attr_Indexed => 1,
            ColumnAttr::col_attr_Unique => 2,
            ColumnAttr::col_attr_Reserved => 4,
            ColumnAttr::col_attr_StrongLinks => 8,
            ColumnAttr::col_attr_Nullable => 16,
            ColumnAttr::col_attr_List => 32,
            ColumnAttr::col_attr_Dictionary => 64,
            ColumnAttr::col_attr_Set => 128,
            ColumnAttr::col_attr_FullText_Indexed => 256,
            ColumnAttr::col_attr_Collection => 224,
        }
    }
}

/// Key of a table within a group.
#[derive(Clone, Copy, PartialEq, Eq, Structural, Debug, Hash)]
pub struct TableKey {
    pub value: u32,
}

impl TableKey {
    /// The key that stands for no table.
    pub fn invalid() -> (k: TableKey)
        ensures
            k.value == u32::MAX >> 1,
    {
        TableKey { value: u32::MAX >> 1 }
    }
}

/// Key of an object within a table.
#[derive(Clone, Copy, PartialEq, Eq, Structural, Debug, Hash)]
pub struct ObjKey {
    pub value: i64,
}

impl ObjKey {
    /// The key that stands for no object.
    pub fn invalid() -> (k: ObjKey)
        ensures
            k.value == -1,
    {
        ObjKey { value: -1 }
    }

    /// Whether the key stands for a tombstone of a deleted object rather than
    /// a live one: every key at or below -2.
    pub fn is_unresolved(&self) -> (r: bool)
        ensures
            r == (self.value <= -2),
    {
        self.value <= -2
    }
}

/// The bits of a column key, for reading its packed fields.
pub open spec fn col_key_bits(k: ColKey) -> u64 {
    k.value as u64
}

/// The column's position among its table's leaf arrays: the low 32 bits.
pub open spec fn spec_col_index(k: ColKey) -> u64 {
    col_key_bits(k) & 0xFFFF_FFFF
}

/// The column's type code: 6 bits above the index.
pub open spec fn spec_col_type_code(k: ColKey) -> u64 {
    (col_key_bits(k) >> 32) & 0x3F
}

/// The column's attribute mask: 8 bits above the type code.
pub open spec fn spec_col_attrs(k: ColKey) -> u64 {
    (col_key_bits(k) >> 38) & 0xFF
}

/// The column's tag: 16 bits above the attribute mask.
pub open spec fn spec_col_tag(k: ColKey) -> u64 {
    (col_key_bits(k) >> 46) & 0xFFFF
}

/// Key of a column within a table: index, type, attribute mask and tag
/// packed into one 64-bit value.
#[derive(Clone, Copy, PartialEq, Eq, Structural, Debug, Hash)]
pub struct ColKey {
    pub value: i64,
}

impl ColKey {
    /// The key that stands for no column.
    pub fn invalid() -> (k: ColKey)
        ensures
            k.value == i64::MAX,
    {
        ColKey { value: i64::MAX }
    }

    /// Pack a column key from its parts.
    pub fn new(index: u32, ty: ColumnType, attrs: u64, tag: u16) -> (k: ColKey)
        requires
            attrs < 0x100,
        ensures
            spec_col_index(k) == index,
            spec_col_type_code(k) == type_code(ty),
            spec_col_attrs(k) == attrs,
            spec_col_tag(k) == tag,
            k.value >= 0,
    {
        let code: u64 = match ty {
            ColumnType::Int => 0,
            ColumnType::Bool => 1,
            ColumnType::String => 2,
            ColumnType::Binary => 4,
            ColumnType::Mixed => 6,
            ColumnType::Timestamp => 8,
            ColumnType::Double => 10,
            ColumnType::Float => 9,
            ColumnType::Decimal => 11,
            ColumnType::Link => 12,
            ColumnType::LinkList => 13,
            ColumnType::BackLink => 14,
            ColumnType::ObjectId => 15,
            ColumnType::TypedLink => 16,
            ColumnType::UUID => 17,
        };
        let packed: u64 = (index as u64) | (code << 32) | (attrs << 38) | ((tag as u64) << 46);
        proof {
            let i = index as u64;
            let c = code;
            let a = attrs;
            let t = tag as u64;
            assert(i < 0x1_0000_0000 && c < 0x40 && a < 0x100 && t < 0x1_0000 ==> {
                let p = i | (c << 32) | (a << 38) | (t << 46);
                &&& p & 0xFFFF_FFFF == i
                &&& (p >> 32) & 0x3F == c
                &&& (p >> 38) & 0xFF == a
                &&& (p >> 46) & 0xFFFF == t
                &&& p < 0x8000_0000_0000_0000
            }) by (bit_vector);
            assert(code < 0x40);
        }
        let k = ColKey { value: packed as i64 };
        proof {
            assert(packed < 0x8000_0000_0000_0000 ==> (packed as i64) >= 0 && ((packed as i64)
                as u64) == packed) by (bit_vector);
        }
        k
    }

    /// The column's position among its table's leaf arrays.
    pub fn get_index(&self) -> (r: usize)
        ensures
            r == spec_col_index(*self),
    {
        let masked = (self.value as u64) & 0xFFFF_FFFF;
        proof {
            let v = self.value as u64;
            assert(v & 0xFFFF_FFFF <= 0xFFFF_FFFF) by (bit_vector);
        }
        masked as usize
    }

    /// The column's type.
    pub fn get_type(&self) -> (r: ColumnType)
        requires
            type_of_code(spec_col_type_code(*self)) is Some,
        ensures
            Some(r) == type_of_code(spec_col_type_code(*self)),
    {
        let code = (self.value as u64 >> 32) & 0x3F;
        if code == 0 {
            ColumnType::Int
        } else if code == 1 {
            ColumnType::Bool
        } else if code == 2 {
            ColumnType::String
        } else if code == 4 {
            ColumnType::Binary
        } else if code == 6 {
            ColumnType::Mixed
        } else if code == 8 {
            ColumnType::Timestamp
        } else if code == 9 {
            ColumnType::Float
        } else if code == 10 {
            ColumnType::Double
        } else if code == 11 {
            ColumnType::Decimal
        } else if code == 12 {
            ColumnType::Link
        } else if code == 13 {
            ColumnType::LinkList
        } else if code == 14 {
            ColumnType::BackLink
        } else if code == 15 {
            ColumnType::ObjectId
        } else if code == 16 {
            ColumnType::TypedLink
        } else {
            ColumnType::UUID
        }
    }

    /// The column's attribute mask.
    pub fn get_attrs(&self) -> (r: u64)
        ensures
            r == spec_col_attrs(*self),
    {
        (self.value as u64 >> 38) & 0xFF
    }

    /// The column's tag.
    pub fn get_tag(&self) -> (r: u32)
        ensures
            r == spec_col_tag(*self),
    {
        let masked = (self.value as u64 >> 46) & 0xFFFF;
        proof {
            let v = self.value as u64;
            assert((v >> 46) & 0xFFFF <= 0xFFFF) by (bit_vector);
        }
        masked as u32
    }

    /// Whether the column's elements can be null.
    pub fn is_nullable(&self) -> (r: bool)
        ensures
            r == (spec_col_attrs(*self) & attr_bits(ColumnAttr::col_attr_Nullable) != 0),
    {
        self.get_attrs() & 16 != 0
    }

    /// Whether each element of the column is a list.
    pub fn is_list(&self) -> (r: bool)
        ensures
            r == (spec_col_attrs(*self) & attr_bits(ColumnAttr::col_attr_List) != 0),
    {
        self.get_attrs() & 32 != 0
    }

    /// Whether each element of the column is a set.
    pub fn is_set(&self) -> (r: bool)
        ensures
            r == (spec_col_attrs(*self) & attr_bits(ColumnAttr::col_attr_Set) != 0),
    {
        self.get_attrs() & 128 != 0
    }

    /// Whether each element of the column is a dictionary.
    pub fn is_dictionary(&self) -> (r: bool)
        ensures
            r == (spec_col_attrs(*self) & attr_bits(ColumnAttr::col_attr_Dictionary) != 0),
    {
        self.get_attrs() & 64 != 0
    }

    /// Whether each element of the column is a collection of any kind: a
    /// list, a dictionary or a set.
    pub fn is_collection(&self) -> (r: bool)
        ensures
            r == (spec_col_attrs(*self) & attr_bits(ColumnAttr::col_attr_Collection) != 0),
    {
        self.get_attrs() & 224 != 0
    }
}

} // verus!
