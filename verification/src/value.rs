//! Values stored in leaf columns, and the closed set of comparison operators.
//!
//! A column cell holds a 64-bit signed integer, a 64-bit binary float (carried
//! as its raw bit pattern, so that the engine itself stays within integer
//! arithmetic), a boolean, or a byte string. Comparisons are defined once per
//! kind; comparing values of different kinds never matches.

use vstd::prelude::*;

verus! {

/// The closed set of value kinds a column can hold.
#[derive(Clone, Copy, PartialEq, Eq, Structural, Debug)]
pub enum ValKind {
    Int,
    Float,
    Bool,
    Str,
}

/// A single column value. `Float` carries the IEEE 754 binary64 bit pattern.
#[derive(Clone, Debug)]
pub enum Value {
    Int(i64),
    Float(u64),
    Bool(bool),
    Str(Vec<u8>),
}

/// The mathematical model of a `Value`.
pub ghost enum ValV {
    Int(i64),
    Float(u64),
    Bool(bool),
    Str(Seq<u8>),
}

impl View for Value {
    type V = ValV;

    open spec fn view(&self) -> ValV {
        match self {
            Value::Int(x) => ValV::Int(*x),
            Value::Float(x) => ValV::Float(*x),
            Value::Bool(x) => ValV::Bool(*x),
            Value::Str(x) => ValV::Str(x@),
        }
    }
}

pub open spec fn kind_of(v: ValV) -> ValKind {
    match v {
        ValV::Int(_) => ValKind::Int,
        ValV::Float(_) => ValKind::Float,
        ValV::Bool(_) => ValKind::Bool,
        ValV::Str(_) => ValKind::Str,
    }
}

impl Value {
    pub fn kind(&self) -> (k: ValKind)
        ensures
            k == kind_of(self@),
    {
        match self {
            Value::Int(_) => ValKind::Int,
            Value::Float(_) => ValKind::Float,
            Value::Bool(_) => ValKind::Bool,
            Value::Str(_) => ValKind::Str,
        }
    }
}

/// The sign bit of a binary64 bit pattern.
pub open spec fn f64_sign(b: u64) -> bool {
    b & 0x8000_0000_0000_0000 != 0
}

/// Whether a binary64 bit pattern is a NaN: exponent all ones, mantissa nonzero.
pub open spec fn f64_is_nan(b: u64) -> bool {
    b & 0x7FF0_0000_0000_0000 == 0x7FF0_0000_0000_0000 && b & 0x000F_FFFF_FFFF_FFFF != 0
}

/// Whether a binary64 bit pattern is a zero (positive or negative).
pub open spec fn f64_is_zero(b: u64) -> bool {
    b & 0x7FFF_FFFF_FFFF_FFFF == 0
}

/// IEEE 754 equality on bit patterns: NaN equals nothing, the two zeros are
/// equal, and every other value is equal exactly to its own bit pattern.
pub open spec fn f64_eq(a: u64, b: u64) -> bool {
    &&& !f64_is_nan(a)
    &&& !f64_is_nan(b)
    &&& (a == b || (f64_is_zero(a) && f64_is_zero(b)))
}

/// IEEE 754 `<` on bit patterns: false whenever either side is NaN; otherwise
/// negative values order by descending bit pattern, non-negative ones by
/// ascending bit pattern, and every negative value sits below every
/// non-negative one, except that the two zeros are equal.
pub open spec fn f64_lt(a: u64, b: u64) -> bool {
    &&& !f64_is_nan(a)
    &&& !f64_is_nan(b)
    &&& !(f64_is_zero(a) && f64_is_zero(b))
    &&& (if f64_sign(a) && f64_sign(b) {
        b < a
    } else if !f64_sign(a) && !f64_sign(b) {
        a < b
    } else {
        f64_sign(a)
    })
}

/// Strict lexicographic order on byte strings.
pub open spec fn bytes_lt(a: Seq<u8>, b: Seq<u8>) -> bool
    decreases a.len(),
{
    if b.len() == 0 {
        false
    } else if a.len() == 0 {
        true
    } else if a[0] != b[0] {
        a[0] < b[0]
    } else {
        bytes_lt(a.skip(1), b.skip(1))
    }
}

/// The closed set of comparison operators of the predicate language.
#[derive(Clone, Copy, PartialEq, Eq, Structural, Debug)]
pub enum Cmp {
    Eq,
    Neq,
    Lt,
    Lte,
    Gt,
    Gte,
}

/// Whether an operator holds between a value and itself; used by the
/// column-to-column self-comparison shortcut.
pub open spec fn cmp_identity(c: Cmp) -> bool {
    match c {
        Cmp::Eq => true,
        Cmp::Neq => false,
        Cmp::Lt => false,
        Cmp::Lte => true,
        Cmp::Gt => false,
        Cmp::Gte => true,
    }
}

/// Equality of two values of the same kind; values of different kinds are
/// never equal.
pub open spec fn val_eq(a: ValV, b: ValV) -> bool {
    match (a, b) {
        (ValV::Int(x), ValV::Int(y)) => x == y,
        (ValV::Float(x), ValV::Float(y)) => f64_eq(x, y),
        (ValV::Bool(x), ValV::Bool(y)) => x == y,
        (ValV::Str(x), ValV::Str(y)) => x == y,
        _ => false,
    }
}

/// Strict order of two values of the same kind; values of different kinds are
/// never ordered.
pub open spec fn val_lt(a: ValV, b: ValV) -> bool {
    match (a, b) {
        (ValV::Int(x), ValV::Int(y)) => x < y,
        (ValV::Float(x), ValV::Float(y)) => f64_lt(x, y),
        (ValV::Bool(x), ValV::Bool(y)) => !x && y,
        (ValV::Str(x), ValV::Str(y)) => bytes_lt(x, y),
        _ => false,
    }
}

/// The meaning of each comparison operator over two values. Mismatched kinds
/// satisfy no operator, `Neq` included: a comparison that cannot be made is a
/// non-match, as a missing value is.
pub open spec fn val_cmp(c: Cmp, a: ValV, b: ValV) -> bool {
    if kind_of(a) != kind_of(b) {
        false
    } else {
        match c {
            Cmp::Eq => val_eq(a, b),
            Cmp::Neq => !val_eq(a, b),
            Cmp::Lt => val_lt(a, b),
            Cmp::Lte => val_lt(a, b) || val_eq(a, b),
            Cmp::Gt => val_lt(b, a),
            Cmp::Gte => val_lt(b, a) || val_eq(a, b),
        }
    }
}

fn exec_f64_eq(a: u64, b: u64) -> (r: bool)
    ensures
        r == f64_eq(a, b),
{
    let nan_a = a & 0x7FF0_0000_0000_0000 == 0x7FF0_0000_0000_0000 && a & 0x000F_FFFF_FFFF_FFFF
        != 0;
    let nan_b = b & 0x7FF0_0000_0000_0000 == 0x7FF0_0000_0000_0000 && b & 0x000F_FFFF_FFFF_FFFF
        != 0;
    let zeros = a & 0x7FFF_FFFF_FFFF_FFFF == 0 && b & 0x7FFF_FFFF_FFFF_FFFF == 0;
    !nan_a && !nan_b && (a == b || zeros)
}

fn exec_f64_lt(a: u64, b: u64) -> (r: bool)
    ensures
        r == f64_lt(a, b),
{
    let nan_a = a & 0x7FF0_0000_0000_0000 == 0x7FF0_0000_0000_0000 && a & 0x000F_FFFF_FFFF_FFFF
        != 0;
    let nan_b = b & 0x7FF0_0000_0000_0000 == 0x7FF0_0000_0000_0000 && b & 0x000F_FFFF_FFFF_FFFF
        != 0;
    if nan_a || nan_b {
        return false;
    }
    if a & 0x7FFF_FFFF_FFFF_FFFF == 0 && b & 0x7FFF_FFFF_FFFF_FFFF == 0 {
        return false;
    }
    let sign_a = a & 0x8000_0000_0000_0000 != 0;
    let sign_b = b & 0x8000_0000_0000_0000 != 0;
    if sign_a && sign_b {
        b < a
    } else if !sign_a && !sign_b {
        a < b
    } else {
        sign_a
    }
}

fn exec_bytes_eq(a: &Vec<u8>, b: &Vec<u8>) -> (r: bool)
    ensures
        r == (a@ == b@),
{
    if a.len() != b.len() {
        proof {
            assert(a@.len() != b@.len());
        }
        return false;
    }
    let n = a.len();
    let mut i: usize = 0;
    while i < n
        invariant
            0 <= i <= n,
            n == a@.len() == b@.len(),
            forall|j: int| 0 <= j < i ==> a@[j] == b@[j],
        decreases n - i,
    {
        if a[i] != b[i] {
            return false;
        }
        i += 1;
    }
    proof {
        assert(a@ =~= b@);
    }
    true
}

fn exec_bytes_lt(a: &Vec<u8>, b: &Vec<u8>) -> (r: bool)
    ensures
        r == bytes_lt(a@, b@),
{
    let n = if a.len() < b.len() {
        a.len()
    } else {
        b.len()
    };
    let mut i: usize = 0;
    proof {
        assert(a@.skip(0) =~= a@);
        assert(b@.skip(0) =~= b@);
    }
    while i < n
        invariant
            0 <= i <= n,
            n == if a@.len() < b@.len() {
                a@.len()
            } else {
                b@.len()
            },
            forall|j: int| 0 <= j < i ==> a@[j] == b@[j],
            bytes_lt(a@, b@) == bytes_lt(a@.skip(i as int), b@.skip(i as int)),
        decreases n - i,
    {
        let ai = a[i];
        let bi = b[i];
        proof {
            assert(a@.skip(i as int)[0] == a@[i as int]);
            assert(b@.skip(i as int)[0] == b@[i as int]);
            assert(a@.skip(i as int).skip(1) =~= a@.skip(i + 1));
            assert(b@.skip(i as int).skip(1) =~= b@.skip(i + 1));
        }
        if ai < bi {
            return true;
        }
        if ai > bi {
            return false;
        }
        i += 1;
    }
    proof {
        assert(a@.skip(i as int).len() == a@.len() - i);
        assert(b@.skip(i as int).len() == b@.len() - i);
    }
    a.len() < b.len()
}

fn exec_val_eq(a: &Value, b: &Value) -> (r: bool)
    ensures
        r == val_eq(a@, b@),
{
    match (a, b) {
        (Value::Int(x), Value::Int(y)) => *x == *y,
        (Value::Float(x), Value::Float(y)) => exec_f64_eq(*x, *y),
        (Value::Bool(x), Value::Bool(y)) => *x == *y,
        (Value::Str(x), Value::Str(y)) => exec_bytes_eq(x, y),
        _ => false,
    }
}

fn exec_val_lt(a: &Value, b: &Value) -> (r: bool)
    ensures
        r == val_lt(a@, b@),
{
    match (a, b) {
        (Value::Int(x), Value::Int(y)) => *x < *y,
        (Value::Float(x), Value::Float(y)) => exec_f64_lt(*x, *y),
        (Value::Bool(x), Value::Bool(y)) => !*x && *y,
        (Value::Str(x), Value::Str(y)) => exec_bytes_lt(x, y),
        _ => false,
    }
}

/// The polymorphic comparison interface of the predicate language: every
/// operator can say whether it holds between a value and itself without
/// reading data, and can be applied to two values of one kind.
pub trait Comparison: Sized {
    spec fn spec_identity(&self) -> bool;

    spec fn spec_test(&self, a: ValV, b: ValV) -> bool;

    /// Whether the operator holds on every self-comparison (`Eq`, `Lte`, `Gte`).
    fn identity_is_true(&self) -> (r: bool)
        ensures
            r == self.spec_identity(),
    ;

    /// Apply the operator to two values.
    fn is_true(&self, a: &Value, b: &Value) -> (r: bool)
        ensures
            r == self.spec_test(a@, b@),
    ;
}

impl Comparison for Cmp {
    open spec fn spec_identity(&self) -> bool {
        cmp_identity(*self)
    }

    open spec fn spec_test(&self, a: ValV, b: ValV) -> bool {
        val_cmp(*self, a, b)
    }

    fn identity_is_true(&self) -> (r: bool) {
        match self {
            Cmp::Eq => true,
            Cmp::Neq => false,
            Cmp::Lt => false,
            Cmp::Lte => true,
            Cmp::Gt => false,
            Cmp::Gte => true,
        }
    }

    fn is_true(&self, a: &Value, b: &Value) -> (r: bool) {
        let same = match (a, b) {
            (Value::Int(_), Value::Int(_)) => true,
            (Value::Float(_), Value::Float(_)) => true,
            (Value::Bool(_), Value::Bool(_)) => true,
            (Value::Str(_), Value::Str(_)) => true,
            _ => false,
        };
        if !same {
            return false;
        }
        match self {
            Cmp::Eq => exec_val_eq(a, b),
            Cmp::Neq => !exec_val_eq(a, b),
            Cmp::Lt => exec_val_lt(a, b),
            Cmp::Lte => exec_val_lt(a, b) || exec_val_eq(a, b),
            Cmp::Gt => exec_val_lt(b, a),
            Cmp::Gte => exec_val_lt(b, a) || exec_val_eq(a, b),
        }
    }
}

} // verus!
