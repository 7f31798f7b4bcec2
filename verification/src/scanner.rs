//! The compiled predicate tree and its scanning contract.
//!
//! A scanner is a stateful evaluator over one leaf at a time. Binding attaches
//! it to a leaf (or detaches it) and resets every scan cursor; `next_true` and
//! `next_false` move the cursor forward to the next row where the condition
//! holds (or fails); `is_true` re-evaluates the condition at an arbitrary row
//! without touching any state. The current leaf is handed into every call, so
//! scanner nodes never hold a reference into leaf data.

use vstd::prelude::*;

use crate::source::{leaf_cell, Leaf, LeafV, RowSource};
use crate::value::{cmp_identity, val_cmp, Cmp, Comparison, ValV, Value};

verus! {

broadcast use vstd::seq::group_seq_axioms, vstd::std_specs::vec::group_vec_axioms;

/// AND over an ordered sequence of child scanners. With zero children it
/// matches every row: an empty conjunction is no restriction.
pub struct AndConditions {
    pub conditions: Vec<Scanner>,
    pub len: usize,
    pub i: usize,
}

/// OR over an ordered sequence of child scanners. With zero children it
/// matches every row, mirroring the empty AND; this deliberate deviation from
/// vacuous falsity keeps an empty combinator of either kind a no-op filter.
pub struct OrConditions {
    pub conditions: Vec<Scanner>,
    pub len: usize,
    pub i: usize,
}

/// NOT of a single child scanner: scanning for true rows scans the child for
/// false rows and vice versa.
pub struct NotCondition {
    pub cond: Box<Scanner>,
}

/// Comparison of one column against a constant. A missing cell never matches.
pub struct CmpConstCond {
    pub col_index: usize,
    pub needle: Value,
    pub cmp: Cmp,
    pub len: usize,
    pub i: usize,
}

/// Comparison of two columns by position. When both positions are equal and
/// the operator holds on every self-comparison, the row matches without any
/// data being read (so a null self-compares as true); otherwise a missing
/// cell on either side never matches.
pub struct CmpColCond {
    pub col_index_a: usize,
    pub col_index_b: usize,
    pub cmp: Cmp,
    pub len: usize,
    pub i: usize,
}

/// A node of the compiled predicate tree.
pub enum Scanner {
    And(AndConditions),
    Or(OrConditions),
    Not(NotCondition),
    CmpConst(CmpConstCond),
    CmpCol(CmpColCond),
}

/// The mathematical model of a scanner node: its structure together with the
/// bound length and cursor of every stateful node.
#[verifier::ext_equal]
pub ghost enum ScanV {
    And { kids: Seq<ScanV>, len: nat, at: nat },
    Or { kids: Seq<ScanV>, len: nat, at: nat },
    Not { kid: Box<ScanV> },
    CmpConst { col: nat, needle: ValV, op: Cmp, len: nat, at: nat },
    CmpCol { col_a: nat, col_b: nat, op: Cmp, len: nat, at: nat },
}

/// The models of a sequence of child scanners, in order.
pub open spec fn kid_views(cs: Seq<Scanner>) -> Seq<ScanV>
    decreases cs,
{
    if cs.len() == 0 {
        Seq::empty()
    } else {
        kid_views(cs.drop_last()).push(scan_view(cs.last()))
    }
}

/// The model of a scanner node; `Scanner`'s `View` impl forwards here.
pub open spec fn scan_view(s: Scanner) -> ScanV
    decreases s,
{
    match s {
        Scanner::And(a) => ScanV::And {
            kids: kid_views(a.conditions@),
            len: a.len as nat,
            at: a.i as nat,
        },
        Scanner::Or(o) => ScanV::Or {
            kids: kid_views(o.conditions@),
            len: o.len as nat,
            at: o.i as nat,
        },
        Scanner::Not(n) => ScanV::Not { kid: Box::new(scan_view(*n.cond)) },
        Scanner::CmpConst(c) => ScanV::CmpConst {
            col: c.col_index as nat,
            needle: c.needle@,
            op: c.cmp,
            len: c.len as nat,
            at: c.i as nat,
        },
        Scanner::CmpCol(c) => ScanV::CmpCol {
            col_a: c.col_index_a as nat,
            col_b: c.col_index_b as nat,
            op: c.cmp,
            len: c.len as nat,
            at: c.i as nat,
        },
    }
}

/// `kid_views` is the pointwise view of its argument.
pub proof fn lemma_kid_views(cs: Seq<Scanner>)
    ensures
        kid_views(cs).len() == cs.len(),
        forall|j: int| #![trigger kid_views(cs)[j]]
            0 <= j < cs.len() ==> kid_views(cs)[j] == scan_view(cs[j]),
    decreases cs.len(),
{
    if cs.len() > 0 {
        lemma_kid_views(cs.drop_last());
    }
}

impl View for Scanner {
    type V = ScanV;

    open spec fn view(&self) -> ScanV {
        scan_view(*self)
    }
}

/// The model of the leaf handed into a scan call, `None` when unbound.
pub open spec fn opt_leaf_view(data: Option<&Leaf>) -> Option<LeafV> {
    match data {
        Some(l) => Some(l@),
        None => None,
    }
}

/// How many rows a (possibly absent) leaf has.
pub open spec fn opt_rows(d: Option<LeafV>) -> nat {
    match d {
        Some(l) => l.rows,
        None => 0,
    }
}

/// Whether the condition holds at a row of the given leaf. This is the
/// semantics of the predicate tree; it reads no cursor state.
pub open spec fn truth(s: ScanV, d: Option<LeafV>, row: int) -> bool
    decreases s,
{
    match s {
        ScanV::And { kids, .. } => forall|j: int|
            0 <= j < kids.len() ==> truth(#[trigger] kids[j], d, row),
        ScanV::Or { kids, .. } => kids.len() == 0 || exists|j: int|
            0 <= j < kids.len() && truth(#[trigger] kids[j], d, row),
        ScanV::Not { kid } => !truth(*kid, d, row),
        ScanV::CmpConst { col, needle, op, .. } => match d {
            Some(l) => match leaf_cell(l, col as int, row) {
                Some(v) => val_cmp(op, v, needle),
                None => false,
            },
            None => false,
        },
        ScanV::CmpCol { col_a, col_b, op, .. } => if cmp_identity(op) && col_a == col_b {
            true
        } else {
            match d {
                Some(l) => match (leaf_cell(l, col_a as int, row), leaf_cell(
                    l,
                    col_b as int,
                    row,
                )) {
                    (Some(x), Some(y)) => val_cmp(op, x, y),
                    _ => false,
                },
                None => false,
            }
        },
    }
}

/// The scan cursor a `next_true` or `next_false` call on this node starts
/// from: NOT delegates to its child, every other node keeps its own.
pub open spec fn cur(s: ScanV) -> nat
    decreases s,
{
    match s {
        ScanV::And { at, .. } => at,
        ScanV::Or { at, .. } => at,
        ScanV::Not { kid } => cur(*kid),
        ScanV::CmpConst { at, .. } => at,
        ScanV::CmpCol { at, .. } => at,
    }
}

/// The same scanner with the active scan cursor moved to `k`.
pub open spec fn set_cur(s: ScanV, k: nat) -> ScanV
    decreases s,
{
    match s {
        ScanV::And { kids, len, .. } => ScanV::And { kids, len, at: k },
        ScanV::Or { kids, len, .. } => ScanV::Or { kids, len, at: k },
        ScanV::Not { kid } => ScanV::Not { kid: Box::new(set_cur(*kid, k)) },
        ScanV::CmpConst { col, needle, op, len, .. } => ScanV::CmpConst {
            col,
            needle,
            op,
            len,
            at: k,
        },
        ScanV::CmpCol { col_a, col_b, op, len, .. } => ScanV::CmpCol {
            col_a,
            col_b,
            op,
            len,
            at: k,
        },
    }
}

/// Rebinding of every scanner of a sequence.
pub open spec fn bind_kids(ks: Seq<ScanV>, rows: nat) -> Seq<ScanV>
    decreases ks,
{
    if ks.len() == 0 {
        Seq::empty()
    } else {
        bind_kids(ks.drop_last(), rows).push(spec_bind(ks.last(), rows))
    }
}

/// `bind_kids` is the pointwise rebinding of its argument.
pub proof fn lemma_bind_kids(ks: Seq<ScanV>, rows: nat)
    ensures
        bind_kids(ks, rows).len() == ks.len(),
        forall|j: int| #![trigger bind_kids(ks, rows)[j]]
            0 <= j < ks.len() ==> bind_kids(ks, rows)[j] == spec_bind(ks[j], rows),
    decreases ks.len(),
{
    if ks.len() > 0 {
        lemma_bind_kids(ks.drop_last(), rows);
    }
}

/// The scanner that binding to a leaf of `rows` rows produces: the structure
/// is kept, every bound length becomes `rows`, and every cursor restarts at 0.
pub open spec fn spec_bind(s: ScanV, rows: nat) -> ScanV
    decreases s,
{
    match s {
        ScanV::And { kids, .. } => ScanV::And { kids: bind_kids(kids, rows), len: rows, at: 0 },
        ScanV::Or { kids, .. } => ScanV::Or { kids: bind_kids(kids, rows), len: rows, at: 0 },
        ScanV::Not { kid } => ScanV::Not { kid: Box::new(spec_bind(*kid, rows)) },
        ScanV::CmpConst { col, needle, op, .. } => ScanV::CmpConst {
            col,
            needle,
            op,
            len: rows,
            at: 0,
        },
        ScanV::CmpCol { col_a, col_b, op, .. } => ScanV::CmpCol {
            col_a,
            col_b,
            op,
            len: rows,
            at: 0,
        },
    }
}

/// Well-formed scan state against a leaf of `rows` rows: every bound length
/// equals `rows` and no cursor has run past it.
pub open spec fn scan_wf(s: ScanV, rows: nat) -> bool
    decreases s,
{
    match s {
        ScanV::And { kids, len, at } => len == rows && at <= len && forall|j: int|
            0 <= j < kids.len() ==> scan_wf(#[trigger] kids[j], rows),
        ScanV::Or { kids, len, at } => len == rows && at <= len && forall|j: int|
            0 <= j < kids.len() ==> scan_wf(#[trigger] kids[j], rows),
        ScanV::Not { kid } => scan_wf(*kid, rows),
        ScanV::CmpConst { len, at, .. } => len == rows && at <= len,
        ScanV::CmpCol { len, at, .. } => len == rows && at <= len,
    }
}

/// The first row at or after `from` (and before `rows`) where the condition's
/// truth equals `want`, if any.
pub open spec fn least_scan(s: ScanV, d: Option<LeafV>, rows: nat, from: int, want: bool) -> Option<
    int,
>
    decreases rows - from,
{
    if !(0 <= from < rows) {
        None
    } else if truth(s, d, from) == want {
        Some(from)
    } else {
        least_scan(s, d, rows, from + 1, want)
    }
}

/// What one forward scan (`next_true` when `want`, `next_false` otherwise)
/// does: it reports the first row at or after the cursor whose truth equals
/// `want` and leaves the cursor just past it, or reports exhaustion and
/// leaves the cursor at the end of the leaf.
pub open spec fn next_post(
    pre: ScanV,
    post: ScanV,
    d: Option<LeafV>,
    r: Option<usize>,
    want: bool,
) -> bool {
    let rows = opt_rows(d);
    match r {
        Some(k) => least_scan(pre, d, rows, cur(pre) as int, want) == Some(k as int) && post
            == set_cur(pre, (k + 1) as nat),
        None => least_scan(pre, d, rows, cur(pre) as int, want) is None && post == set_cur(
            pre,
            rows,
        ),
    }
}

/// The scanning contract every node of the compiled predicate tree meets.
pub trait LeafScanner: Sized {
    spec fn model(&self) -> ScanV;

    /// Reset the scanner and bind it to a leaf, or detach it. Every cursor
    /// restarts; the structure is kept.
    fn bind(&mut self, data: Option<&Leaf>)
        ensures
            final(self).model() == spec_bind(old(self).model(), opt_rows(opt_leaf_view(data))),
            scan_wf(final(self).model(), opt_rows(opt_leaf_view(data))),
    ;

    /// Find the next row index where the condition is true.
    fn next_true(&mut self, data: Option<&Leaf>) -> (r: Option<usize>)
        requires
            scan_wf(old(self).model(), opt_rows(opt_leaf_view(data))),
        ensures
            next_post(old(self).model(), final(self).model(), opt_leaf_view(data), r, true),
            scan_wf(final(self).model(), opt_rows(opt_leaf_view(data))),
    ;

    /// Find the next row index where the condition is false.
    fn next_false(&mut self, data: Option<&Leaf>) -> (r: Option<usize>)
        requires
            scan_wf(old(self).model(), opt_rows(opt_leaf_view(data))),
        ensures
            next_post(old(self).model(), final(self).model(), opt_leaf_view(data), r, false),
            scan_wf(final(self).model(), opt_rows(opt_leaf_view(data))),
    ;

    /// Evaluate the condition at a row of the given leaf, reading no state.
    /// Unbound scanners match nothing but the empty combinators.
    fn is_true(&self, data: Option<&Leaf>, index: usize) -> (r: bool)
        ensures
            r == truth(self.model(), opt_leaf_view(data), index as int),
    ;
}

/// Law of the AND combinator: it holds at a row exactly when every child
/// holds there; with no children it holds everywhere.
pub proof fn lemma_truth_and(kids: Seq<ScanV>, len: nat, at: nat, d: Option<LeafV>, row: int)
    ensures
        truth(ScanV::And { kids, len, at }, d, row) <==> (forall|j: int|
            0 <= j < kids.len() ==> truth(#[trigger] kids[j], d, row)),
{
    let node = ScanV::And { kids, len, at };
    assert(node->And_kids == kids);
}

/// Law of the OR combinator with at least one child: it holds at a row
/// exactly when some child holds there.
pub proof fn lemma_truth_or(kids: Seq<ScanV>, len: nat, at: nat, d: Option<LeafV>, row: int)
    requires
        kids.len() >= 1,
    ensures
        truth(ScanV::Or { kids, len, at }, d, row) <==> (exists|j: int|
            0 <= j < kids.len() && truth(#[trigger] kids[j], d, row)),
{
    let node = ScanV::Or { kids, len, at };
    assert(node->Or_kids == kids);
}

/// The OR combinator with no children holds everywhere, mirroring the empty
/// AND: this crate resolves the open question of empty-disjunction semantics
/// in favour of "no restriction".
pub proof fn lemma_truth_empty_or(kids: Seq<ScanV>, len: nat, at: nat, d: Option<LeafV>, row: int)
    requires
        kids.len() == 0,
    ensures
        truth(ScanV::Or { kids, len, at }, d, row),
{
}

/// Law of the NOT combinator: it holds at a row exactly when its child does
/// not.
pub proof fn lemma_truth_not(kid: ScanV, d: Option<LeafV>, row: int)
    ensures
        truth(ScanV::Not { kid: Box::new(kid) }, d, row) <==> !truth(kid, d, row),
{
}

/// Whether the constant comparison holds at `index` of the given leaf.
fn cmp_const_truth(c: &CmpConstCond, data: Option<&Leaf>, index: usize) -> (r: bool)
    ensures
        r == truth(Scanner::CmpConst(*c)@, opt_leaf_view(data), index as int),
{
    match data {
        None => false,
        Some(leaf) => match leaf.get_column(c.col_index) {
            None => false,
            Some(col) => match crate::source::ColumnSource::get(col, index) {
                Some(v) => c.cmp.is_true(&v, &c.needle),
                None => false,
            },
        },
    }
}

/// Whether the column-to-column comparison holds at `index` of the given leaf.
fn cmp_col_truth(c: &CmpColCond, data: Option<&Leaf>, index: usize) -> (r: bool)
    ensures
        r == truth(Scanner::CmpCol(*c)@, opt_leaf_view(data), index as int),
{
    if c.cmp.identity_is_true() && c.col_index_a == c.col_index_b {
        return true;
    }
    match data {
        None => false,
        Some(leaf) => match leaf.get_column(c.col_index_a) {
            None => false,
            Some(col_a) => match crate::source::ColumnSource::get(col_a, index) {
                None => false,
                Some(x) => match leaf.get_column(c.col_index_b) {
                    None => false,
                    Some(col_b) => match crate::source::ColumnSource::get(col_b, index) {
                        None => false,
                        Some(y) => c.cmp.is_true(&x, &y),
                    },
                },
            },
        },
    }
}

/// Whether every scanner of `conds` holds at `index` (vacuously true when
/// there are none).
fn all_true(conds: &Vec<Scanner>, data: Option<&Leaf>, index: usize) -> (r: bool)
    ensures
        r == forall|j: int|
            0 <= j < conds@.len() ==> truth(#[trigger] conds@[j]@, opt_leaf_view(data), index as int),
    decreases conds,
{
    let n = conds.len();
    let mut j: usize = 0;
    while j < n
        invariant
            0 <= j <= n,
            n == conds@.len(),
            forall|t: int|
                0 <= t < j ==> truth(#[trigger] conds@[t]@, opt_leaf_view(data), index as int),
        decreases n - j,
    {
        if !scan_is_true(&conds[j], data, index) {
            return false;
        }
        j += 1;
    }
    true
}

/// Whether some scanner of `conds` holds at `index` (false when there are
/// none).
fn any_true(conds: &Vec<Scanner>, data: Option<&Leaf>, index: usize) -> (r: bool)
    ensures
        r == exists|j: int|
            0 <= j < conds@.len() && truth(#[trigger] conds@[j]@, opt_leaf_view(data), index as int),
    decreases conds,
{
    let n = conds.len();
    let mut j: usize = 0;
    while j < n
        invariant
            0 <= j <= n,
            n == conds@.len(),
            forall|t: int|
                0 <= t < j ==> !truth(#[trigger] conds@[t]@, opt_leaf_view(data), index as int),
        decreases n - j,
    {
        if scan_is_true(&conds[j], data, index) {
            return true;
        }
        j += 1;
    }
    false
}

/// Evaluate a scanner node at a row: the recursive heart of `is_true`.
fn scan_is_true(s: &Scanner, data: Option<&Leaf>, index: usize) -> (r: bool)
    ensures
        r == truth(s@, opt_leaf_view(data), index as int),
    decreases s,
{
    match s {
        Scanner::And(a) => {
            let r = all_true(&a.conditions, data, index);
            proof {
                let d = opt_leaf_view(data);
                let row = index as int;
                lemma_kid_views(a.conditions@);
                let kids = kid_views(a.conditions@);
                assert(s@ == ScanV::And { kids, len: a.len as nat, at: a.i as nat });
                lemma_truth_and(kids, a.len as nat, a.i as nat, d, row);
                if r {
                    assert forall|j: int| 0 <= j < kids.len() implies truth(
                        #[trigger] kids[j],
                        d,
                        row,
                    ) by {
                        assert(kids[j] == a.conditions@[j]@);
                    }
                } else {
                    let jw = choose|j: int|
                        0 <= j < a.conditions@.len() && !truth(#[trigger] a.conditions@[j]@, d, row);
                    assert(kids[jw] == a.conditions@[jw]@);
                    assert(!truth(kids[jw], d, row));
                }
            }
            r
        },
        Scanner::Or(o) => {
            if o.conditions.len() == 0 {
                proof {
                    lemma_kid_views(o.conditions@);
                    let kids = kid_views(o.conditions@);
                    assert(s@ == ScanV::Or { kids, len: o.len as nat, at: o.i as nat });
                    lemma_truth_empty_or(
                        kids,
                        o.len as nat,
                        o.i as nat,
                        opt_leaf_view(data),
                        index as int,
                    );
                }
                true
            } else {
                let r = any_true(&o.conditions, data, index);
                proof {
                    let d = opt_leaf_view(data);
                    let row = index as int;
                    lemma_kid_views(o.conditions@);
                    let kids = kid_views(o.conditions@);
                    assert(s@ == ScanV::Or { kids, len: o.len as nat, at: o.i as nat });
                    lemma_truth_or(kids, o.len as nat, o.i as nat, d, row);
                    if r {
                        let jw = choose|j: int|
                            0 <= j < o.conditions@.len() && truth(
                                #[trigger] o.conditions@[j]@,
                                d,
                                row,
                            );
                        assert(kids[jw] == o.conditions@[jw]@);
                        assert(truth(kids[jw], d, row));
                    } else {
                        assert forall|j: int| 0 <= j < kids.len() implies !truth(
                            #[trigger] kids[j],
                            d,
                            row,
                        ) by {
                            assert(kids[j] == o.conditions@[j]@);
                        }
                    }
                }
                r
            }
        },
        Scanner::Not(n) => {
            let r = !scan_is_true(&n.cond, data, index);
            proof {
                assert(s@ == scan_view(Scanner::Not(*n)));
                lemma_truth_not((*n.cond)@, opt_leaf_view(data), index as int);
            }
            r
        },
        Scanner::CmpConst(c) => {
            let r = cmp_const_truth(c, data, index);
            proof {
                assert(s@ == Scanner::CmpConst(*c)@);
            }
            r
        },
        Scanner::CmpCol(c) => {
            let r = cmp_col_truth(c, data, index);
            proof {
                assert(s@ == Scanner::CmpCol(*c)@);
            }
            r
        },
    }
}

/// The bound length a scan runs to; NOT delegates to its child.
pub open spec fn span(s: ScanV) -> nat
    decreases s,
{
    match s {
        ScanV::And { len, .. } => len,
        ScanV::Or { len, .. } => len,
        ScanV::Not { kid } => span(*kid),
        ScanV::CmpConst { len, .. } => len,
        ScanV::CmpCol { len, .. } => len,
    }
}

/// A well-formed scanner has its bound length equal to the leaf's row count
/// and its cursor within it.
pub proof fn lemma_wf_props(s: ScanV, rows: nat)
    requires
        scan_wf(s, rows),
    ensures
        span(s) == rows,
        cur(s) <= rows,
    decreases s,
{
    match s {
        ScanV::Not { kid } => {
            lemma_wf_props(*kid, rows);
        },
        _ => {},
    }
}

/// Moving the cursor moves exactly the cursor: truth, span and the rest of
/// the structure are untouched, and moving it back where it was is a no-op.
pub proof fn lemma_set_cur(s: ScanV, k: nat)
    ensures
        cur(set_cur(s, k)) == k,
        span(set_cur(s, k)) == span(s),
        set_cur(s, cur(s)) == s,
        forall|m: nat| #[trigger] set_cur(set_cur(s, k), m) == set_cur(s, m),
    decreases s,
{
    match s {
        ScanV::Not { kid } => {
            lemma_set_cur(*kid, k);
            assert forall|m: nat| #[trigger] set_cur(set_cur(s, k), m) == set_cur(s, m) by {
                lemma_set_cur_other(*kid, k, m);
            }
        },
        _ => {},
    }
}

proof fn lemma_set_cur_other(s: ScanV, k: nat, m: nat)
    ensures
        set_cur(set_cur(s, k), m) == set_cur(s, m),
    decreases s,
{
    match s {
        ScanV::Not { kid } => {
            lemma_set_cur_other(*kid, k, m);
        },
        _ => {},
    }
}

/// Moving the cursor does not change what the condition means.
pub proof fn lemma_truth_set_cur(s: ScanV, k: nat, d: Option<LeafV>, row: int)
    ensures
        truth(set_cur(s, k), d, row) == truth(s, d, row),
    decreases s,
{
    match s {
        ScanV::And { kids, len, at } => {
            lemma_truth_and(kids, len, at, d, row);
            lemma_truth_and(kids, len, k, d, row);
        },
        ScanV::Or { kids, len, at } => {
            if kids.len() == 0 {
                lemma_truth_empty_or(kids, len, at, d, row);
                lemma_truth_empty_or(kids, len, k, d, row);
            } else {
                lemma_truth_or(kids, len, at, d, row);
                lemma_truth_or(kids, len, k, d, row);
            }
        },
        ScanV::Not { kid } => {
            lemma_truth_set_cur(*kid, k, d, row);
            lemma_truth_not(*kid, d, row);
            lemma_truth_not(set_cur(*kid, k), d, row);
        },
        _ => {},
    }
}

/// Moving the cursor within the bound length keeps the scan state
/// well-formed.
pub proof fn lemma_wf_set_cur(s: ScanV, k: nat, rows: nat)
    requires
        scan_wf(s, rows),
        k <= rows,
    ensures
        scan_wf(set_cur(s, k), rows),
    decreases s,
{
    match s {
        ScanV::Not { kid } => {
            lemma_wf_set_cur(*kid, k, rows);
        },
        _ => {},
    }
}

/// Binding yields a well-formed scan state with the cursor at the start.
pub proof fn lemma_bind_wf(s: ScanV, rows: nat)
    ensures
        scan_wf(spec_bind(s, rows), rows),
        cur(spec_bind(s, rows)) == 0,
        truth_like(spec_bind(s, rows), s),
    decreases s,
{
    match s {
        ScanV::And { kids, len, at } => {
            lemma_bind_kids(kids, rows);
            assert forall|j: int| 0 <= j < bind_kids(kids, rows).len() implies scan_wf(
                #[trigger] bind_kids(kids, rows)[j],
                rows,
            ) && truth_like(bind_kids(kids, rows)[j], kids[j]) by {
                lemma_bind_wf(kids[j], rows);
            }
        },
        ScanV::Or { kids, len, at } => {
            lemma_bind_kids(kids, rows);
            assert forall|j: int| 0 <= j < bind_kids(kids, rows).len() implies scan_wf(
                #[trigger] bind_kids(kids, rows)[j],
                rows,
            ) && truth_like(bind_kids(kids, rows)[j], kids[j]) by {
                lemma_bind_wf(kids[j], rows);
            }
        },
        ScanV::Not { kid } => {
            lemma_bind_wf(*kid, rows);
        },
        _ => {},
    }
}

/// Structural likeness up to cursors and bound lengths: two scanners that
/// test the same condition.
pub open spec fn truth_like(a: ScanV, b: ScanV) -> bool
    decreases a,
{
    match (a, b) {
        (ScanV::And { kids: ka, .. }, ScanV::And { kids: kb, .. }) => ka.len() == kb.len()
            && forall|j: int| 0 <= j < ka.len() ==> truth_like(#[trigger] ka[j], kb[j]),
        (ScanV::Or { kids: ka, .. }, ScanV::Or { kids: kb, .. }) => ka.len() == kb.len()
            && forall|j: int| 0 <= j < ka.len() ==> truth_like(#[trigger] ka[j], kb[j]),
        (ScanV::Not { kid: na }, ScanV::Not { kid: nb }) => truth_like(*na, *nb),
        (
            ScanV::CmpConst { col: ca, needle: va, op: oa, .. },
            ScanV::CmpConst { col: cb, needle: vb, op: ob, .. },
        ) => ca == cb && va == vb && oa == ob,
        (
            ScanV::CmpCol { col_a: aa, col_b: ba, op: oa, .. },
            ScanV::CmpCol { col_a: ab, col_b: bb, op: ob, .. },
        ) => aa == ab && ba == bb && oa == ob,
        _ => false,
    }
}

/// Scanners alike up to cursors and bound lengths hold at the same rows.
pub proof fn lemma_truth_like(a: ScanV, b: ScanV, d: Option<LeafV>, row: int)
    requires
        truth_like(a, b),
    ensures
        truth(a, d, row) == truth(b, d, row),
    decreases a,
{
    match (a, b) {
        (ScanV::And { kids: ka, len: la, at: ta }, ScanV::And { kids: kb, len: lb, at: tb }) => {
            assert(a == ScanV::And { kids: ka, len: la, at: ta });
            assert(b == ScanV::And { kids: kb, len: lb, at: tb });
            lemma_truth_and(ka, la, ta, d, row);
            lemma_truth_and(kb, lb, tb, d, row);
            if truth(a, d, row) {
                assert forall|j: int| 0 <= j < kb.len() implies truth(#[trigger] kb[j], d, row) by {
                    lemma_truth_like(ka[j], kb[j], d, row);
                }
                assert(truth(b, d, row));
            } else {
                let c = choose|j: int| 0 <= j < ka.len() && !truth(#[trigger] ka[j], d, row);
                lemma_truth_like(ka[c], kb[c], d, row);
                assert(!truth(kb[c], d, row));
                assert(!truth(b, d, row));
            }
        },
        (ScanV::Or { kids: ka, len: la, at: ta }, ScanV::Or { kids: kb, len: lb, at: tb }) => {
            assert(a == ScanV::Or { kids: ka, len: la, at: ta });
            assert(b == ScanV::Or { kids: kb, len: lb, at: tb });
            if ka.len() == 0 {
                lemma_truth_empty_or(ka, la, ta, d, row);
                lemma_truth_empty_or(kb, lb, tb, d, row);
            } else {
                lemma_truth_or(ka, la, ta, d, row);
                lemma_truth_or(kb, lb, tb, d, row);
                if truth(a, d, row) {
                    let c = choose|j: int| 0 <= j < ka.len() && truth(#[trigger] ka[j], d, row);
                    lemma_truth_like(ka[c], kb[c], d, row);
                    assert(truth(kb[c], d, row));
                    assert(truth(b, d, row));
                } else {
                    assert forall|j: int| 0 <= j < kb.len() implies !truth(
                        #[trigger] kb[j],
                        d,
                        row,
                    ) by {
                        lemma_truth_like(ka[j], kb[j], d, row);
                    }
                    assert(!truth(b, d, row));
                }
            }
        },
        (ScanV::Not { kid: na }, ScanV::Not { kid: nb }) => {
            lemma_truth_like(*na, *nb, d, row);
            lemma_truth_not(*na, d, row);
            lemma_truth_not(*nb, d, row);
        },
        (
            ScanV::CmpConst { col: ca, needle: va, op: oa, len: la, at: ta },
            ScanV::CmpConst { col: cb, needle: vb, op: ob, len: lb, at: tb },
        ) => {
            assert(truth(ScanV::CmpConst { col: ca, needle: va, op: oa, len: la, at: ta }, d, row)
                == truth(ScanV::CmpConst { col: cb, needle: vb, op: ob, len: lb, at: tb }, d, row));
        },
        (
            ScanV::CmpCol { col_a: aa, col_b: ba, op: oa, len: la, at: ta },
            ScanV::CmpCol { col_a: ab, col_b: bb, op: ob, len: lb, at: tb },
        ) => {
            assert(truth(ScanV::CmpCol { col_a: aa, col_b: ba, op: oa, len: la, at: ta }, d, row)
                == truth(ScanV::CmpCol { col_a: ab, col_b: bb, op: ob, len: lb, at: tb }, d, row));
        },
        _ => {},
    }
}

/// When a row in range satisfies the scan and no earlier row at or after
/// `from` does, the scan finds exactly that row.
pub proof fn lemma_least_scan_found(
    s: ScanV,
    d: Option<LeafV>,
    rows: nat,
    from: int,
    k: int,
    want: bool,
)
    requires
        0 <= from <= k < rows,
        truth(s, d, k) == want,
        forall|t: int| from <= t < k ==> truth(s, d, t) != want,
    ensures
        least_scan(s, d, rows, from, want) == Some(k),
    decreases k - from,
{
    if from < k {
        lemma_least_scan_found(s, d, rows, from + 1, k, want);
    }
}

/// When no row at or after `from` satisfies the scan, it reports exhaustion.
pub proof fn lemma_least_scan_none(s: ScanV, d: Option<LeafV>, rows: nat, from: int, want: bool)
    requires
        forall|t: int| from <= t < rows ==> truth(s, d, t) != want,
    ensures
        least_scan(s, d, rows, from, want) is None,
    decreases rows - from,
{
    if 0 <= from < rows {
        lemma_least_scan_none(s, d, rows, from + 1, want);
    }
}

/// What a successful or exhausted scan means row by row.
pub proof fn lemma_least_scan_props(s: ScanV, d: Option<LeafV>, rows: nat, from: int, want: bool)
    requires
        0 <= from,
    ensures
        match least_scan(s, d, rows, from, want) {
            Some(k) => from <= k < rows && truth(s, d, k) == want && forall|t: int|
                from <= t < k ==> truth(s, d, t) != want,
            None => forall|t: int| from <= t < rows ==> truth(s, d, t) != want,
        },
    decreases rows - from,
{
    if from < rows && truth(s, d, from) != want {
        lemma_least_scan_props(s, d, rows, from + 1, want);
    }
}

/// Scanning a NOT node for `want` rows is scanning its child for the
/// opposite.
pub proof fn lemma_least_scan_not(
    kid: ScanV,
    d: Option<LeafV>,
    rows: nat,
    from: int,
    want: bool,
)
    ensures
        least_scan(ScanV::Not { kid: Box::new(kid) }, d, rows, from, want) == least_scan(
            kid,
            d,
            rows,
            from,
            !want,
        ),
    decreases rows - from,
{
    lemma_truth_not(kid, d, from);
    if 0 <= from < rows && truth(kid, d, from) == want {
        lemma_least_scan_not(kid, d, rows, from + 1, want);
    }
}

/// The scan cursor this node starts its next scan from.
fn scan_cursor(s: &Scanner) -> (k: usize)
    ensures
        k as nat == cur(s@),
    decreases s,
{
    match s {
        Scanner::And(a) => a.i,
        Scanner::Or(o) => o.i,
        Scanner::Not(n) => scan_cursor(&n.cond),
        Scanner::CmpConst(c) => c.i,
        Scanner::CmpCol(c) => c.i,
    }
}

/// The bound length this node scans to.
fn scan_len(s: &Scanner) -> (k: usize)
    ensures
        k as nat == span(s@),
    decreases s,
{
    match s {
        Scanner::And(a) => a.len,
        Scanner::Or(o) => o.len,
        Scanner::Not(n) => scan_len(&n.cond),
        Scanner::CmpConst(c) => c.len,
        Scanner::CmpCol(c) => c.len,
    }
}

/// Move the active scan cursor to `k`.
fn scan_set_cursor(s: &mut Scanner, k: usize)
    ensures
        final(s)@ == set_cur(old(s)@, k as nat),
    decreases *old(s),
{
    match s {
        Scanner::And(a) => {
            a.i = k;
        },
        Scanner::Or(o) => {
            o.i = k;
        },
        Scanner::Not(n) => {
            scan_set_cursor(&mut n.cond, k);
            proof {
                assert(scan_view(Scanner::Not(NotCondition { cond: n.cond })) == ScanV::Not {
                    kid: Box::new((*n.cond)@),
                });
            }
        },
        Scanner::CmpConst(c) => {
            c.i = k;
        },
        Scanner::CmpCol(c) => {
            c.i = k;
        },
    }
}

/// Rebind a scanner node and everything below it: the recursive heart of
/// `bind`.
fn scan_bind(s: &mut Scanner, data: Option<&Leaf>)
    ensures
        final(s)@ == spec_bind(old(s)@, opt_rows(opt_leaf_view(data))),
    decreases *old(s),
{
    let rows = match data {
        Some(l) => l.len(),
        None => 0,
    };
    let ghost rn = rows as nat;
    match s {
        Scanner::And(a) => {
            let ghost olda = (*old(s))->And_0;
            let ghost orig = a.conditions@;
            proof {
                assert(orig == olda.conditions@);
            }
            let n = a.conditions.len();
            let mut j: usize = 0;
            while j < n
                invariant
                    0 <= j <= n,
                    n == a.conditions@.len(),
                    orig.len() == n,
                    rn == opt_rows(opt_leaf_view(data)),
                    orig == olda.conditions@,
                    olda == (*old(s))->And_0,
                    *old(s) == Scanner::And(olda),
                    forall|t: int|
                        0 <= t < j ==> (#[trigger] a.conditions@[t])@ == spec_bind(orig[t]@, rn),
                    forall|t: int| j <= t < n ==> #[trigger] a.conditions@[t] == orig[t],
                decreases n - j,
            {
                proof {
                    assert(a.conditions@[j as int] == olda.conditions@[j as int]);
                    assert(decreases_to!(Scanner::And(olda) => olda));
                    assert(decreases_to!(olda => olda.conditions));
                    assert(decreases_to!(olda.conditions => olda.conditions@[j as int]));
                }
                scan_bind(&mut a.conditions[j], data);
                j += 1;
            }
            a.len = rows;
            a.i = 0;
            proof {
                lemma_kid_views(a.conditions@);
                lemma_kid_views(orig);
                lemma_bind_kids(kid_views(orig), rn);
                assert(kid_views(a.conditions@) =~= bind_kids(kid_views(orig), rn));
                assert(old(s)@ == scan_view(Scanner::And(olda)));
                assert(scan_view(Scanner::And(olda)) == ScanV::And {
                    kids: kid_views(orig),
                    len: olda.len as nat,
                    at: olda.i as nat,
                });
                assert(spec_bind(old(s)@, rn) == ScanV::And {
                    kids: bind_kids(kid_views(orig), rn),
                    len: rn,
                    at: 0,
                });
                assert(scan_view(Scanner::And(AndConditions {
                    conditions: a.conditions,
                    len: a.len,
                    i: a.i,
                })) == ScanV::And {
                    kids: kid_views(a.conditions@),
                    len: a.len as nat,
                    at: a.i as nat,
                });
            }
        },
        Scanner::Or(o) => {
            let ghost oldo = (*old(s))->Or_0;
            let ghost orig = o.conditions@;
            proof {
                assert(orig == oldo.conditions@);
            }
            let n = o.conditions.len();
            let mut j: usize = 0;
            while j < n
                invariant
                    0 <= j <= n,
                    n == o.conditions@.len(),
                    orig.len() == n,
                    rn == opt_rows(opt_leaf_view(data)),
                    orig == oldo.conditions@,
                    oldo == (*old(s))->Or_0,
                    *old(s) == Scanner::Or(oldo),
                    forall|t: int|
                        0 <= t < j ==> (#[trigger] o.conditions@[t])@ == spec_bind(orig[t]@, rn),
                    forall|t: int| j <= t < n ==> #[trigger] o.conditions@[t] == orig[t],
                decreases n - j,
            {
                proof {
                    assert(o.conditions@[j as int] == oldo.conditions@[j as int]);
                    assert(decreases_to!(Scanner::Or(oldo) => oldo));
                    assert(decreases_to!(oldo => oldo.conditions));
                    assert(decreases_to!(oldo.conditions => oldo.conditions@[j as int]));
                }
                scan_bind(&mut o.conditions[j], data);
                j += 1;
            }
            o.len = rows;
            o.i = 0;
            proof {
                lemma_kid_views(o.conditions@);
                lemma_kid_views(orig);
                lemma_bind_kids(kid_views(orig), rn);
                assert(kid_views(o.conditions@) =~= bind_kids(kid_views(orig), rn));
                assert(old(s)@ == scan_view(Scanner::Or(oldo)));
                assert(scan_view(Scanner::Or(oldo)) == ScanV::Or {
                    kids: kid_views(orig),
                    len: oldo.len as nat,
                    at: oldo.i as nat,
                });
                assert(spec_bind(old(s)@, rn) == ScanV::Or {
                    kids: bind_kids(kid_views(orig), rn),
                    len: rn,
                    at: 0,
                });
                assert(scan_view(Scanner::Or(OrConditions {
                    conditions: o.conditions,
                    len: o.len,
                    i: o.i,
                })) == ScanV::Or {
                    kids: kid_views(o.conditions@),
                    len: o.len as nat,
                    at: o.i as nat,
                });
            }
        },
        Scanner::Not(n) => {
            scan_bind(&mut n.cond, data);
            proof {
                let oldn = (*old(s))->Not_0;
                assert(old(s)@ == scan_view(Scanner::Not(oldn)));
                assert(scan_view(Scanner::Not(oldn)) == ScanV::Not {
                    kid: Box::new((*oldn.cond)@),
                });
                assert(spec_bind(old(s)@, rn) == ScanV::Not {
                    kid: Box::new(spec_bind((*oldn.cond)@, rn)),
                });
                assert(scan_view(Scanner::Not(NotCondition { cond: n.cond })) == ScanV::Not {
                    kid: Box::new((*n.cond)@),
                });
            }
        },
        Scanner::CmpConst(c) => {
            c.len = rows;
            c.i = 0;
            proof {
                let oldc = (*old(s))->CmpConst_0;
                assert(old(s)@ == scan_view(Scanner::CmpConst(oldc)));
                assert(scan_view(Scanner::CmpConst(CmpConstCond {
                    col_index: c.col_index,
                    needle: c.needle,
                    cmp: c.cmp,
                    len: c.len,
                    i: c.i,
                })) == spec_bind(old(s)@, rn));
            }
        },
        Scanner::CmpCol(c) => {
            c.len = rows;
            c.i = 0;
            proof {
                let oldc = (*old(s))->CmpCol_0;
                assert(old(s)@ == scan_view(Scanner::CmpCol(oldc)));
                assert(scan_view(Scanner::CmpCol(CmpColCond {
                    col_index_a: c.col_index_a,
                    col_index_b: c.col_index_b,
                    cmp: c.cmp,
                    len: c.len,
                    i: c.i,
                })) == spec_bind(old(s)@, rn));
            }
        },
    }
}

/// One forward scan step of a node: find the next row whose truth equals
/// `want`, moving the active cursor. The recursive heart of `next_true` and
/// `next_false`.
fn scan_next(s: &mut Scanner, data: Option<&Leaf>, want: bool) -> (r: Option<usize>)
    requires
        scan_wf(old(s)@, opt_rows(opt_leaf_view(data))),
    ensures
        next_post(old(s)@, final(s)@, opt_leaf_view(data), r, want),
        scan_wf(final(s)@, opt_rows(opt_leaf_view(data))),
    decreases *old(s),
{
    match s {
        Scanner::Not(n) => {
            proof {
                let oldn = (*old(s))->Not_0;
                assert(old(s)@ == scan_view(Scanner::Not(oldn)));
                assert(scan_view(Scanner::Not(oldn)) == ScanV::Not {
                    kid: Box::new((*oldn.cond)@),
                });
            }
            let r = scan_next(&mut n.cond, data, !want);
            proof {
                let oldn = (*old(s))->Not_0;
                let kid_pre = (*oldn.cond)@;
                let kid_post = (*n.cond)@;
                let d = opt_leaf_view(data);
                let rows = opt_rows(d);
                lemma_least_scan_not(kid_pre, d, rows, cur(kid_pre) as int, want);
                assert(cur(ScanV::Not { kid: Box::new(kid_pre) }) == cur(kid_pre));
                assert(scan_view(Scanner::Not(NotCondition { cond: n.cond })) == ScanV::Not {
                    kid: Box::new(kid_post),
                });
                match r {
                    Some(k) => {
                        assert(set_cur(ScanV::Not { kid: Box::new(kid_pre) }, (k + 1) as nat)
                            == ScanV::Not { kid: Box::new(set_cur(kid_pre, (k + 1) as nat)) });
                    },
                    None => {
                        assert(set_cur(ScanV::Not { kid: Box::new(kid_pre) }, rows) == ScanV::Not {
                            kid: Box::new(set_cur(kid_pre, rows)),
                        });
                    },
                }
                assert(scan_wf(ScanV::Not { kid: Box::new(kid_post) }, rows) == scan_wf(
                    kid_post,
                    rows,
                ));
            }
            r
        },
        _ => {
            let ghost pre = s@;
            let ghost d = opt_leaf_view(data);
            let ghost rows = opt_rows(d);
            let len = scan_len(s);
            let mut c = scan_cursor(s);
            proof {
                lemma_wf_props(pre, rows);
                lemma_set_cur(pre, cur(pre));
            }
            while c < len
                invariant
                    pre == old(s)@,
                    scan_wf(pre, rows),
                    d == opt_leaf_view(data),
                    rows == opt_rows(d),
                    len as nat == rows,
                    cur(pre) <= c as int <= len as int,
                    s@ == set_cur(pre, c as nat),
                    forall|t: int| cur(pre) <= t < c as int ==> truth(pre, d, t) != want,
                decreases len - c,
            {
                let i = c;
                c = c + 1;
                scan_set_cursor(s, c);
                proof {
                    lemma_set_cur(pre, i as nat);
                }
                let t = scan_is_true(s, data, i);
                proof {
                    lemma_truth_set_cur(pre, c as nat, d, i as int);
                }
                if t == want {
                    proof {
                        lemma_least_scan_found(pre, d, rows, cur(pre) as int, i as int, want);
                        lemma_wf_set_cur(pre, c as nat, rows);
                    }
                    return Some(i);
                }
            }
            proof {
                lemma_least_scan_none(pre, d, rows, cur(pre) as int, want);
                lemma_wf_set_cur(pre, rows, rows);
            }
            None
        },
    }
}

impl LeafScanner for Scanner {
    open spec fn model(&self) -> ScanV {
        (*self)@
    }

    fn bind(&mut self, data: Option<&Leaf>) {
        scan_bind(self, data);
        proof {
            lemma_bind_wf(old(self)@, opt_rows(opt_leaf_view(data)));
        }
    }

    fn next_true(&mut self, data: Option<&Leaf>) -> (r: Option<usize>) {
        scan_next(self, data, true)
    }

    fn next_false(&mut self, data: Option<&Leaf>) -> (r: Option<usize>) {
        scan_next(self, data, false)
    }

    fn is_true(&self, data: Option<&Leaf>, index: usize) -> (r: bool) {
        scan_is_true(self, data, index)
    }
}

/// Binding does not change what the condition means, only the scan state.
pub proof fn lemma_truth_bind(s: ScanV, rows: nat, d: Option<LeafV>, row: int)
    ensures
        truth(spec_bind(s, rows), d, row) == truth(s, d, row),
{
    lemma_bind_wf(s, rows);
    lemma_truth_like(spec_bind(s, rows), s, d, row);
}

/// Only the last binding matters: rebinding forgets every earlier one.
pub proof fn lemma_bind_bind(s: ScanV, a: nat, b: nat)
    ensures
        spec_bind(spec_bind(s, a), b) == spec_bind(s, b),
    decreases s,
{
    match s {
        ScanV::And { kids, len, at } => {
            lemma_bind_kids(kids, a);
            lemma_bind_kids(kids, b);
            lemma_bind_kids(bind_kids(kids, a), b);
            assert forall|j: int| 0 <= j < kids.len() implies #[trigger] bind_kids(
                bind_kids(kids, a),
                b,
            )[j] == bind_kids(kids, b)[j] by {
                lemma_bind_bind(kids[j], a, b);
            }
            assert(bind_kids(bind_kids(kids, a), b) =~= bind_kids(kids, b));
            assert(s == ScanV::And { kids, len, at });
            assert(spec_bind(s, a) == ScanV::And { kids: bind_kids(kids, a), len: a, at: 0 });
        },
        ScanV::Or { kids, len, at } => {
            lemma_bind_kids(kids, a);
            lemma_bind_kids(kids, b);
            lemma_bind_kids(bind_kids(kids, a), b);
            assert forall|j: int| 0 <= j < kids.len() implies #[trigger] bind_kids(
                bind_kids(kids, a),
                b,
            )[j] == bind_kids(kids, b)[j] by {
                lemma_bind_bind(kids[j], a, b);
            }
            assert(bind_kids(bind_kids(kids, a), b) =~= bind_kids(kids, b));
            assert(s == ScanV::Or { kids, len, at });
            assert(spec_bind(s, a) == ScanV::Or { kids: bind_kids(kids, a), len: a, at: 0 });
        },
        ScanV::Not { kid } => {
            lemma_bind_bind(*kid, a, b);
        },
        _ => {},
    }
}

/// Moving a cursor is forgotten by the next binding.
pub proof fn lemma_bind_set_cur(s: ScanV, k: nat, b: nat)
    ensures
        spec_bind(set_cur(s, k), b) == spec_bind(s, b),
    decreases s,
{
    match s {
        ScanV::Not { kid } => {
            lemma_bind_set_cur(*kid, k, b);
        },
        _ => {},
    }
}
} // verus!

