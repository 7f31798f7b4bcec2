//! The engine's laws, stated once and proved: how combinators compose, what
//! the self-comparison shortcut does, and how the runner's output relates to
//! the predicate tree. The combinator truth laws themselves live beside the
//! scanner (`lemma_truth_and`, `lemma_truth_or`, `lemma_truth_empty_or`,
//! `lemma_truth_not`).

use vstd::prelude::*;

use crate::ast::{ast_truth, spec_compile, AstV};
use crate::query::{abs_truth, least_abs, lemma_least_abs_props, total_rows};
use crate::scanner::{
    cur, least_scan, lemma_bind_bind, lemma_least_scan_not, lemma_truth_bind, lemma_truth_not,
    set_cur, spec_bind, truth, ScanV,
};
use crate::source::LeafV;
use crate::value::{cmp_identity, Cmp};

verus! {

broadcast use vstd::seq::group_seq_axioms;

/// A double negation is observationally identical to the plain scanner: it
/// holds at the same rows, it scans from the same cursor, forward scans for
/// true and for false rows find the same row (so `next_true` and `next_false`
/// behave identically on both), and moving the cursor or rebinding keeps the
/// two trees in lockstep.
pub proof fn lemma_double_not(x: ScanV, d: Option<LeafV>, rows: nat, from: int, want: bool, k: nat)
    ensures
        truth(double_not(x), d, from) == truth(x, d, from),
        cur(double_not(x)) == cur(x),
        least_scan(double_not(x), d, rows, from, want) == least_scan(x, d, rows, from, want),
        set_cur(double_not(x), k) == double_not(set_cur(x, k)),
        spec_bind(double_not(x), rows) == double_not(spec_bind(x, rows)),
{
    let once = ScanV::Not { kid: Box::new(x) };
    lemma_truth_not(x, d, from);
    lemma_truth_not(once, d, from);
    lemma_least_scan_not(once, d, rows, from, want);
    lemma_least_scan_not(x, d, rows, from, !want);
    assert(cur(once) == cur(x));
    assert(cur(double_not(x)) == cur(once));
    assert(set_cur(once, k) == ScanV::Not { kid: Box::new(set_cur(x, k)) });
    assert(set_cur(double_not(x), k) == ScanV::Not { kid: Box::new(set_cur(once, k)) });
    assert(spec_bind(once, rows) == ScanV::Not { kid: Box::new(spec_bind(x, rows)) });
    assert(spec_bind(double_not(x), rows) == ScanV::Not { kid: Box::new(spec_bind(once, rows)) });
}

/// `Not(Not(x))`.
pub open spec fn double_not(x: ScanV) -> ScanV {
    ScanV::Not { kid: Box::new(ScanV::Not { kid: Box::new(x) }) }
}

/// The self-comparison shortcut: a column compared to itself under an
/// operator that holds on every self-comparison (`Eq`, `Lte`, `Gte`) matches
/// every row of every leaf — a missing value included, since no data is read.
pub proof fn lemma_self_comparison(
    col: nat,
    op: Cmp,
    len: nat,
    at: nat,
    d: Option<LeafV>,
    row: int,
)
    requires
        cmp_identity(op),
    ensures
        truth(ScanV::CmpCol { col_a: col, col_b: col, op, len, at }, d, row),
{
}

/// Rows come out of the runner in strictly increasing order: when a search
/// from `p` finds row `k`, the next search (which resumes just past `k`)
/// can only find a strictly later row.
pub proof fn lemma_strictly_increasing(s: ScanV, leaves: Seq<LeafV>, p: int, k: int, k2: int)
    requires
        0 <= p,
        least_abs(s, leaves, p) == Some(k),
        least_abs(s, leaves, k + 1) == Some(k2),
    ensures
        k < k2,
{
    lemma_least_abs_props(s, leaves, k + 1);
}

/// A source with no leaves holds no rows, so any search over it is exhausted
/// at once, whatever the predicate.
pub proof fn lemma_empty_source(s: ScanV, leaves: Seq<LeafV>, from: int)
    requires
        leaves.len() == 0,
    ensures
        total_rows(leaves) == 0,
        least_abs(s, leaves, from) is None,
{
}

/// Resetting reproduces a fresh state: two scanners that agree after erasure
/// of their scan state — as a used scanner and the scanner it was compiled
/// from always do, every operation preserving erased structure — bind to any
/// leaf identically. With the cursor fields reset alike by `reset` and `new`,
/// the states are equal, and the runner's output depends on nothing else:
/// the reproduced sequence is identical.
pub proof fn lemma_reset_reproduces(s1: ScanV, s2: ScanV, rows: nat)
    requires
        spec_bind(s1, 0) == spec_bind(s2, 0),
    ensures
        spec_bind(s1, rows) == spec_bind(s2, rows),
{
    lemma_bind_bind(s1, 0, rows);
    lemma_bind_bind(s2, 0, rows);
}

/// Whether the predicate tree holds at an absolute row of the partitioned
/// source.
pub open spec fn ast_matches_at(a: AstV, leaves: Seq<LeafV>, t: int) -> bool
    decreases leaves.len(),
{
    if leaves.len() == 0 {
        false
    } else if t < leaves[0].rows {
        ast_truth(a, Some(leaves[0]), t)
    } else {
        ast_matches_at(a, leaves.subrange(1, leaves.len() as int), t - leaves[0].rows)
    }
}

/// End to end: a scanner compiled from a predicate tree — and then bound,
/// scanned and rebound any number of times — matches exactly the absolute
/// rows where the predicate holds. Together with the runner's contract, the
/// produced sequence is exactly the matching rows, in increasing order.
pub proof fn lemma_compiled_matches(a: AstV, s: ScanV, leaves: Seq<LeafV>, t: int)
    requires
        spec_bind(s, 0) == spec_bind(spec_compile(a), 0),
    ensures
        abs_truth(s, leaves, t) == ast_matches_at(a, leaves, t),
    decreases leaves.len(),
{
    if leaves.len() == 0 {
    } else if t < leaves[0].rows {
        lemma_truth_bind(s, 0, Some(leaves[0]), t);
        lemma_truth_bind(spec_compile(a), 0, Some(leaves[0]), t);
        crate::ast::lemma_compile_truth(a, Some(leaves[0]), t);
    } else {
        lemma_compiled_matches(a, s, leaves.subrange(1, leaves.len() as int), t - leaves[0].rows);
    }
}

} // verus!

