//! The mutable query cursor over a compiled scanner tree, and the runner that
//! drives it leaf by leaf to produce the absolute row indices satisfying the
//! predicate, in strictly increasing order.

use vstd::prelude::*;

use crate::ast::{spec_compile, Ast};
use crate::scanner::{
    cur, lemma_bind_bind, lemma_bind_set_cur, lemma_least_scan_props, lemma_truth_bind,
    lemma_wf_props, opt_leaf_view, opt_rows, scan_wf, spec_bind, truth, LeafScanner, ScanV,
    Scanner,
};
use crate::source::{LeafSource, LeafV, RowSource};

verus! {

broadcast use vstd::seq::group_seq_axioms, vstd::std_specs::vec::group_vec_axioms;

/// Rows held by the leaves strictly before leaf `k`.
pub open spec fn rows_before(leaves: Seq<LeafV>, k: int) -> nat
    decreases k,
{
    if k <= 0 {
        0
    } else {
        rows_before(leaves, k - 1) + leaves[k - 1].rows
    }
}

/// Rows held by all leaves of the source together.
pub open spec fn total_rows(leaves: Seq<LeafV>) -> nat {
    rows_before(leaves, leaves.len() as int)
}

/// Rows of the first leaf, 0 when there is none.
pub open spec fn first_rows(leaves: Seq<LeafV>) -> nat {
    if leaves.len() > 0 {
        leaves[0].rows
    } else {
        0
    }
}

/// Whether the condition holds at absolute row `a` of the partitioned source:
/// the row is located in its leaf and the condition evaluated there.
pub open spec fn abs_truth(s: ScanV, leaves: Seq<LeafV>, a: int) -> bool
    decreases leaves.len(),
{
    if leaves.len() == 0 {
        false
    } else if a < leaves[0].rows {
        truth(s, Some(leaves[0]), a)
    } else {
        abs_truth(s, leaves.subrange(1, leaves.len() as int), a - leaves[0].rows)
    }
}

/// The first absolute row at or after `from` satisfying the condition, if
/// any.
pub open spec fn least_abs(s: ScanV, leaves: Seq<LeafV>, from: int) -> Option<int>
    decreases total_rows(leaves) - from,
{
    if !(0 <= from < total_rows(leaves)) {
        None
    } else if abs_truth(s, leaves, from) {
        Some(from)
    } else {
        least_abs(s, leaves, from + 1)
    }
}

/// Row counts accumulate one leaf at a time.
pub proof fn lemma_rows_before_step(leaves: Seq<LeafV>, i: int)
    requires
        0 <= i < leaves.len(),
    ensures
        rows_before(leaves, i + 1) == rows_before(leaves, i) + leaves[i].rows,
{
}

/// Accumulated row counts never shrink.
pub proof fn lemma_rows_before_mono(leaves: Seq<LeafV>, i: int, j: int)
    requires
        0 <= i <= j,
    ensures
        rows_before(leaves, i) <= rows_before(leaves, j),
    decreases j - i,
{
    if i < j {
        lemma_rows_before_mono(leaves, i, j - 1);
    }
}

proof fn lemma_rows_before_tail(leaves: Seq<LeafV>, k: int)
    requires
        1 <= k <= leaves.len(),
    ensures
        rows_before(leaves, k) == leaves[0].rows + rows_before(
            leaves.subrange(1, leaves.len() as int),
            k - 1,
        ),
    decreases k,
{
    let tail = leaves.subrange(1, leaves.len() as int);
    if k == 1 {
        assert(rows_before(leaves, 0) == 0);
        assert(rows_before(tail, 0) == 0);
    } else {
        lemma_rows_before_tail(leaves, k - 1);
        assert(tail[k - 2] == leaves[k - 1]);
    }
}

/// Locating an absolute row: the condition holds at offset `r` of leaf `i`
/// exactly when it holds at the absolute row that leaf position stands for.
pub proof fn lemma_abs_at(s: ScanV, leaves: Seq<LeafV>, i: int, r: int)
    requires
        0 <= i < leaves.len(),
        0 <= r < leaves[i].rows,
    ensures
        abs_truth(s, leaves, rows_before(leaves, i) + r) == truth(s, Some(leaves[i]), r),
    decreases i,
{
    let tail = leaves.subrange(1, leaves.len() as int);
    if i == 0 {
    } else {
        lemma_rows_before_tail(leaves, i);
        lemma_rows_before_mono(leaves, 1, i);
        assert(rows_before(leaves, 0) == 0);
        assert(rows_before(leaves, 1) == leaves[0].rows);
        lemma_abs_at(s, tail, i - 1, r);
        assert(tail[i - 1] == leaves[i]);
    }
}

/// When an absolute row satisfies the condition and no earlier one at or
/// after `from` does, the search finds exactly that row.
pub proof fn lemma_least_abs_found(s: ScanV, leaves: Seq<LeafV>, from: int, k: int)
    requires
        0 <= from <= k < total_rows(leaves),
        abs_truth(s, leaves, k),
        forall|t: int| from <= t < k ==> !abs_truth(s, leaves, t),
    ensures
        least_abs(s, leaves, from) == Some(k),
    decreases k - from,
{
    if from < k {
        lemma_least_abs_found(s, leaves, from + 1, k);
    }
}

/// When no absolute row at or after `from` satisfies the condition, the
/// search reports exhaustion.
pub proof fn lemma_least_abs_none(s: ScanV, leaves: Seq<LeafV>, from: int)
    requires
        forall|t: int| from <= t < total_rows(leaves) ==> !abs_truth(s, leaves, t),
    ensures
        least_abs(s, leaves, from) is None,
    decreases total_rows(leaves) - from,
{
    if 0 <= from < total_rows(leaves) {
        lemma_least_abs_none(s, leaves, from + 1);
    }
}

/// What a found or exhausted search means row by row.
pub proof fn lemma_least_abs_props(s: ScanV, leaves: Seq<LeafV>, from: int)
    requires
        0 <= from,
    ensures
        match least_abs(s, leaves, from) {
            Some(k) => from <= k < total_rows(leaves) && abs_truth(s, leaves, k) && forall|t: int|
                from <= t < k ==> !abs_truth(s, leaves, t),
            None => forall|t: int| from <= t < total_rows(leaves) ==> !abs_truth(s, leaves, t),
        },
    decreases total_rows(leaves) - from,
{
    if from < total_rows(leaves) && !abs_truth(s, leaves, from) {
        lemma_least_abs_props(s, leaves, from + 1);
    }
}

/// Scanners that agree after erasure of their scan state agree on every row,
/// absolute rows included.
pub proof fn lemma_abs_truth_erased(a: ScanV, b: ScanV, leaves: Seq<LeafV>, t: int)
    requires
        spec_bind(a, 0) == spec_bind(b, 0),
    ensures
        abs_truth(a, leaves, t) == abs_truth(b, leaves, t),
    decreases leaves.len(),
{
    if leaves.len() == 0 {
    } else if t < leaves[0].rows {
        lemma_truth_bind(a, 0, Some(leaves[0]), t);
        lemma_truth_bind(b, 0, Some(leaves[0]), t);
    } else {
        lemma_abs_truth_erased(a, b, leaves.subrange(1, leaves.len() as int), t - leaves[0].rows);
    }
}

/// Query state: the compiled scanner tree plus cursor bookkeeping. The
/// invariant ties the cumulative `index_offset` to the sum of rows of the
/// leaves already passed, and the scanner's bound length to the current
/// leaf.
pub struct QueryState {
    pub conditions: Scanner,
    pub num_leaves: usize,
    pub leaf_i: usize,
    pub current_leaf_size: usize,
    pub index_offset: usize,
}

/// Well-formed cursor state over a source with the given leaves.
pub open spec fn qs_wf(q: QueryState, leaves: Seq<LeafV>) -> bool {
    &&& q.num_leaves as nat == leaves.len()
    &&& q.leaf_i <= q.num_leaves
    &&& q.index_offset as nat == rows_before(leaves, q.leaf_i as int)
    &&& total_rows(leaves) <= usize::MAX as nat
    &&& if (q.leaf_i as nat) < leaves.len() {
        &&& q.current_leaf_size as nat == leaves[q.leaf_i as int].rows
        &&& scan_wf(q.conditions@, leaves[q.leaf_i as int].rows)
    } else {
        &&& q.current_leaf_size == 0
        &&& scan_wf(q.conditions@, 0)
    }
}

/// The absolute scan position: every earlier row has been either reported or
/// rejected.
pub open spec fn qs_pos(q: QueryState) -> int {
    q.index_offset + cur(q.conditions@)
}

impl QueryState {
    /// Bind a compiled scanner to a source, starting at its first leaf (or
    /// unbound when the source has no leaves).
    pub fn new<L: LeafSource>(scanner: Scanner, source: &L) -> (q: QueryState)
        requires
            total_rows(source.leaves()) <= usize::MAX as nat,
        ensures
            q.conditions@ == spec_bind(scanner@, first_rows(source.leaves())),
            q.num_leaves as nat == source.leaves().len(),
            q.leaf_i == 0,
            q.index_offset == 0,
            q.current_leaf_size as nat == first_rows(source.leaves()),
            qs_wf(q, source.leaves()),
            qs_pos(q) == 0,
    {
        let ghost s0 = scanner@;
        let ghost leaves = source.leaves();
        let mut scanner = scanner;
        let leaf = source.get_leaf(0);
        scanner.bind(leaf);
        let size = match leaf {
            Some(l) => l.len(),
            None => 0,
        };
        let q = QueryState {
            num_leaves: source.len(),
            leaf_i: 0,
            index_offset: 0,
            current_leaf_size: size,
            conditions: scanner,
        };
        proof {
            crate::scanner::lemma_bind_wf(s0, first_rows(leaves));
            assert(rows_before(leaves, 0) == 0);
        }
        q
    }

    /// Restart the cursor at leaf 0 of the given source, or detach everything
    /// when none is given: exactly what constructing a fresh state with the
    /// same scanner would produce.
    pub fn reset<L: LeafSource>(&mut self, src: Option<&L>)
        requires
            match src {
                Some(l) => total_rows(l.leaves()) <= usize::MAX as nat,
                None => true,
            },
        ensures
            match src {
                Some(l) => {
                    &&& final(self).conditions@ == spec_bind(
                        old(self).conditions@,
                        first_rows(l.leaves()),
                    )
                    &&& final(self).num_leaves as nat == l.leaves().len()
                    &&& final(self).leaf_i == 0
                    &&& final(self).index_offset == 0
                    &&& final(self).current_leaf_size as nat == first_rows(l.leaves())
                    &&& qs_wf(*final(self), l.leaves())
                    &&& qs_pos(*final(self)) == 0
                },
                None => {
                    &&& final(self).conditions@ == spec_bind(old(self).conditions@, 0)
                    &&& final(self).num_leaves == 0
                    &&& final(self).leaf_i == 0
                    &&& final(self).index_offset == 0
                    &&& final(self).current_leaf_size == 0
                    &&& qs_wf(*final(self), Seq::empty())
                    &&& qs_pos(*final(self)) == 0
                },
            },
    {
        match src {
            Some(source) => {
                self.num_leaves = source.len();
                self.leaf_i = 0;
                self.index_offset = 0;
                let leaf = source.get_leaf(0);
                self.current_leaf_size = match leaf {
                    Some(l) => l.len(),
                    None => 0,
                };
                self.conditions.bind(leaf);
                proof {
                    crate::scanner::lemma_bind_wf(old(self).conditions@, first_rows(source.leaves()));
                    assert(rows_before(source.leaves(), 0) == 0);
                }
            },
            None => {
                self.num_leaves = 0;
                self.leaf_i = 0;
                self.index_offset = 0;
                self.current_leaf_size = 0;
                self.conditions.bind(None);
                proof {
                    crate::scanner::lemma_bind_wf(old(self).conditions@, 0);
                    assert(rows_before(Seq::<LeafV>::empty(), 0) == 0);
                    assert(total_rows(Seq::<LeafV>::empty()) == 0);
                }
            },
        }
    }
}

/// A transient cursor driving a query state across a leaf source. Row indices
/// come out strictly increasing; a fresh runner over a reset state reproduces
/// the same sequence.
pub struct QueryRunner {
    pub state: QueryState,
}

impl QueryRunner {
    pub fn new(state: QueryState) -> (r: QueryRunner)
        ensures
            r.state == state,
    {
        QueryRunner { state }
    }

    /// Hand the query state back, to be reset and rerun.
    pub fn into_state(self) -> (r: QueryState)
        ensures
            r == self.state,
    {
        self.state
    }

    /// The next absolute row index satisfying the predicate, in ascending
    /// order; `None` once the source is exhausted. The result is exactly the
    /// first match at or after the state's current position.
    pub fn next<L: LeafSource>(&mut self, data: &L) -> (found: Option<usize>)
        requires
            qs_wf(old(self).state, data.leaves()),
        ensures
            qs_wf(final(self).state, data.leaves()),
            final(self).state.num_leaves == old(self).state.num_leaves,
            spec_bind(final(self).state.conditions@, 0) == spec_bind(
                old(self).state.conditions@,
                0,
            ),
            match found {
                Some(k) => {
                    &&& least_abs(
                        old(self).state.conditions@,
                        data.leaves(),
                        qs_pos(old(self).state),
                    ) == Some(k as int)
                    &&& qs_pos(old(self).state) <= k < total_rows(data.leaves())
                    &&& abs_truth(old(self).state.conditions@, data.leaves(), k as int)
                    &&& qs_pos(final(self).state) == k + 1
                },
                None => {
                    &&& least_abs(
                        old(self).state.conditions@,
                        data.leaves(),
                        qs_pos(old(self).state),
                    ) is None
                    &&& final(self).state.leaf_i == final(self).state.num_leaves
                    &&& qs_pos(final(self).state) == total_rows(data.leaves())
                },
            },
    {
        let ghost leaves = data.leaves();
        let ghost cond0 = old(self).state.conditions@;
        let ghost p0 = qs_pos(old(self).state);
        while self.state.leaf_i < self.state.num_leaves
            invariant
                leaves == data.leaves(),
                qs_wf(self.state, leaves),
                self.state.num_leaves == old(self).state.num_leaves,
                spec_bind(self.state.conditions@, 0) == spec_bind(cond0, 0),
                cond0 == old(self).state.conditions@,
                p0 == qs_pos(old(self).state),
                0 <= p0 <= qs_pos(self.state),
                forall|t: int| p0 <= t < qs_pos(self.state) ==> !abs_truth(cond0, leaves, t),
            decreases self.state.num_leaves - self.state.leaf_i,
        {
            let li = self.state.leaf_i;
            let ghost rows = leaves[li as int].rows;
            let ghost pre = self.state.conditions@;
            let ghost offset = self.state.index_offset as int;
            let ghost pos_entry = qs_pos(self.state);
            let ghost d = Some(leaves[li as int]);
            let leaf = data.get_leaf(li);
            let r = self.state.conditions.next_true(leaf);
            proof {
                lemma_least_scan_props(pre, d, rows, cur(pre) as int, true);
                lemma_rows_before_step(leaves, li as int);
                lemma_rows_before_mono(leaves, li as int + 1, leaves.len() as int);
            }
            match r {
                Some(found) => {
                    proof {
                        assert(offset + found < total_rows(leaves));
                        crate::scanner::lemma_set_cur(pre, (found + 1) as nat);
                        lemma_bind_set_cur(pre, (found + 1) as nat, 0);
                        lemma_truth_bind(cond0, 0, d, found as int);
                        lemma_truth_bind(pre, 0, d, found as int);
                        lemma_abs_at(cond0, leaves, li as int, found as int);
                        assert(abs_truth(cond0, leaves, offset + found));
                        assert forall|t: int| p0 <= t < offset + found implies !abs_truth(
                            cond0,
                            leaves,
                            t,
                        ) by {
                            if t >= pos_entry {
                                let rr = t - offset;
                                lemma_truth_bind(cond0, 0, d, rr);
                                lemma_truth_bind(pre, 0, d, rr);
                                lemma_abs_at(cond0, leaves, li as int, rr);
                            }
                        }
                        lemma_least_abs_found(cond0, leaves, p0, offset + found);
                    }
                    return Some(found + self.state.index_offset);
                },
                None => {
                    proof {
                        lemma_wf_props(pre, rows);
                        crate::scanner::lemma_set_cur(pre, rows);
                        assert forall|t: int| pos_entry <= t < rows_before(leaves, li as int + 1)
                            implies !abs_truth(cond0, leaves, t) by {
                            let rr = t - offset;
                            lemma_truth_bind(cond0, 0, d, rr);
                            lemma_truth_bind(pre, 0, d, rr);
                            lemma_abs_at(cond0, leaves, li as int, rr);
                        }
                    }
                    self.state.index_offset = self.state.index_offset
                        + self.state.current_leaf_size;
                    self.state.leaf_i = li + 1;
                    let next_leaf = data.get_leaf(self.state.leaf_i);
                    self.state.current_leaf_size = match next_leaf {
                        Some(nl) => nl.len(),
                        None => 0,
                    };
                    let ghost before_bind = self.state.conditions@;
                    let ghost rows2 = opt_rows(opt_leaf_view(next_leaf));
                    self.state.conditions.bind(next_leaf);
                    proof {
                        crate::scanner::lemma_bind_wf(before_bind, rows2);
                        lemma_bind_bind(before_bind, rows2, 0);
                        lemma_bind_set_cur(pre, rows, 0);
                    }
                },
            }
        }
        proof {
            lemma_wf_props(self.state.conditions@, 0);
            assert(qs_pos(self.state) == total_rows(leaves));
            lemma_least_abs_none(cond0, leaves, p0);
        }
        None
    }
}

/// An unbound query: a predicate tree waiting to be compiled against a
/// source.
pub struct Query {
    pub root: Ast,
}

impl Query {
    /// Compile the predicate tree and bind it to the source, ready to run
    /// from the first leaf.
    pub fn compile<L: LeafSource>(&self, source: &L) -> (q: QueryState)
        requires
            total_rows(source.leaves()) <= usize::MAX as nat,
        ensures
            q.conditions@ == spec_bind(spec_compile(self.root@), first_rows(source.leaves())),
            q.num_leaves as nat == source.leaves().len(),
            q.leaf_i == 0,
            q.index_offset == 0,
            qs_wf(q, source.leaves()),
            qs_pos(q) == 0,
    {
        let scanner = self.root.compile();
        QueryState::new(scanner, source)
    }
}

} // verus!
