//! The caller-built predicate tree and its compilation into a scanner tree.
//!
//! Compilation is a pure, structural lowering: one scanner node per tree
//! node, with every cursor at zero and nothing bound. It touches no leaf
//! data.

use vstd::prelude::*;

use crate::scanner::{
    kid_views, lemma_kid_views, scan_view, AndConditions, CmpConstCond, NotCondition, OrConditions,
    ScanV, Scanner,
};
use crate::source::LeafV;
use crate::value::{Cmp, ValV, Value};

verus! {

broadcast use vstd::seq::group_seq_axioms, vstd::std_specs::vec::group_vec_axioms;

/// A literal a column is compared against. `Float` carries the IEEE 754
/// binary64 bit pattern of the constant.
#[derive(Clone, Copy, Debug)]
pub enum Constant {
    Integer(i64),
    Float(u64),
    Boolean(bool),
}

/// The value a constant stands for.
pub open spec fn const_val(c: Constant) -> ValV {
    match c {
        Constant::Integer(x) => ValV::Int(x),
        Constant::Float(x) => ValV::Float(x),
        Constant::Boolean(x) => ValV::Bool(x),
    }
}

/// An unbound predicate tree, built by the caller and immutable thereafter.
pub enum Ast {
    And(Vec<Ast>),
    Or(Vec<Ast>),
    Not(Box<Ast>),
    ColumnConstComparison { column_index: usize, value: Constant, comparison: Cmp },
}

/// The mathematical model of a predicate tree.
pub ghost enum AstV {
    And(Seq<AstV>),
    Or(Seq<AstV>),
    Not(Box<AstV>),
    Cmp { col: nat, value: ValV, op: Cmp },
}

/// The models of a sequence of subtrees, in order.
pub open spec fn ast_views(cs: Seq<Ast>) -> Seq<AstV>
    decreases cs,
{
    if cs.len() == 0 {
        Seq::empty()
    } else {
        ast_views(cs.drop_last()).push(ast_view(cs.last()))
    }
}

/// The model of a predicate tree; `Ast`'s `View` impl forwards here.
pub open spec fn ast_view(a: Ast) -> AstV
    decreases a,
{
    match a {
        Ast::And(cs) => AstV::And(ast_views(cs@)),
        Ast::Or(cs) => AstV::Or(ast_views(cs@)),
        Ast::Not(c) => AstV::Not(Box::new(ast_view(*c))),
        Ast::ColumnConstComparison { column_index, value, comparison } => AstV::Cmp {
            col: column_index as nat,
            value: const_val(value),
            op: comparison,
        },
    }
}

impl View for Ast {
    type V = AstV;

    open spec fn view(&self) -> AstV {
        ast_view(*self)
    }
}

/// `ast_views` is the pointwise view of its argument.
pub proof fn lemma_ast_views(cs: Seq<Ast>)
    ensures
        ast_views(cs).len() == cs.len(),
        forall|j: int| #![trigger ast_views(cs)[j]]
            0 <= j < cs.len() ==> ast_views(cs)[j] == ast_view(cs[j]),
    decreases cs.len(),
{
    if cs.len() > 0 {
        lemma_ast_views(cs.drop_last());
    }
}

/// Whether the predicate holds at a row of the given leaf: AND over all
/// children (true when there are none), OR over the children (also true when
/// there are none, mirroring AND), negation, or a constant comparison where a
/// missing value and an unknown column never match.
pub open spec fn ast_truth(a: AstV, d: Option<LeafV>, row: int) -> bool
    decreases a,
{
    match a {
        AstV::And(cs) => forall|j: int| 0 <= j < cs.len() ==> ast_truth(#[trigger] cs[j], d, row),
        AstV::Or(cs) => cs.len() == 0 || exists|j: int|
            0 <= j < cs.len() && ast_truth(#[trigger] cs[j], d, row),
        AstV::Not(c) => !ast_truth(*c, d, row),
        AstV::Cmp { col, value, op } => match d {
            Some(l) => match crate::source::leaf_cell(l, col as int, row) {
                Some(v) => crate::value::val_cmp(op, v, value),
                None => false,
            },
            None => false,
        },
    }
}

/// The compiled, unbound models of a sequence of subtrees.
pub open spec fn compile_kids(cs: Seq<AstV>) -> Seq<ScanV>
    decreases cs,
{
    if cs.len() == 0 {
        Seq::empty()
    } else {
        compile_kids(cs.drop_last()).push(spec_compile(cs.last()))
    }
}

/// What compiling a predicate tree yields: the structurally isomorphic
/// scanner tree, unbound and with every cursor at zero.
pub open spec fn spec_compile(a: AstV) -> ScanV
    decreases a,
{
    match a {
        AstV::And(cs) => ScanV::And { kids: compile_kids(cs), len: 0, at: 0 },
        AstV::Or(cs) => ScanV::Or { kids: compile_kids(cs), len: 0, at: 0 },
        AstV::Not(c) => ScanV::Not { kid: Box::new(spec_compile(*c)) },
        AstV::Cmp { col, value, op } => ScanV::CmpConst {
            col,
            needle: value,
            op,
            len: 0,
            at: 0,
        },
    }
}

/// `compile_kids` is the pointwise compilation of its argument.
pub proof fn lemma_compile_kids(cs: Seq<AstV>)
    ensures
        compile_kids(cs).len() == cs.len(),
        forall|j: int| #![trigger compile_kids(cs)[j]]
            0 <= j < cs.len() ==> compile_kids(cs)[j] == spec_compile(cs[j]),
    decreases cs.len(),
{
    if cs.len() > 0 {
        lemma_compile_kids(cs.drop_last());
    }
}

/// Compilation preserves meaning: the compiled scanner holds at a row exactly
/// when the predicate tree does.
pub proof fn lemma_compile_truth(a: AstV, d: Option<LeafV>, row: int)
    ensures
        crate::scanner::truth(spec_compile(a), d, row) == ast_truth(a, d, row),
    decreases a,
{
    match a {
        AstV::And(cs) => {
            lemma_compile_kids(cs);
            let kids = compile_kids(cs);
            crate::scanner::lemma_truth_and(kids, 0, 0, d, row);
            if ast_truth(a, d, row) {
                assert forall|j: int| 0 <= j < kids.len() implies crate::scanner::truth(
                    #[trigger] kids[j],
                    d,
                    row,
                ) by {
                    lemma_compile_truth(cs[j], d, row);
                }
            } else {
                let c = choose|j: int| 0 <= j < cs.len() && !ast_truth(#[trigger] cs[j], d, row);
                lemma_compile_truth(cs[c], d, row);
                assert(!crate::scanner::truth(kids[c], d, row));
            }
        },
        AstV::Or(cs) => {
            lemma_compile_kids(cs);
            let kids = compile_kids(cs);
            if cs.len() == 0 {
                crate::scanner::lemma_truth_empty_or(kids, 0, 0, d, row);
            } else {
                crate::scanner::lemma_truth_or(kids, 0, 0, d, row);
                if ast_truth(a, d, row) {
                    let c = choose|j: int| 0 <= j < cs.len() && ast_truth(#[trigger] cs[j], d, row);
                    lemma_compile_truth(cs[c], d, row);
                    assert(crate::scanner::truth(kids[c], d, row));
                } else {
                    assert forall|j: int| 0 <= j < kids.len() implies !crate::scanner::truth(
                        #[trigger] kids[j],
                        d,
                        row,
                    ) by {
                        lemma_compile_truth(cs[j], d, row);
                    }
                }
            }
        },
        AstV::Not(c) => {
            lemma_compile_truth(*c, d, row);
            crate::scanner::lemma_truth_not(spec_compile(*c), d, row);
        },
        AstV::Cmp { col, value, op } => {},
    }
}

impl Ast {
    /// Lower the predicate tree into its scanner tree. A pure transformation:
    /// no leaf data is touched and nothing is bound yet.
    pub fn compile(&self) -> (r: Scanner)
        ensures
            r@ == spec_compile(self@),
        decreases self,
    {
        match self {
            Ast::And(terms) => {
                let mut kids: Vec<Scanner> = Vec::new();
                let n = terms.len();
                let mut j: usize = 0;
                while j < n
                    invariant
                        0 <= j <= n,
                        n == terms@.len(),
                        kids@.len() == j,
                        *self == Ast::And(*terms),
                        forall|t: int|
                            0 <= t < j ==> (#[trigger] kids@[t])@ == spec_compile(ast_view(
                                terms@[t],
                            )),
                    decreases n - j,
                {
                    proof {
                        assert((*self)->And_0 == *terms);
                        assert(decreases_to!(*self => (*self)->And_0));
                        assert(decreases_to!(*terms => terms@[j as int]));
                    }
                    let kid = terms[j].compile();
                    kids.push(kid);
                    j += 1;
                }
                let r = Scanner::And(AndConditions { conditions: kids, len: 0, i: 0 });
                proof {
                    lemma_ast_views(terms@);
                    lemma_compile_kids(ast_views(terms@));
                    match &r {
                        Scanner::And(a) => {
                            lemma_kid_views(a.conditions@);
                            assert(kid_views(a.conditions@) =~= compile_kids(ast_views(terms@)));
                        },
                        _ => {},
                    }
                    assert(self@ == AstV::And(ast_views(terms@)));
                    assert(spec_compile(self@) == ScanV::And {
                        kids: compile_kids(ast_views(terms@)),
                        len: 0,
                        at: 0,
                    });
                }
                r
            },
            Ast::Or(terms) => {
                let mut kids: Vec<Scanner> = Vec::new();
                let n = terms.len();
                let mut j: usize = 0;
                while j < n
                    invariant
                        0 <= j <= n,
                        n == terms@.len(),
                        kids@.len() == j,
                        *self == Ast::Or(*terms),
                        forall|t: int|
                            0 <= t < j ==> (#[trigger] kids@[t])@ == spec_compile(ast_view(
                                terms@[t],
                            )),
                    decreases n - j,
                {
                    proof {
                        assert((*self)->Or_0 == *terms);
                        assert(decreases_to!(*self => (*self)->Or_0));
                        assert(decreases_to!(*terms => terms@[j as int]));
                    }
                    let kid = terms[j].compile();
                    kids.push(kid);
                    j += 1;
                }
                let r = Scanner::Or(OrConditions { conditions: kids, len: 0, i: 0 });
                proof {
                    lemma_ast_views(terms@);
                    lemma_compile_kids(ast_views(terms@));
                    match &r {
                        Scanner::Or(o) => {
                            lemma_kid_views(o.conditions@);
                            assert(kid_views(o.conditions@) =~= compile_kids(ast_views(terms@)));
                        },
                        _ => {},
                    }
                    assert(self@ == AstV::Or(ast_views(terms@)));
                    assert(spec_compile(self@) == ScanV::Or {
                        kids: compile_kids(ast_views(terms@)),
                        len: 0,
                        at: 0,
                    });
                }
                r
            },
            Ast::Not(term) => {
                let kid = term.compile();
                let r = Scanner::Not(NotCondition { cond: Box::new(kid) });
                proof {
                    assert(self@ == AstV::Not(Box::new((**term)@)));
                    match &r {
                        Scanner::Not(n) => {
                            assert(scan_view(Scanner::Not(NotCondition { cond: n.cond }))
                                == ScanV::Not { kid: Box::new((*n.cond)@) });
                        },
                        _ => {},
                    }
                }
                r
            },
            Ast::ColumnConstComparison { column_index, value, comparison } => {
                let needle = match value {
                    Constant::Integer(x) => Value::Int(*x),
                    Constant::Float(x) => Value::Float(*x),
                    Constant::Boolean(x) => Value::Bool(*x),
                };
                Scanner::CmpConst(CmpConstCond {
                    col_index: *column_index,
                    needle,
                    cmp: *comparison,
                    len: 0,
                    i: 0,
                })
            },
        }
    }
}

} // verus!
