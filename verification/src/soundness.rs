//! Why pruning never loses a row: what the decisions of this library mean, stated over a server
//! whose answers are given by functions, and the laws that tie the decisions to the rows.
//!
//! The first part says what the question-and-answer decisions come down to: for a server that
//! gives each question one answer, a leaf's verdict, and with it the decision on a relation, is
//! a plain function of clause, summary and server, reached after finitely many questions. The
//! second part says what summaries and clauses mean for the rows of a partition, and proves that
//! a partition that is pruned holds no matching row, and that summaries keep covering their
//! partition while rows come and go.

use vstd::prelude::*;
use crate::backend::{elem_models, Answer, ArrayConst, QuestionModel, SelectionModel};
use crate::index_storage::{opt_text, ColModel};
use crate::plan_state::{answer_kept, remembered_answer, PlanModel};
use crate::prune_hook::{
    all_rendered, all_walk, any_walk, bare, clause_walk, column_and_const, column_strategy,
    commuted, comparison, disjoint_statement, elem_texts, elements_evaluation, extraction,
    leaf_advanced, leaf_evaluation, leaf_learned, null_test_qual, position, qual_attnum,
    qual_evaluation, relation_walk, seen_type, verdict, BoolOp, Clause, EvalFacts, EvaluationModel,
    ExtractFacts, ExtractionModel, LeafExpr, LeafRun, NullTestKind, Operand, QualModel, WalkModel,
};
use crate::text::quoted;

verus! {

// ---- a server --------------------------------------------------------------------

/// A server, by its answers to the questions of this library and by what its operators mean. All
/// texts are written and read under the settings that [`crate::backend::fixed_settings`] gives,
/// whatever those of a session are: the answers are the same in the session that writes a summary
/// and in those that read it.
pub struct Server {
    pub strategy: spec_fn(u32, u32) -> Option<i16>,
    pub operator_name: spec_fn(u32) -> Option<Seq<char>>,
    pub render: spec_fn(u32, u64) -> Option<Seq<char>>,
    pub sql_type: spec_fn(u32) -> Option<Seq<char>>,
    /// The type of an array's elements, and the elements: nothing for a null one, otherwise its
    /// value, and its text if it has one.
    pub elements: spec_fn(u32, u64) -> Option<(u32, Seq<Option<(u64, Option<Seq<char>>)>>)>,
    pub compare_proc: spec_fn(u32) -> Option<u32>,
    pub cross_proc: spec_fn(u32, u32) -> Option<u32>,
    pub parse: spec_fn(u32, Seq<char>) -> Option<u64>,
    pub compare: spec_fn(u32, u32, u64, u64) -> i32,
    pub select_bool: spec_fn(Seq<char>) -> Option<bool>,
    pub select_text: spec_fn(Seq<char>) -> SelectionModel,
    /// What an operator gives for two values that are not null. On a null it gives null.
    pub apply: spec_fn(u32, u32, u64, u64) -> Option<bool>,
    /// Whether an operator takes operands of these two types, or of types that they are
    /// binary-compatible with.
    pub takes: spec_fn(u32, u32, u32) -> bool,
    /// Whether a clause that the library does not look into is true of a row.
    pub opaque_leaf: spec_fn(LeafExpr, Map<i16, u64>) -> bool,
    pub opaque_not: spec_fn(Clause, Map<i16, u64>) -> bool,
}

/// The answer is the one that the server gives to the question.
pub open spec fn answers(s: Server, q: QuestionModel, a: Answer) -> bool {
    match (q, a) {
        (QuestionModel::Strategy { opno, typ }, Answer::Strategy(x)) => x == (s.strategy)(
            opno,
            typ,
        ),
        (QuestionModel::OperatorName { opno }, Answer::OperatorName(x)) => opt_text(x) == (
        s.operator_name)(opno),
        (QuestionModel::Render { typ, value }, Answer::Text(x)) => opt_text(x) == (s.render)(
            typ,
            value,
        ),
        (QuestionModel::SqlType { typ }, Answer::SqlType(x)) => opt_text(x) == (s.sql_type)(typ),
        (QuestionModel::ArrayElements { typ, value }, Answer::Elements(x)) => elements_model(x) == (
        s.elements)(typ, value),
        (QuestionModel::CompareProc { typ }, Answer::Proc(x)) => x == (s.compare_proc)(typ),
        (QuestionModel::CrossProc { typ, other }, Answer::CrossProc(x)) => x == (s.cross_proc)(
            typ,
            other,
        ),
        (QuestionModel::ParseConst { typ, text }, Answer::Constant(x)) => x == (s.parse)(typ, text),
        (QuestionModel::Parse { typ, text }, Answer::Value(x)) => x == (s.parse)(typ, text),
        (
            QuestionModel::Compare { proc, collation, left, right },
            Answer::Comparison(x),
        ) => x == (s.compare)(proc, collation, left, right),
        (
            QuestionModel::ReadBack { typ, proc, collation, text, value },
            Answer::ReadBack(x),
        ) => x == read_back(s, typ, proc, collation, text, value),
        (QuestionModel::SelectBool { sql }, Answer::Truth(x)) => x == (s.select_bool)(sql),
        (QuestionModel::SelectText { sql }, Answer::Selected(x)) => x@ == (s.select_text)(sql),
        _ => false,
    }
}

/// How the value that a text denotes compares with the value that the text was made of; nothing
/// where it denotes none.
pub open spec fn read_back(
    s: Server,
    typ: u32,
    proc: u32,
    collation: u32,
    text: Seq<char>,
    value: u64,
) -> Option<i32> {
    match (s.parse)(typ, text) {
        Some(k) => Some((s.compare)(proc, collation, k, value)),
        None => None,
    }
}

/// What an array constant says.
pub open spec fn elements_model(v: Option<ArrayConst>) -> Option<
    (u32, Seq<Option<(u64, Option<Seq<char>>)>>),
> {
    match v {
        Some(a) => Some((a.elem_type, elem_models(a.elems@))),
        None => None,
    }
}

// ---- what the decisions come down to ---------------------------------------------

/// An element that is null or has its text.
pub open spec fn has_text(e: Option<(u64, Option<Seq<char>>)>) -> bool {
    match e {
        Some((_, t)) => t is Some,
        None => true,
    }
}

/// Every element that is not null has its text.
pub open spec fn have_texts(es: Seq<Option<(u64, Option<Seq<char>>)>>) -> bool {
    forall|i: int| 0 <= i < es.len() ==> has_text(#[trigger] es[i])
}

/// The elements with their texts, nothing for a null one.
pub open spec fn flattened(es: Seq<Option<(u64, Option<Seq<char>>)>>) -> Seq<
    Option<(u64, Seq<char>)>,
> {
    Seq::new(
        es.len(),
        |i: int|
            match es[i] {
                Some((v, Some(t))) => Some((v, t)),
                _ => None,
            },
    )
}

/// The clause that the server's answers make of a leaf, if they make one.
pub open spec fn found_qual(s: Server, expr: LeafExpr) -> Option<QualModel> {
    match expr {
        LeafExpr::Op { opno, inputcollid, args } => match column_and_const(args@) {
            None => None,
            Some(c) => match ((s.strategy)(opno, c.vartype), (s.render)(c.consttype, c.value)) {
                (Some(st), Some(t)) => if 1 <= column_strategy(c, st) <= 5 && inputcollid
                    == c.collation {
                    Some(
                        QualModel::Compare {
                            attnum: c.attnum,
                            strategy: column_strategy(c, st),
                            typ: c.vartype,
                            collation: inputcollid,
                            other: c.seen_as,
                            value: c.value,
                            const_text: t,
                        },
                    )
                } else {
                    None
                },
                (None, Some(t)) => match (s.sql_type)(c.consttype) {
                    Some(n) => if (s.operator_name)(opno) == Some("&&"@) {
                        Some(
                            QualModel::Overlap { attnum: c.attnum, const_text: t, const_type: n },
                        )
                    } else {
                        None
                    },
                    None => None,
                },
                _ => None,
            },
        },
        LeafExpr::NullTest { kind, arg_is_row, arg } => null_test_qual(kind, arg_is_row, arg),
        LeafExpr::ScalarArrayOp { opno, inputcollid, use_or, args } => match column_and_const(
            args@,
        ) {
            None => None,
            Some(c) => match (s.elements)(c.consttype, c.value) {
                Some((elem_type, es)) => if use_or && !c.commuted && (s.strategy)(opno, c.vartype)
                    == Some(3i16) && inputcollid == c.collation && have_texts(es) {
                    Some(
                        QualModel::InList {
                            attnum: c.attnum,
                            typ: c.vartype,
                            collation: inputcollid,
                            elem_type,
                            elems: flattened(es),
                        },
                    )
                } else {
                    None
                },
                None => None,
            },
        },
        LeafExpr::Other => None,
    }
}

/// Whether `col op k` is refuted by the bounds: `a` and `b` are minimum and maximum.
pub open spec fn bounds_refute(
    s: Server,
    strategy: i16,
    proc: u32,
    collation: u32,
    k: u64,
    a: u64,
    b: u64,
) -> bool {
    if strategy == 1 {
        (s.compare)(proc, collation, a, k) >= 0
    } else if strategy == 2 {
        (s.compare)(proc, collation, a, k) > 0
    } else if strategy == 3 {
        (s.compare)(proc, collation, k, a) < 0 || (s.compare)(proc, collation, k, b) > 0
    } else if strategy == 4 {
        (s.compare)(proc, collation, b, k) < 0
    } else if strategy == 5 {
        (s.compare)(proc, collation, b, k) <= 0
    } else {
        false
    }
}

/// The comparison procedure and the bounds as values, where the server has them all.
pub open spec fn range_values(s: Server, row: ColModel, typ: u32) -> Option<(u32, u64, u64)> {
    match (row.min, row.max) {
        (Some(lo), Some(hi)) => match (
            (s.compare_proc)(typ),
            (s.parse)(typ, lo),
            (s.parse)(typ, hi),
        ) {
            (Some(proc), Some(a), Some(b)) => Some((proc, a, b)),
            _ => None,
        },
        _ => None,
    }
}

/// The value of the column's type that a constant of another type is, read from its text, where
/// the server finds the two equal.
pub open spec fn read_constant(
    s: Server,
    typ: u32,
    collation: u32,
    const_type: u32,
    value: u64,
    text: Seq<char>,
) -> Option<u64> {
    match ((s.cross_proc)(typ, const_type), (s.parse)(typ, text)) {
        (Some(cross), Some(k)) => if (s.compare)(cross, collation, k, value) == 0 {
            Some(k)
        } else {
            None
        },
        _ => None,
    }
}

/// A list element that cannot match: null, or read as a value outside of the bounds.
pub open spec fn elem_refuted(
    s: Server,
    typ: u32,
    collation: u32,
    elem_type: u32,
    e: Option<(u64, Seq<char>)>,
    proc: u32,
    a: u64,
    b: u64,
) -> bool {
    match e {
        None => true,
        Some((value, t)) => match read_constant(s, typ, collation, elem_type, value, t) {
            None => false,
            Some(d) => (s.compare)(proc, collation, d, a) < 0 || (s.compare)(proc, collation, d, b)
                > 0,
        },
    }
}

/// No element of a list can match.
pub open spec fn list_refuted(
    s: Server,
    typ: u32,
    collation: u32,
    elem_type: u32,
    elems: Seq<Option<(u64, Seq<char>)>>,
    proc: u32,
    a: u64,
    b: u64,
) -> bool {
    forall|i: int|
        0 <= i < elems.len() ==> elem_refuted(
            s,
            typ,
            collation,
            elem_type,
            #[trigger] elems[i],
            proc,
            a,
            b,
        )
}

/// Whether a clause proves, from its column's summary, that no row matches.
pub open spec fn qual_proves(s: Server, q: QualModel, row: ColModel) -> bool {
    match q {
        QualModel::Null { is_null, .. } => if is_null {
            !row.has_nulls
        } else {
            row.all_nulls
        },
        QualModel::Compare { strategy, typ, collation, other, value, const_text, .. } => {
            !row.overlap && match (
                range_values(s, row, typ),
                read_constant(s, typ, collation, other, value, const_text),
            ) {
                (Some((proc, a, b)), Some(k)) => bounds_refute(
                    s,
                    strategy,
                    proc,
                    collation,
                    k,
                    a,
                    b,
                ),
                _ => false,
            }
        },
        QualModel::InList { typ, collation, elem_type, elems, .. } => !row.overlap && match (
            range_values(s, row, typ),
            (s.cross_proc)(typ, elem_type),
        ) {
            (Some((proc, a, b)), Some(_)) => list_refuted(
                s,
                typ,
                collation,
                elem_type,
                elems,
                proc,
                a,
                b,
            ),
            _ => false,
        },
        QualModel::Overlap { const_text, const_type, .. } => row.overlap && row.sql_type.len() > 0
            && match row.min {
            Some(extent) => (s.select_bool)(
                disjoint_statement(extent, row.sql_type, const_text, const_type),
            ) == Some(true),
            None => false,
        },
    }
}

/// Whether a leaf proves that no row matches.
pub open spec fn leaf_proves(s: Server, expr: LeafExpr, rows: Seq<ColModel>) -> bool {
    match found_qual(s, expr) {
        Some(q) => {
            let i = position(rows, qual_attnum(q));
            0 <= i < rows.len() && qual_proves(s, q, rows[i])
        },
        None => false,
    }
}

/// Whether a clause proves that no row matches.
pub open spec fn clause_proves(s: Server, clause: Clause, rows: Seq<ColModel>) -> bool
    decreases clause, 0int,
{
    match clause {
        Clause::Leaf(leaf) => leaf_proves(s, leaf.expr, rows),
        Clause::Bool { op, args } => match op {
            BoolOp::And => any_proves(s, args, 0, rows),
            BoolOp::Or => args@.len() > 0 && all_prove(s, args, 0, rows),
            BoolOp::Not => false,
        },
    }
}

/// Whether any clause from the `i`-th on proves that no row matches.
pub open spec fn any_proves(s: Server, args: Vec<Clause>, i: int, rows: Seq<ColModel>) -> bool
    decreases args, args@.len() - i,
{
    0 <= i < args@.len() && (clause_proves(s, args@[i], rows) || any_proves(s, args, i + 1, rows))
}

/// Whether every clause from the `i`-th on proves that no row matches.
pub open spec fn all_prove(s: Server, args: Vec<Clause>, i: int, rows: Seq<ColModel>) -> bool
    decreases args, args@.len() - i,
{
    0 <= i < args@.len() ==> clause_proves(s, args@[i], rows) && all_prove(s, args, i + 1, rows)
}

/// Whether a relation is pruned: it has a summary, and some restriction clause proves that no
/// row matches.
pub open spec fn relation_pruned(s: Server, clauses: Vec<Clause>, rows: Seq<ColModel>) -> bool {
    rows.len() > 0 && any_proves(s, clauses, 0, rows)
}

// ---- facts that agree with a server ----------------------------------------------

/// What is known for the extraction is what the server says of the operator and the constant.
pub open spec fn op_facts_agree(s: Server, opno: u32, args: Seq<Operand>, f: ExtractFacts) -> bool {
    column_and_const(args) matches Some(c) ==> {
        &&& f.strategy matches Some(x) ==> x == (s.strategy)(opno, c.vartype)
        &&& f.operator_name matches Some(x) ==> opt_text(x) == (s.operator_name)(opno)
        &&& f.text matches Some(x) ==> opt_text(x) == (s.render)(c.consttype, c.value)
        &&& f.sql_type matches Some(x) ==> opt_text(x) == (s.sql_type)(c.consttype)
        &&& f.elems matches Some(x) ==> elements_model(x) == (s.elements)(c.consttype, c.value)
    }
}

pub open spec fn extract_agrees(s: Server, expr: LeafExpr, f: ExtractFacts) -> bool {
    match expr {
        LeafExpr::Op { opno, args, .. } => op_facts_agree(s, opno, args@, f),
        LeafExpr::ScalarArrayOp { opno, args, .. } => op_facts_agree(s, opno, args@, f),
        _ => true,
    }
}

/// Procedure and bounds are what the server says.
pub open spec fn range_agrees(s: Server, row: ColModel, typ: u32, f: EvalFacts) -> bool {
    &&& f.proc matches Some(x) ==> x == (s.compare_proc)(typ)
    &&& f.min matches Some(x) ==> row.min matches Some(lo) && x == (s.parse)(typ, lo)
    &&& f.max matches Some(x) ==> row.max matches Some(hi) && x == (s.parse)(typ, hi)
}

/// The first comparison that a strategy needs.
pub open spec fn first_comparison(
    s: Server,
    strategy: i16,
    proc: u32,
    collation: u32,
    k: u64,
    a: u64,
    b: u64,
) -> i32 {
    if strategy <= 2 {
        (s.compare)(proc, collation, a, k)
    } else if strategy == 3 {
        (s.compare)(proc, collation, k, a)
    } else {
        (s.compare)(proc, collation, b, k)
    }
}

/// What is known for the evaluation is what the server says. Of a list, the elements passed over
/// cannot match.
pub open spec fn eval_agrees(s: Server, q: QualModel, row: ColModel, f: EvalFacts) -> bool {
    match q {
        QualModel::Null { .. } => true,
        QualModel::Compare { strategy, typ, collation, other, value, const_text, .. } => {
            let konst = read_constant(s, typ, collation, other, value, const_text);
            &&& range_agrees(s, row, typ, f)
            &&& f.cross matches Some(x) ==> x == (s.cross_proc)(typ, other)
            &&& f.konst matches Some(x) ==> x == (s.parse)(typ, const_text)
            &&& f.same matches Some(x) ==> (s.cross_proc)(typ, other) matches Some(cross)
                && (s.parse)(typ, const_text) matches Some(k) && x == (s.compare)(
                cross,
                collation,
                k,
                value,
            )
            &&& f.first matches Some(x) ==> range_values(s, row, typ) matches Some((proc, a, b))
                && konst matches Some(k) && x == first_comparison(
                s,
                strategy,
                proc,
                collation,
                k,
                a,
                b,
            )
            &&& f.second matches Some(x) ==> range_values(s, row, typ) matches Some((proc, a, b))
                && konst matches Some(k) && x == (s.compare)(proc, collation, k, b)
            &&& f.same is None ==> f.first is None
            &&& f.first is None ==> f.second is None
        },
        QualModel::InList { typ, collation, elem_type, elems, .. } => {
            &&& range_agrees(s, row, typ, f)
            &&& f.cross matches Some(x) ==> x == (s.cross_proc)(typ, elem_type)
            &&& f.next <= elems.len()
            &&& f.next > 0 || f.konst is Some ==> range_values(s, row, typ) is Some && (
            s.cross_proc)(typ, elem_type) is Some
            &&& f.konst matches Some(x) ==> {
                &&& f.next < elems.len()
                &&& elems[f.next as int] matches Some((_, t)) && x == (s.parse)(typ, t)
            }
            &&& f.same matches Some(x) ==> {
                &&& (s.cross_proc)(typ, elem_type) matches Some(cross) && f.konst matches Some(
                    Some(d),
                ) && elems[f.next as int] matches Some((value, _)) && x == (s.compare)(
                    cross,
                    collation,
                    d,
                    value,
                )
            }
            &&& f.first matches Some(x) ==> range_values(s, row, typ) matches Some((proc, a, b))
                && f.konst matches Some(Some(d)) && f.same == Some(0i32) && x == (s.compare)(
                proc,
                collation,
                d,
                a,
            )
            &&& f.second matches Some(x) ==> range_values(s, row, typ) matches Some((proc, a, b))
                && f.konst matches Some(Some(d)) && x == (s.compare)(proc, collation, d, b)
            &&& f.same is None ==> f.first is None
            &&& f.first is None ==> f.second is None
            &&& range_values(s, row, typ) matches Some((proc, a, b)) ==> forall|i: int|
                0 <= i < f.next ==> elem_refuted(
                    s,
                    typ,
                    collation,
                    elem_type,
                    #[trigger] elems[i],
                    proc,
                    a,
                    b,
                )
        },
        QualModel::Overlap { const_text, const_type, .. } => f.disjoint matches Some(x)
            ==> row.min matches Some(extent) && x == (s.select_bool)(
            disjoint_statement(extent, row.sql_type, const_text, const_type),
        ),
    }
}

/// A run whose facts all came from the server.
pub open spec fn run_agrees(s: Server, expr: LeafExpr, rows: Seq<ColModel>, run: LeafRun) -> bool {
    &&& extract_agrees(s, expr, run.extract)
    &&& run.belongs(expr, rows)
    &&& match run.qual {
        Some((q, row)) => eval_agrees(s, q@, rows[row as int], run.eval),
        None => run.eval == EvalFacts::nothing(),
    }
}

proof fn lemma_extraction(s: Server, expr: LeafExpr, f: ExtractFacts)
    requires
        extract_agrees(s, expr, f),
    ensures
        extraction(expr, f) matches ExtractionModel::Found(q) ==> q == found_qual(s, expr),
{
    if let LeafExpr::ScalarArrayOp { opno, inputcollid, use_or, args } = expr {
        if let Some(Some(v)) = f.elems {
            let es = elem_models(v.elems@);
            let elems = v.elems@;
            assert(all_rendered(elems) == have_texts(es)) by {
                if all_rendered(elems) {
                    assert forall|i: int| 0 <= i < es.len() implies has_text(#[trigger] es[i]) by {
                        assert(elems[i].is_null || elems[i].text is Some);
                    }
                }
                if have_texts(es) {
                    assert forall|i: int| 0 <= i < elems.len() implies (#[trigger] elems[i]).is_null
                        || elems[i].text is Some by {
                        assert(has_text(es[i]));
                    }
                }
            }
            assert(elem_texts(elems) =~= flattened(es));
        }
    }
}

proof fn lemma_elements(s: Server, q: QualModel, row: ColModel, f: EvalFacts)
    requires
        eval_agrees(s, q, row, f),
        q matches QualModel::InList { typ, elem_type, elems, .. } && {
            &&& elems.len() <= usize::MAX
            &&& range_values(s, row, typ) is Some
            &&& (s.cross_proc)(typ, elem_type) is Some
        },
    ensures
        q matches QualModel::InList { typ, collation, elem_type, elems, .. } && {
            let (proc, a, b) = range_values(s, row, typ)->0;
            let cross = (s.cross_proc)(typ, elem_type)->0;
            let (after, outcome) = elements_evaluation(
                typ,
                collation,
                elems,
                proc,
                cross,
                a,
                b,
                f,
            );
            &&& eval_agrees(s, q, row, after)
            &&& outcome matches EvaluationModel::Verdict(v) ==> v == list_refuted(
                s,
                typ,
                collation,
                elem_type,
                elems,
                proc,
                a,
                b,
            )
        },
    decreases (q->InList_elems).len() - f.next,
{
    if let QualModel::InList { typ, collation, elem_type, elems, .. } = q {
        let (proc, a, b) = range_values(s, row, typ)->0;
        let cross = (s.cross_proc)(typ, elem_type)->0;
        if f.next < elems.len() {
            let e = elems[f.next as int];
            let passes = match e {
                None => true,
                Some(_) => match (f.konst, f.first, f.second) {
                    (Some(Some(_)), Some(c), second) => c < 0 || (second matches Some(x) && x > 0),
                    _ => false,
                },
            };
            if passes {
                assert(elem_refuted(s, typ, collation, elem_type, e, proc, a, b));
                lemma_elements(s, q, row, f.advanced());
            } else if elements_evaluation(typ, collation, elems, proc, cross, a, b, f).1
                is Verdict {
                assert(!elem_refuted(s, typ, collation, elem_type, e, proc, a, b));
            }
        }
    }
}

/// One step of the evaluation of a clause keeps agreement, and a verdict is the server's.
proof fn lemma_qual(s: Server, q: QualModel, row: ColModel, f: EvalFacts)
    requires
        eval_agrees(s, q, row, f),
        q matches QualModel::Compare { strategy, .. } ==> 1 <= strategy <= 5,
        q matches QualModel::InList { elems, .. } ==> elems.len() <= usize::MAX,
    ensures
        ({
            let (after, outcome) = qual_evaluation(q, row, f);
            &&& eval_agrees(s, q, row, after)
            &&& outcome matches EvaluationModel::Verdict(b) ==> b == qual_proves(s, q, row)
        }),
{
    if let QualModel::InList { typ, elem_type, .. } = q {
        if range_values(s, row, typ) is Some && (s.cross_proc)(typ, elem_type) is Some {
            lemma_elements(s, q, row, f);
        }
    }
}

/// A clause that was found is one of the five comparisons, or has a list that fits in memory.
proof fn lemma_found(expr: LeafExpr, f: ExtractFacts)
    ensures
        extraction(expr, f) matches ExtractionModel::Found(Some(q)) ==> {
            &&& q matches QualModel::Compare { strategy, .. } ==> 1 <= strategy <= 5
            &&& q matches QualModel::InList { elems, .. } ==> elems.len() <= usize::MAX
        },
{
    if let Some(Some(v)) = f.elems {
        assert(v.elems@.len() == v.elems.len());
    }
}

proof fn lemma_advance(
    s: Server,
    expr: LeafExpr,
    rows: Seq<ColModel>,
    before: LeafRun,
    after: LeafRun,
    outcome: EvaluationModel,
)
    requires
        run_agrees(s, expr, rows, before),
        leaf_advanced(expr, rows, before, after, outcome),
    ensures
        run_agrees(s, expr, rows, after),
        outcome matches EvaluationModel::Verdict(b) ==> b == leaf_proves(s, expr, rows),
        outcome is Ask && after.qual is None ==> extraction(expr, after.extract) is Ask,
        after.qual matches Some((q, row)) ==> qual_evaluation(
            q@,
            rows[row as int],
            if before.qual is Some {
                before.eval
            } else {
                EvalFacts::nothing()
            },
        ) == (after.eval, outcome),
{
    lemma_extraction(s, expr, before.extract);
    lemma_found(expr, before.extract);
    match extraction(expr, before.extract) {
        ExtractionModel::Found(Some(q)) => {
            let i = position(rows, qual_attnum(q));
            lemma_position_bounds(rows, qual_attnum(q));
            if i < rows.len() {
                lemma_qual(s, q, rows[i], before.eval);
            }
        },
        _ => {},
    }
}

proof fn lemma_position_bounds(rows: Seq<ColModel>, attnum: i16)
    ensures
        0 <= position(rows, attnum) <= rows.len(),
        position(rows, attnum) < rows.len() ==> rows[position(rows, attnum)].attnum == attnum,
    decreases rows.len(),
{
    if rows.len() > 0 && rows[0].attnum != attnum {
        lemma_position_bounds(rows.skip(1), attnum);
    }
}

/// A question on a list is about the element that the facts stand at.
proof fn lemma_elements_ask(
    typ: u32,
    collation: u32,
    elems: Seq<Option<(u64, Seq<char>)>>,
    proc: u32,
    cross: u32,
    a: u64,
    b: u64,
    f: EvalFacts,
)
    ensures
        ({
            let (after, outcome) = elements_evaluation(typ, collation, elems, proc, cross, a, b, f);
            outcome matches EvaluationModel::Ask(q) ==> {
                &&& after.next < elems.len()
                &&& elems[after.next as int] matches Some((value, t)) && match after.konst {
                    None => q == (QuestionModel::ParseConst { typ, text: t }),
                    Some(Some(d)) => match (after.same, after.first, after.second) {
                        (None, _, _) => outcome == comparison(cross, collation, d, value),
                        (Some(c), None, _) => c == 0 && outcome == comparison(
                            proc,
                            collation,
                            d,
                            a,
                        ),
                        (Some(_), Some(_), None) => outcome == comparison(proc, collation, d, b),
                        _ => false,
                    },
                    Some(None) => false,
                }
                &&& f.next <= after.next
                &&& after.next == f.next ==> after == f
                &&& after.next > f.next ==> after.konst is None && after.same is None
                    && after.first is None && after.second is None
                &&& after.proc == f.proc && after.cross == f.cross && after.min == f.min
                    && after.max == f.max && after.disjoint == f.disjoint
            }
        }),
    decreases elems.len() - f.next,
{
    if f.next < elems.len() && f.next < usize::MAX {
        lemma_elements_ask(typ, collation, elems, proc, cross, a, b, f.advanced());
    }
}

/// The evaluation of a clause that notes the server's answer still agrees with the server.
proof fn lemma_qual_learns(
    s: Server,
    q: QualModel,
    row: ColModel,
    f: EvalFacts,
    run: LeafRun,
    asked: QuestionModel,
    a: Answer,
)
    requires
        eval_agrees(s, q, row, f),
        q matches QualModel::Compare { strategy, .. } ==> 1 <= strategy <= 5,
        q matches QualModel::InList { elems, .. } ==> elems.len() <= usize::MAX,
        qual_evaluation(q, row, f) == (run.eval, EvaluationModel::Ask(asked)),
        answers(s, asked, a),
    ensures
        eval_agrees(s, q, row, leaf_learned(run, a).eval),
        leaf_learned(run, a).extract == run.extract,
        leaf_learned(run, a).qual == run.qual,
{
    lemma_qual(s, q, row, f);
    match q {
        QualModel::InList { typ, collation, elems, .. } => {
            match (f.proc, f.cross, f.min, f.max) {
                (Some(Some(proc)), Some(Some(cross)), Some(Some(a0)), Some(Some(b0))) => {
                    lemma_elements_ask(typ, collation, elems, proc, cross, a0, b0, f);
                },
                _ => {},
            }
        },
        _ => {},
    }
}

/// A decision not begun agrees with every server.
pub proof fn law_new_runs_agree(s: Server, expr: LeafExpr, rows: Seq<ColModel>, run: LeafRun)
    requires
        run.qual is None,
        run.eval == EvalFacts::nothing(),
        run.extract.strategy is None,
        run.extract.operator_name is None,
        run.extract.text is None,
        run.extract.sql_type is None,
        run.extract.elems is None,
    ensures
        run_agrees(s, expr, rows, run),
{
}

/// A verdict that was reached on a server's answers is the one that the server's answers
/// determine: in which steps it was reached does not matter. A run that only goes on still agrees
/// with the server.
pub proof fn law_verdicts_are_the_servers(
    s: Server,
    expr: LeafExpr,
    rows: Seq<ColModel>,
    before: LeafRun,
    after: LeafRun,
    outcome: EvaluationModel,
)
    requires
        run_agrees(s, expr, rows, before),
        leaf_advanced(expr, rows, before, after, outcome),
    ensures
        outcome matches EvaluationModel::Verdict(b) ==> b == leaf_proves(s, expr, rows),
        run_agrees(s, expr, rows, after),
{
    lemma_advance(s, expr, rows, before, after, outcome);
}

/// A run that notes the server's answer to the question it asked still agrees with the server.
pub proof fn law_answers_keep_agreement(
    s: Server,
    expr: LeafExpr,
    rows: Seq<ColModel>,
    before: LeafRun,
    after: LeafRun,
    q: QuestionModel,
    a: Answer,
)
    requires
        run_agrees(s, expr, rows, before),
        leaf_advanced(expr, rows, before, after, EvaluationModel::Ask(q)),
        answers(s, q, a),
    ensures
        run_agrees(s, expr, rows, leaf_learned(after, a)),
{
    lemma_advance(s, expr, rows, before, after, EvaluationModel::Ask(q));
    lemma_found(expr, before.extract);
    if let Some((qual, row)) = after.qual {
        lemma_qual_learns(s, qual@, rows[row as int], before.eval, after, q, a);
    }
}

pub open spec fn missing<T>(fact: Option<T>) -> int {
    if fact is None {
        1
    } else {
        0
    }
}

/// How many questions an extraction can still ask.
pub open spec fn extract_questions(f: ExtractFacts) -> int {
    missing(f.strategy) + missing(f.operator_name) + missing(f.text) + missing(f.sql_type)
        + missing(f.elems)
}

/// How many questions an evaluation can still ask: four for each constant, and those about the
/// summary.
pub open spec fn eval_questions(q: QualModel, f: EvalFacts) -> int {
    let constants = match q {
        QualModel::InList { elems, .. } => elems.len() - f.next,
        _ => 1,
    };
    missing(f.proc) + missing(f.cross) + missing(f.min) + missing(f.max) + missing(f.disjoint)
        + 4 * constants - 4 + missing(f.konst) + missing(f.same) + missing(f.first)
        + missing(f.second)
}

/// `after` is closer to a verdict than `before`: fewer questions are left for the extraction, or
/// as many but the clause is found, or it was found and fewer are left for the evaluation.
pub open spec fn closer(before: LeafRun, after: LeafRun) -> bool {
    let x = extract_questions(before.extract);
    let y = extract_questions(after.extract);
    y < x || y == x && match (before.qual, after.qual) {
        (None, Some(_)) => true,
        (Some((p, _)), Some((q, _))) => eval_questions(q@, after.eval) < eval_questions(
            p@,
            before.eval,
        ),
        _ => false,
    }
}

proof fn lemma_questions_left(s: Server, q: QualModel, row: ColModel, f: EvalFacts)
    requires
        eval_agrees(s, q, row, f),
    ensures
        eval_questions(q, f) >= 0,
{
}

/// A comparison that asks and is answered has fewer questions left.
#[verifier::spinoff_prover]
proof fn lemma_fewer_for_compare(
    s: Server,
    q: QualModel,
    row: ColModel,
    f: EvalFacts,
    run: LeafRun,
    asked: QuestionModel,
    a: Answer,
)
    requires
        q is Compare,
        eval_agrees(s, q, row, f),
        qual_evaluation(q, row, f) == (run.eval, EvaluationModel::Ask(asked)),
        answers(s, asked, a),
    ensures
        eval_questions(q, leaf_learned(run, a).eval) < eval_questions(q, f),
{
}

/// A list that asks and is answered has fewer questions left.
#[verifier::spinoff_prover]
proof fn lemma_fewer_for_list(
    s: Server,
    q: QualModel,
    row: ColModel,
    f: EvalFacts,
    run: LeafRun,
    asked: QuestionModel,
    a: Answer,
)
    requires
        q is InList,
        eval_agrees(s, q, row, f),
        qual_evaluation(q, row, f) == (run.eval, EvaluationModel::Ask(asked)),
        answers(s, asked, a),
    ensures
        eval_questions(q, leaf_learned(run, a).eval) < eval_questions(q, f),
{
    if let QualModel::InList { typ, collation, elems, .. } = q {
        match (f.proc, f.cross, f.min, f.max) {
            (Some(Some(proc)), Some(Some(cross)), Some(Some(a0)), Some(Some(b0))) => {
                lemma_elements_ask(typ, collation, elems, proc, cross, a0, b0, f);
            },
            _ => {},
        }
    }
}

/// An evaluation that asks and is answered has fewer questions left.
proof fn lemma_fewer_questions(
    s: Server,
    q: QualModel,
    row: ColModel,
    f: EvalFacts,
    run: LeafRun,
    asked: QuestionModel,
    a: Answer,
)
    requires
        eval_agrees(s, q, row, f),
        qual_evaluation(q, row, f) == (run.eval, EvaluationModel::Ask(asked)),
        answers(s, asked, a),
    ensures
        eval_questions(q, leaf_learned(run, a).eval) < eval_questions(q, f),
{
    match q {
        QualModel::Compare { .. } => lemma_fewer_for_compare(s, q, row, f, run, asked, a),
        QualModel::InList { .. } => lemma_fewer_for_list(s, q, row, f, run, asked, a),
        QualModel::Overlap { .. } => {},
        QualModel::Null { .. } => {},
    }
}

/// The decision on a leaf ends: every question that is asked and answered brings it closer to a
/// verdict, and it never has less than no questions left.
pub proof fn law_questions_run_out(
    s: Server,
    expr: LeafExpr,
    rows: Seq<ColModel>,
    before: LeafRun,
    after: LeafRun,
    q: QuestionModel,
    a: Answer,
)
    requires
        run_agrees(s, expr, rows, before),
        leaf_advanced(expr, rows, before, after, EvaluationModel::Ask(q)),
        answers(s, q, a),
    ensures
        closer(before, leaf_learned(after, a)),
        before.qual matches Some((p, _)) ==> eval_questions(p@, before.eval) >= 0,
{
    lemma_advance(s, expr, rows, before, after, EvaluationModel::Ask(q));
    lemma_found(expr, before.extract);
    if let Some((qual, row)) = after.qual {
        lemma_qual_learns(s, qual@, rows[row as int], before.eval, after, q, a);
        lemma_fewer_questions(s, qual@, rows[row as int], before.eval, after, q, a);
    }
    if let Some((qual, row)) = before.qual {
        lemma_questions_left(s, qual@, rows[row as int], before.eval);
    }
}

/// The walk over a list stands still where it asks.
proof fn lemma_elements_again(
    typ: u32,
    collation: u32,
    elems: Seq<Option<(u64, Seq<char>)>>,
    proc: u32,
    cross: u32,
    a: u64,
    b: u64,
    f: EvalFacts,
)
    ensures
        ({
            let (after, outcome) = elements_evaluation(typ, collation, elems, proc, cross, a, b, f);
            outcome is Ask ==> elements_evaluation(
                typ,
                collation,
                elems,
                proc,
                cross,
                a,
                b,
                after,
            ) == (after, outcome)
        }),
    decreases elems.len() - f.next,
{
    if f.next < elems.len() && f.next < usize::MAX {
        lemma_elements_again(typ, collation, elems, proc, cross, a, b, f.advanced());
    }
}

/// A decision that is taken up again without an answer asks the same question: where a leaf stands,
/// the question that it asked is the one that its own evaluation asks.
pub proof fn law_unanswered_questions_are_asked_again(
    expr: LeafExpr,
    rows: Seq<ColModel>,
    before: LeafRun,
    after: LeafRun,
    q: QuestionModel,
)
    requires
        leaf_advanced(expr, rows, before, after, EvaluationModel::Ask(q)),
    ensures
        leaf_evaluation(expr, rows, after) == (after.eval, EvaluationModel::Ask(q)),
{
    if let Some((qual, _)) = after.qual {
        let f = before.eval;
        if let QualModel::InList { typ, collation, elems, .. } = qual@ {
            match (f.proc, f.cross, f.min, f.max) {
                (Some(Some(proc)), Some(Some(cross)), Some(Some(a0)), Some(Some(b0))) => {
                    lemma_elements_ask(typ, collation, elems, proc, cross, a0, b0, f);
                    lemma_elements_again(typ, collation, elems, proc, cross, a0, b0, f);
                },
                _ => {},
            }
        }
    }
}

/// Every leaf of a clause has the expression that its number stands for.
pub open spec fn numbered(clause: Clause, exprs: spec_fn(usize) -> LeafExpr) -> bool
    decreases clause, 0int,
{
    match clause {
        Clause::Leaf(leaf) => leaf.expr == exprs(leaf.id),
        Clause::Bool { args, .. } => all_numbered(args, 0, exprs),
    }
}

/// The same for every clause from the `i`-th on.
pub open spec fn all_numbered(args: Vec<Clause>, i: int, exprs: spec_fn(usize) -> LeafExpr) -> bool
    decreases args, args@.len() - i,
{
    0 <= i < args@.len() ==> numbered(args@[i], exprs) && all_numbered(args, i + 1, exprs)
}

/// The verdicts are the server's.
pub open spec fn verdicts_agree(
    s: Server,
    exprs: spec_fn(usize) -> LeafExpr,
    rows: Seq<ColModel>,
    known: Seq<Option<bool>>,
) -> bool {
    forall|id: usize| #[trigger]
        verdict(known, id) matches Some(b) ==> b == leaf_proves(s, exprs(id), rows)
}

proof fn lemma_clause_decision(
    s: Server,
    clause: Clause,
    exprs: spec_fn(usize) -> LeafExpr,
    rows: Seq<ColModel>,
    known: Seq<Option<bool>>,
)
    requires
        numbered(clause, exprs),
        verdicts_agree(s, exprs, rows, known),
    ensures
        clause_walk(clause, known) matches WalkModel::Decided(b) ==> b == clause_proves(
            s,
            clause,
            rows,
        ),
        clause_walk(clause, known) matches WalkModel::Pending(leaf) ==> verdict(
            known,
            leaf.id,
        ) is None && leaf.expr == exprs(leaf.id),
    decreases clause, 0int,
{
    match clause {
        Clause::Leaf(leaf) => {
            assert(verdict(known, leaf.id) is Some || verdict(known, leaf.id) is None);
        },
        Clause::Bool { op, args } => {
            lemma_any_decision(s, args, 0, exprs, rows, known);
            lemma_all_decision(s, args, 0, exprs, rows, known);
        },
    }
}

proof fn lemma_any_decision(
    s: Server,
    args: Vec<Clause>,
    i: int,
    exprs: spec_fn(usize) -> LeafExpr,
    rows: Seq<ColModel>,
    known: Seq<Option<bool>>,
)
    requires
        all_numbered(args, i, exprs),
        verdicts_agree(s, exprs, rows, known),
    ensures
        any_walk(args, i, known) matches WalkModel::Decided(b) ==> b == any_proves(
            s,
            args,
            i,
            rows,
        ),
        any_walk(args, i, known) matches WalkModel::Pending(leaf) ==> verdict(
            known,
            leaf.id,
        ) is None && leaf.expr == exprs(leaf.id),
    decreases args, args@.len() - i,
{
    if 0 <= i < args@.len() {
        lemma_clause_decision(s, args@[i], exprs, rows, known);
        lemma_any_decision(s, args, i + 1, exprs, rows, known);
    }
}

proof fn lemma_all_decision(
    s: Server,
    args: Vec<Clause>,
    i: int,
    exprs: spec_fn(usize) -> LeafExpr,
    rows: Seq<ColModel>,
    known: Seq<Option<bool>>,
)
    requires
        all_numbered(args, i, exprs),
        verdicts_agree(s, exprs, rows, known),
    ensures
        all_walk(args, i, known) matches WalkModel::Decided(b) ==> b == all_prove(
            s,
            args,
            i,
            rows,
        ),
        all_walk(args, i, known) matches WalkModel::Pending(leaf) ==> verdict(
            known,
            leaf.id,
        ) is None && leaf.expr == exprs(leaf.id),
    decreases args, args@.len() - i,
{
    if 0 <= i < args@.len() {
        lemma_clause_decision(s, args@[i], exprs, rows, known);
        lemma_all_decision(s, args, i + 1, exprs, rows, known);
    }
}

/// A decision on a relation is the one that the server's answers determine, whatever leaves got
/// a verdict on the way to it; and a leaf that holds the decision up has no verdict yet.
pub proof fn law_decisions_are_the_servers(
    s: Server,
    clauses: Vec<Clause>,
    exprs: spec_fn(usize) -> LeafExpr,
    rows: Seq<ColModel>,
    known: Seq<Option<bool>>,
)
    requires
        all_numbered(clauses, 0, exprs),
        verdicts_agree(s, exprs, rows, known),
    ensures
        relation_walk(clauses, rows, known) matches WalkModel::Decided(b) ==> b == relation_pruned(
            s,
            clauses,
            rows,
        ),
        relation_walk(clauses, rows, known) matches WalkModel::Pending(leaf) ==> verdict(
            known,
            leaf.id,
        ) is None && leaf.expr == exprs(leaf.id),
{
    lemma_any_decision(s, clauses, 0, exprs, rows, known);
}

/// Noting the server's verdict on a leaf keeps the verdicts the server's.
pub proof fn law_verdicts_stay_the_servers(
    s: Server,
    exprs: spec_fn(usize) -> LeafExpr,
    rows: Seq<ColModel>,
    known: Seq<Option<bool>>,
    id: usize,
)
    requires
        verdicts_agree(s, exprs, rows, known),
        id < known.len(),
    ensures
        verdicts_agree(
            s,
            exprs,
            rows,
            known.update(id as int, Some(leaf_proves(s, exprs(id), rows))),
        ),
{
    let after = known.update(id as int, Some(leaf_proves(s, exprs(id), rows)));
    assert forall|other: usize|
        (#[trigger] verdict(after, other) matches Some(b) ==> b == leaf_proves(
            s,
            exprs(other),
            rows,
        )) by {
        if other != id {
            assert(verdict(after, other) == verdict(known, other));
        }
    }
}

// ---- what a planner invocation remembers -----------------------------------------

/// What a planner invocation remembers of strategies, comparison procedures and constants is what
/// the server says.
pub open spec fn memory_agrees(s: Server, m: PlanModel) -> bool {
    &&& forall|k: (u32, u32)| #[trigger]
        m.strategies.contains_key(k) ==> m.strategies[k] == (s.strategy)(k.0, k.1)
    &&& forall|k: (u32, u32)| #[trigger]
        m.cross_procs.contains_key(k) ==> m.cross_procs[k] == (s.cross_proc)(k.0, k.1)
    &&& forall|typ: u32| #[trigger]
        m.compare_procs.contains_key(typ) ==> m.compare_procs[typ] == (s.compare_proc)(typ)
    &&& forall|k: (u32, Seq<char>)| #[trigger]
        m.constants.contains_key(k) ==> (s.parse)(k.0, k.1) == Some(m.constants[k])
}

/// A remembered answer is the server's own: planning begins with nothing remembered, keeps only
/// the server's answers, and gives back what it kept.
pub proof fn law_remembered_answers_are_the_servers(
    s: Server,
    m: PlanModel,
    q: QuestionModel,
    a: Answer,
)
    requires
        memory_agrees(s, m),
    ensures
        memory_agrees(s, PlanModel::empty()),
        memory_agrees(s, m.entered()),
        memory_agrees(s, m.left()),
        answers(s, q, a) ==> memory_agrees(s, answer_kept(m, q, a)),
        remembered_answer(m, q) matches Some(known) ==> answers(s, q, known),
{
}

// ---- how clauses compose ---------------------------------------------------------

proof fn lemma_any_proves(s: Server, args: Vec<Clause>, i: int, rows: Seq<ColModel>)
    requires
        0 <= i <= args@.len(),
    ensures
        any_proves(s, args, i, rows) <==> exists|k: int|
            i <= k < args@.len() && clause_proves(s, #[trigger] args@[k], rows),
    decreases args@.len() - i,
{
    if i < args@.len() {
        lemma_any_proves(s, args, i + 1, rows);
        if any_proves(s, args, i, rows) {
            if clause_proves(s, args@[i], rows) {
                assert(i <= i < args@.len());
            } else {
                let k = choose|k: int|
                    i + 1 <= k < args@.len() && clause_proves(
                        s,
                        #[trigger] args@[k],
                        rows,
                    );
                assert(i <= k < args@.len());
            }
        }
    }
}

proof fn lemma_all_prove(s: Server, args: Vec<Clause>, i: int, rows: Seq<ColModel>)
    requires
        0 <= i <= args@.len(),
    ensures
        all_prove(s, args, i, rows) <==> forall|k: int|
            i <= k < args@.len() ==> clause_proves(s, #[trigger] args@[k], rows),
    decreases args@.len() - i,
{
    if i < args@.len() {
        lemma_all_prove(s, args, i + 1, rows);
        if all_prove(s, args, i, rows) {
            assert forall|k: int| i <= k < args@.len() implies clause_proves(
                s,
                #[trigger] args@[k],
                rows,
            ) by {
                if k > i {
                    assert(i + 1 <= k);
                }
            }
        } else {
            if clause_proves(s, args@[i], rows) {
                let k = choose|k: int|
                    i + 1 <= k < args@.len() && !clause_proves(
                        s,
                        #[trigger] args@[k],
                        rows,
                    );
                assert(i <= k < args@.len());
            }
        }
    }
}

/// A conjunction prunes exactly where any of its parts does, however deeply the parts are nested.
pub proof fn law_conjunctions_prune_by_any_part(
    s: Server,
    args: Vec<Clause>,
    rows: Seq<ColModel>,
)
    ensures
        clause_proves(s, Clause::Bool { op: BoolOp::And, args }, rows) <==> exists|k: int|
            0 <= k < args@.len() && clause_proves(s, #[trigger] args@[k], rows),
{
    lemma_any_proves(s, args, 0, rows);
}

/// A disjunction prunes exactly where it has parts and every one of them does, however deeply the
/// parts are nested.
pub proof fn law_disjunctions_prune_by_every_part(
    s: Server,
    args: Vec<Clause>,
    rows: Seq<ColModel>,
)
    ensures
        clause_proves(s, Clause::Bool { op: BoolOp::Or, args }, rows) <==> args@.len() > 0
            && forall|k: int|
            0 <= k < args@.len() ==> clause_proves(s, #[trigger] args@[k], rows),
{
    lemma_all_prove(s, args, 0, rows);
}

/// The restriction clauses of a relation are implicitly a conjunction: any one of them can prune
/// it.
pub proof fn law_relations_are_pruned_by_any_clause(
    s: Server,
    clauses: Vec<Clause>,
    rows: Seq<ColModel>,
)
    ensures
        relation_pruned(s, clauses, rows) <==> rows.len() > 0 && exists|k: int|
            0 <= k < clauses@.len() && clause_proves(s, #[trigger] clauses@[k], rows),
{
    lemma_any_proves(s, clauses, 0, rows);
}

/// Negations, expressions of other shapes, array clauses with `ALL`, null tests made field by field
/// and comparisons under a collation that is not the column's prune nothing.
pub proof fn law_everything_else_is_kept(
    s: Server,
    clause: Clause,
    rows: Seq<ColModel>,
)
    requires
        ({
            ||| clause matches Clause::Bool { op: BoolOp::Not, .. }
            ||| clause matches Clause::Leaf(leaf) && leaf.expr is Other
            ||| clause matches Clause::Leaf(leaf) && leaf.expr matches LeafExpr::ScalarArrayOp {
                use_or: false,
                ..
            }
            ||| clause matches Clause::Leaf(leaf) && leaf.expr matches LeafExpr::NullTest {
                arg_is_row: true,
                ..
            }
            ||| clause matches Clause::Leaf(leaf) && leaf.expr matches LeafExpr::Op {
                opno,
                inputcollid,
                args,
            } && column_and_const(args@) matches Some(c) && (s.strategy)(opno, c.vartype) is Some
                && inputcollid != c.collation
            ||| clause matches Clause::Leaf(leaf) && leaf.expr matches LeafExpr::ScalarArrayOp {
                inputcollid,
                args,
                ..
            } && column_and_const(args@) matches Some(c) && inputcollid != c.collation
        }),
    ensures
        !clause_proves(s, clause, rows),
{
}

/// A relation without a summary is never pruned, nor one without restriction clauses.
pub proof fn law_without_summary_nothing_is_pruned(
    s: Server,
    clauses: Vec<Clause>,
    rows: Seq<ColModel>,
)
    requires
        rows.len() == 0 || clauses@.len() == 0,
    ensures
        !relation_pruned(s, clauses, rows),
{
}

// ---- what clauses mean -----------------------------------------------------------

/// The value a row has in a column, nothing for a null.
pub open spec fn column(row: Map<i16, u64>, attnum: i16) -> Option<u64> {
    if row.contains_key(attnum) {
        Some(row[attnum])
    } else {
        None
    }
}

/// The value that an operand has in a row, nothing inside where it is null. Nothing at all is known
/// of system columns and of expressions of other shapes.
pub open spec fn operand_value(o: Operand, row: Map<i16, u64>) -> Option<Option<u64>>
    decreases o,
{
    match o {
        Operand::Var { attno, .. } => if attno > 0 {
            Some(column(row, attno))
        } else {
            None
        },
        Operand::Const { value, is_null, .. } => Some(
            if is_null {
                None
            } else {
                Some(value)
            },
        ),
        Operand::Relabel { arg, .. } => operand_value(*arg, row),
        Operand::Other => None,
    }
}

/// The type of the elements and the elements of an operand that is an array constant.
pub open spec fn operand_elements(s: Server, o: Operand) -> Option<
    (u32, Seq<Option<(u64, Option<Seq<char>>)>>),
>
    decreases o,
{
    match o {
        Operand::Const { consttype, value, is_null } => if is_null {
            None
        } else {
            (s.elements)(consttype, value)
        },
        Operand::Relabel { arg, .. } => operand_elements(s, *arg),
        _ => None,
    }
}

/// Whether a leaf is true of a row: an operator of its two operands, in their order, where neither
/// is null; a null test of a value as a whole; an operator of its first operand and any element of
/// the array that is the second. The server decides on everything else.
pub open spec fn leaf_true(s: Server, expr: LeafExpr, row: Map<i16, u64>) -> bool {
    match expr {
        LeafExpr::Op { opno, inputcollid, args } => if args@.len() != 2 {
            (s.opaque_leaf)(expr, row)
        } else {
            match (operand_value(args@[0], row), operand_value(args@[1], row)) {
                (Some(Some(x)), Some(Some(y))) => (s.apply)(opno, inputcollid, x, y) == Some(true),
                (Some(_), Some(_)) => false,
                _ => (s.opaque_leaf)(expr, row),
            }
        },
        LeafExpr::NullTest { kind, arg_is_row, arg } => match operand_value(arg, row) {
            Some(x) => if arg_is_row || kind == NullTestKind::Other {
                (s.opaque_leaf)(expr, row)
            } else {
                x is None <==> kind == NullTestKind::IsNull
            },
            None => (s.opaque_leaf)(expr, row),
        },
        LeafExpr::ScalarArrayOp { opno, inputcollid, use_or, args } => if args@.len() != 2
            || !use_or {
            (s.opaque_leaf)(expr, row)
        } else {
            match (operand_value(args@[0], row), operand_elements(s, args@[1])) {
                (Some(Some(x)), Some((_, es))) => any_member(s, opno, inputcollid, x, es),
                (Some(None), Some(_)) => false,
                _ => (s.opaque_leaf)(expr, row),
            }
        },
        LeafExpr::Other => (s.opaque_leaf)(expr, row),
    }
}

/// The operator is true of column value and constant; `flipped` says that the constant stands on
/// the left.
pub open spec fn applied(
    s: Server,
    opno: u32,
    collation: u32,
    flipped: bool,
    v: u64,
    konst: u64,
) -> bool {
    if flipped {
        (s.apply)(opno, collation, konst, v) == Some(true)
    } else {
        (s.apply)(opno, collation, v, konst) == Some(true)
    }
}

/// The operator is true of the value and some element of a list.
pub open spec fn any_member(
    s: Server,
    opno: u32,
    collation: u32,
    v: u64,
    es: Seq<Option<(u64, Option<Seq<char>>)>>,
) -> bool {
    exists|i: int|
        0 <= i < es.len() && (#[trigger] es[i] matches Some((e, _)) && applied(
            s,
            opno,
            collation,
            false,
            v,
            e,
        ))
}

/// Whether a clause is true of a row: a conjunction where all its parts are, a disjunction where
/// one of them is.
pub open spec fn clause_true(s: Server, clause: Clause, row: Map<i16, u64>) -> bool
    decreases clause, 0int,
{
    match clause {
        Clause::Leaf(leaf) => leaf_true(s, leaf.expr, row),
        Clause::Bool { op, args } => match op {
            BoolOp::And => all_true(s, args, 0, row),
            BoolOp::Or => any_true(s, args, 0, row),
            BoolOp::Not => (s.opaque_not)(clause, row),
        },
    }
}

pub open spec fn all_true(s: Server, args: Vec<Clause>, i: int, row: Map<i16, u64>) -> bool
    decreases args, args@.len() - i,
{
    0 <= i < args@.len() ==> clause_true(s, args@[i], row) && all_true(s, args, i + 1, row)
}

pub open spec fn any_true(s: Server, args: Vec<Clause>, i: int, row: Map<i16, u64>) -> bool
    decreases args, args@.len() - i,
{
    0 <= i < args@.len() && (clause_true(s, args@[i], row) || any_true(s, args, i + 1, row))
}

// ---- what is asked of the server -------------------------------------------------

pub open spec fn compared(s: Server, proc: u32, collation: u32, x: u64, y: u64) -> i32 {
    (s.compare)(proc, collation, x, y)
}

/// The comparison procedure orders the values.
pub open spec fn orders(s: Server, proc: u32, collation: u32) -> bool {
    &&& forall|x: u64, y: u64| #[trigger]
        compared(s, proc, collation, x, y) < 0 <==> compared(s, proc, collation, y, x) > 0
    &&& forall|x: u64, y: u64, z: u64|
        #![trigger compared(s, proc, collation, x, y), compared(s, proc, collation, y, z)]
        compared(s, proc, collation, x, y) <= 0 && compared(s, proc, collation, y, z) <= 0
            ==> compared(s, proc, collation, x, z) <= 0
}

/// The meaning of a strategy in terms of a comparison's result.
pub open spec fn strategy_holds(strategy: i16, c: i32) -> bool {
    if strategy == 1 {
        c < 0
    } else if strategy == 2 {
        c <= 0
    } else if strategy == 3 {
        c == 0
    } else if strategy == 4 {
        c >= 0
    } else if strategy == 5 {
        c > 0
    } else {
        false
    }
}

/// A comparison's result with the operands exchanged, by its sign.
pub open spec fn reversed(c: i32) -> i32 {
    if c < 0 {
        1
    } else if c > 0 {
        -1i32
    } else {
        0
    }
}

/// An operator's operands have the types of a column and a constant; `flipped` says that the
/// constant stands on the left.
pub open spec fn takes_operands(
    s: Server,
    opno: u32,
    flipped: bool,
    typ: u32,
    const_type: u32,
) -> bool {
    if flipped {
        (s.takes)(opno, const_type, typ)
    } else {
        (s.takes)(opno, typ, const_type)
    }
}

/// The default comparison procedure of every type orders its values, under every collation.
pub open spec fn procs_order(s: Server) -> bool {
    forall|typ: u32, collation: u32|
        #![trigger (s.compare_proc)(typ), orders(s, (s.compare_proc)(typ)->0, collation)]
        (s.compare_proc)(typ) matches Some(proc) ==> orders(s, proc, collation)
}

/// An operator that has a strategy in a type's operator family is true only where the family's
/// comparison of the two operands has the sign that the strategy says.
pub open spec fn strategies_hold(s: Server) -> bool {
    forall|
        opno: u32,
        typ: u32,
        const_type: u32,
        collation: u32,
        flipped: bool,
        v: u64,
        konst: u64,
    |
        #![trigger takes_operands(s, opno, flipped, typ, const_type), applied(
            s,
            opno,
            collation,
            flipped,
            v,
            konst,
        )]
        takes_operands(s, opno, flipped, typ, const_type) && applied(
            s,
            opno,
            collation,
            flipped,
            v,
            konst,
        ) ==> match ((s.strategy)(opno, typ), (s.cross_proc)(typ, const_type)) {
            (Some(st), Some(cross)) => {
                let c = compared(s, cross, collation, v, konst);
                strategy_holds(
                    st,
                    if flipped {
                        reversed(c)
                    } else {
                        c
                    },
                )
            },
            _ => true,
        }
}

/// Within a type's operator family, equal values compare alike: where a value of the type equals a
/// constant of another, every value of the type compares with the one as with the other.
pub open spec fn equals_compare_alike(s: Server) -> bool {
    forall|typ: u32, const_type: u32, collation: u32, k: u64, konst: u64, v: u64|
        #![trigger (s.cross_proc)(typ, const_type), compared(
            s,
            (s.cross_proc)(typ, const_type)->0,
            collation,
            k,
            konst,
        ), compared(s, (s.cross_proc)(typ, const_type)->0, collation, v, konst)]
        match ((s.compare_proc)(typ), (s.cross_proc)(typ, const_type)) {
            (Some(proc), Some(cross)) => compared(s, cross, collation, k, konst) == 0 ==> reversed(
                compared(s, cross, collation, v, konst),
            ) == reversed(compared(s, proc, collation, v, k)),
            _ => true,
        }
}

/// The server's operator families are what an operator family has to be: one total order over the
/// values of all its types, which its operators and comparison procedures all go by.
pub open spec fn families_order(s: Server) -> bool {
    &&& procs_order(s)
    &&& strategies_hold(s)
    &&& equals_compare_alike(s)
}

/// A value overlaps the constant with this text and this type: some overlap operator is true of the
/// value and such a constant.
pub open spec fn overlaps(s: Server, v: u64, text: Seq<char>, sql_type: Seq<char>) -> bool {
    exists|opno: u32, collation: u32, flipped: bool, typ: u32, konst: u64|
        #![trigger applied(s, opno, collation, flipped, v, konst), (s.render)(typ, konst)]
        {
            &&& (s.operator_name)(opno) == Some("&&"@)
            &&& (s.render)(typ, konst) == Some(text)
            &&& (s.sql_type)(typ) == Some(sql_type)
            &&& applied(s, opno, collation, flipped, v, konst)
        }
}

/// An operand names columns with their types and collations. `columns` gives the type and the
/// collation of each column that is summarised.
pub open spec fn operand_typed(o: Operand, columns: spec_fn(i16) -> Option<(u32, u32)>) -> bool
    decreases o,
{
    match o {
        Operand::Var { attno, vartype, collation } => columns(attno) matches Some(summarised)
            ==> summarised == (vartype, collation),
        Operand::Relabel { arg, .. } => operand_typed(*arg, columns),
        _ => true,
    }
}

/// The types that an operand stands for: its own, and those it is relabelled as.
pub open spec fn stands_for(o: Operand, typ: u32) -> bool
    decreases o,
{
    match o {
        Operand::Var { vartype, .. } => typ == vartype,
        Operand::Const { consttype, .. } => typ == consttype,
        Operand::Relabel { typ: seen, arg } => typ == seen || stands_for(*arg, typ),
        Operand::Other => false,
    }
}

/// An operator takes operands of all the types that two operands stand for.
pub open spec fn takes_both(s: Server, opno: u32, x: Operand, y: Operand) -> bool {
    forall|left: u32, right: u32| #[trigger]
        (s.takes)(opno, left, right) || !(stands_for(x, left) && stands_for(y, right))
}

/// An operator takes an operand of all the types that an operand stands for, and another one of a
/// type.
pub open spec fn takes_elements(s: Server, opno: u32, x: Operand, elem_type: u32) -> bool {
    forall|left: u32| #[trigger] (s.takes)(opno, left, elem_type) || !stands_for(x, left)
}

/// A leaf is well typed: it names columns with their types and collations, and its operator takes
/// operands of the types that it is given.
pub open spec fn leaf_typed(
    s: Server,
    expr: LeafExpr,
    columns: spec_fn(i16) -> Option<(u32, u32)>,
) -> bool {
    match expr {
        LeafExpr::Op { opno, args, .. } => args@.len() == 2 ==> {
            &&& operand_typed(args@[0], columns)
            &&& operand_typed(args@[1], columns)
            &&& takes_both(s, opno, args@[0], args@[1])
        },
        LeafExpr::ScalarArrayOp { opno, args, .. } => args@.len() == 2 ==> {
            &&& operand_typed(args@[0], columns)
            &&& operand_elements(s, args@[1]) matches Some((elem_type, _)) ==> takes_elements(
                s,
                opno,
                args@[0],
                elem_type,
            )
        },
        _ => true,
    }
}

/// Every leaf of a clause is well typed.
pub open spec fn clause_typed(
    s: Server,
    clause: Clause,
    columns: spec_fn(i16) -> Option<(u32, u32)>,
) -> bool
    decreases clause, 0int,
{
    match clause {
        Clause::Leaf(leaf) => leaf_typed(s, leaf.expr, columns),
        Clause::Bool { args, .. } => all_typed(s, args, 0, columns),
    }
}

/// The same for every clause from the `i`-th on.
pub open spec fn all_typed(
    s: Server,
    args: Vec<Clause>,
    i: int,
    columns: spec_fn(i16) -> Option<(u32, u32)>,
) -> bool
    decreases args, args@.len() - i,
{
    0 <= i < args@.len() ==> clause_typed(s, args@[i], columns) && all_typed(
        s,
        args,
        i + 1,
        columns,
    )
}

// ---- what summaries mean ---------------------------------------------------------

/// A value lies between two texts, as far as they can be read.
pub open spec fn between_texts(
    s: Server,
    typ: u32,
    collation: u32,
    lo: Seq<char>,
    hi: Seq<char>,
    v: u64,
) -> bool {
    match ((s.compare_proc)(typ), (s.parse)(typ, lo), (s.parse)(typ, hi)) {
        (Some(proc), Some(a), Some(b)) => {
            &&& compared(s, proc, collation, a, v) <= 0
            &&& compared(s, proc, collation, v, b) <= 0
        },
        _ => true,
    }
}

/// A value lies within a column's bounds, as far as they can be read.
pub open spec fn within(s: Server, col: ColModel, typ: u32, collation: u32, v: u64) -> bool {
    match (col.min, col.max) {
        (Some(lo), Some(hi)) => between_texts(s, typ, collation, lo, hi, v),
        _ => true,
    }
}

/// A text as an SQL literal.
pub open spec fn literal(t: Seq<char>) -> Seq<char> {
    quoted(t, '\'')
}

/// The statement that selects whether an extent is disjoint from a constant, by the overlap
/// operator.
pub open spec fn disjoint_text(
    extent: Seq<char>,
    extent_type: Seq<char>,
    konst: Seq<char>,
    const_type: Seq<char>,
) -> Seq<char> {
    "SELECT NOT (CAST("@ + literal(extent) + " AS "@ + extent_type + ") && CAST("@ + literal(konst)
        + " AS "@ + const_type + "))"@
}

/// A value overlaps nothing that an extent is disjoint from.
pub open spec fn inside_extent(
    s: Server,
    extent: Option<Seq<char>>,
    sql_type: Seq<char>,
    v: u64,
) -> bool {
    forall|t: Seq<char>, n: Seq<char>| #[trigger]
        overlaps(s, v, t, n) ==> (extent matches Some(e) && (s.select_bool)(
            disjoint_text(e, sql_type, t, n),
        ) != Some(true))
}

/// A value overlaps nothing that a column's extent is disjoint from. An extent without a type is
/// disjoint from nothing.
pub open spec fn inside(s: Server, col: ColModel, v: u64) -> bool {
    col.sql_type.len() > 0 ==> inside_extent(s, col.min, col.sql_type, v)
}

/// The statement of an overlap test names the extent and the constant, each cast to its type, with
/// the overlap operator between them, for all types.
pub proof fn law_overlap_tests_use_the_overlap_operator(
    extent: Seq<char>,
    extent_type: Seq<char>,
    konst: Seq<char>,
    const_type: Seq<char>,
)
    ensures
        disjoint_statement(extent, extent_type, konst, const_type) == disjoint_text(
            extent,
            extent_type,
            konst,
            const_type,
        ),
{
    assert(disjoint_statement(extent, extent_type, konst, const_type) =~= disjoint_text(
        extent,
        extent_type,
        konst,
        const_type,
    ));
}

/// A column's summary covers a value: the flags allow it, and it lies within the range or inside
/// the extent. Without a range there is no value at all.
pub open spec fn covers_value(
    s: Server,
    col: ColModel,
    typ: u32,
    collation: u32,
    value: Option<u64>,
) -> bool {
    match value {
        None => col.has_nulls,
        Some(v) => {
            &&& !col.all_nulls
            &&& if col.overlap {
                inside(s, col, v)
            } else {
                col.min is Some && col.max is Some && within(s, col, typ, collation, v)
            }
        },
    }
}

/// A column's summary covers all rows.
pub open spec fn covers(
    s: Server,
    col: ColModel,
    columns: spec_fn(i16) -> Option<(u32, u32)>,
    data: Seq<Map<i16, u64>>,
) -> bool {
    columns(col.attnum) matches Some((typ, collation)) && forall|j: int|
        0 <= j < data.len() ==> covers_value(
            s,
            col,
            typ,
            collation,
            column(#[trigger] data[j], col.attnum),
        )
}

/// A partition's summary covers its rows, in every column that it summarises. Of two summaries
/// for one column, only the first counts.
pub open spec fn partition_covered(
    s: Server,
    rows: Seq<ColModel>,
    columns: spec_fn(i16) -> Option<(u32, u32)>,
    data: Seq<Map<i16, u64>>,
) -> bool {
    forall|i: int|
        0 <= i < rows.len() && position(rows, (#[trigger] rows[i]).attnum) == i ==> covers(
            s,
            rows[i],
            columns,
            data,
        )
}

// ---- pruning loses nothing -------------------------------------------------------

pub proof fn lemma_bounds(
    s: Server,
    strategy: i16,
    proc: u32,
    collation: u32,
    k: u64,
    a: u64,
    b: u64,
    v: u64,
)
    requires
        orders(s, proc, collation),
        compared(s, proc, collation, a, v) <= 0,
        compared(s, proc, collation, v, b) <= 0,
        bounds_refute(s, strategy, proc, collation, k, a, b),
    ensures
        !strategy_holds(strategy, compared(s, proc, collation, v, k)),
{
    assert(compared(s, proc, collation, a, k) == (s.compare)(proc, collation, a, k));
    assert(compared(s, proc, collation, b, k) == (s.compare)(proc, collation, b, k));
    assert(compared(s, proc, collation, k, a) == (s.compare)(proc, collation, k, a));
    assert(compared(s, proc, collation, k, b) == (s.compare)(proc, collation, k, b));
    assert(compared(s, proc, collation, k, v) < 0 <==> compared(s, proc, collation, v, k) > 0);
    assert(compared(s, proc, collation, v, k) < 0 <==> compared(s, proc, collation, k, v) > 0);
}

/// Exchanging the operands of a comparison exchanges its strategy for the commuted one.
pub proof fn law_commuting_keeps_meaning(strategy: i16, c: i32)
    ensures
        strategy_holds(strategy, reversed(c)) <==> strategy_holds(commuted(strategy), c),
        commuted(commuted(strategy)) == strategy,
{
}

/// A constant that was read in the column's type compares with the column's values as the constant
/// itself does.
pub proof fn law_read_constants_keep_meaning(
    s: Server,
    opno: u32,
    typ: u32,
    const_type: u32,
    collation: u32,
    flipped: bool,
    konst: u64,
    text: Seq<char>,
    v: u64,
)
    requires
        families_order(s),
        takes_operands(s, opno, flipped, typ, const_type),
        applied(s, opno, collation, flipped, v, konst),
    ensures
        match (
            (s.strategy)(opno, typ),
            (s.compare_proc)(typ),
            read_constant(s, typ, collation, const_type, konst, text),
        ) {
            (Some(st), Some(proc), Some(k)) => strategy_holds(
                if flipped {
                    commuted(st)
                } else {
                    st
                },
                compared(s, proc, collation, v, k),
            ),
            _ => true,
        },
{
    if let Some(cross) = (s.cross_proc)(typ, const_type) {
        let c = compared(s, cross, collation, v, konst);
        if let Some(st) = (s.strategy)(opno, typ) {
            law_commuting_keeps_meaning(st, c);
        }
        if let Some(k) = (s.parse)(typ, text) {
            assert(compared(s, cross, collation, k, konst) == (s.compare)(
                cross,
                collation,
                k,
                konst,
            ));
        }
    }
}

/// An operand has the value and the types of what it relabels.
proof fn lemma_bare(
    s: Server,
    o: Operand,
    row: Map<i16, u64>,
    columns: spec_fn(i16) -> Option<(u32, u32)>,
)
    ensures
        operand_value(o, row) == operand_value(bare(o), row),
        operand_elements(s, o) == operand_elements(s, bare(o)),
        operand_typed(o, columns) == operand_typed(bare(o), columns),
        bare(o) matches Operand::Var { vartype, .. } ==> stands_for(o, vartype),
        bare(o) matches Operand::Const { consttype, .. } ==> stands_for(o, consttype),
        !(bare(o) is Other) ==> stands_for(o, seen_type(o)),
    decreases o,
{
    if let Operand::Relabel { arg, .. } = o {
        lemma_bare(s, *arg, row, columns);
    }
}

/// A leaf that is true of a row, and in which a column stands against a constant, is true of the
/// column's value and the constant in the order in which they stand.
#[verifier::spinoff_prover]
proof fn lemma_operands_applied(
    s: Server,
    expr: LeafExpr,
    row: Map<i16, u64>,
    columns: spec_fn(i16) -> Option<(u32, u32)>,
)
    requires
        leaf_true(s, expr, row),
        leaf_typed(s, expr, columns),
    ensures
        expr matches LeafExpr::Op { opno, inputcollid, args } ==> (column_and_const(
            args@,
        ) matches Some(c) ==> {
            &&& column(row, c.attnum) matches Some(v) && applied(
                s,
                opno,
                inputcollid,
                c.commuted,
                v,
                c.value,
            )
            &&& columns(c.attnum) matches Some(summarised) ==> summarised == (
                c.vartype,
                c.collation,
            )
            &&& takes_operands(s, opno, c.commuted, c.vartype, c.seen_as)
        }),
        expr matches LeafExpr::ScalarArrayOp { opno, inputcollid, use_or, args } ==> (
        column_and_const(args@) matches Some(c) ==> ((s.elements)(
            c.consttype,
            c.value,
        ) matches Some((elem_type, es)) ==> (use_or && !c.commuted ==> {
            &&& column(row, c.attnum) matches Some(v) && any_member(
                s,
                opno,
                inputcollid,
                v,
                es,
            )
            &&& columns(c.attnum) matches Some(summarised) ==> summarised == (
                c.vartype,
                c.collation,
            )
            &&& takes_operands(s, opno, false, c.vartype, elem_type)
        }))),
{
    match expr {
        LeafExpr::Op { opno, args, .. } => {
            if args@.len() == 2 {
                lemma_bare(s, args@[0], row, columns);
                lemma_bare(s, args@[1], row, columns);
                if let Some(c) = column_and_const(args@) {
                    assert((s.takes)(opno, c.vartype, c.seen_as) || !(stands_for(
                        args@[0],
                        c.vartype,
                    ) && stands_for(args@[1], c.seen_as)));
                    assert((s.takes)(opno, c.seen_as, c.vartype) || !(stands_for(
                        args@[0],
                        c.seen_as,
                    ) && stands_for(args@[1], c.vartype)));
                }
            }
        },
        LeafExpr::ScalarArrayOp { opno, args, .. } => {
            if args@.len() == 2 {
                lemma_bare(s, args@[0], row, columns);
                lemma_bare(s, args@[1], row, columns);
                if let Some(c) = column_and_const(args@) {
                    if let Some((elem_type, _)) = (s.elements)(c.consttype, c.value) {
                        if !c.commuted {
                            assert((s.takes)(opno, c.vartype, elem_type) || !stands_for(
                                args@[0],
                                c.vartype,
                            ));
                        }
                    }
                }
            }
        },
        _ => {},
    }
}

#[verifier::spinoff_prover]
proof fn lemma_leaf_sound(
    s: Server,
    expr: LeafExpr,
    rows: Seq<ColModel>,
    columns: spec_fn(i16) -> Option<(u32, u32)>,
    data: Seq<Map<i16, u64>>,
    j: int,
)
    requires
        families_order(s),
        leaf_typed(s, expr, columns),
        partition_covered(s, rows, columns, data),
        0 <= j < data.len(),
        leaf_proves(s, expr, rows),
    ensures
        !leaf_true(s, expr, data[j]),
{
    let q = found_qual(s, expr)->0;
    let i = position(rows, qual_attnum(q));
    let col = rows[i];
    lemma_position_bounds(rows, qual_attnum(q));
    assert(covers(s, col, columns, data));
    let value = column(data[j], col.attnum);
    let (typ, collation) = columns(col.attnum)->0;
    assert(covers_value(s, col, typ, collation, value));
    match expr {
        LeafExpr::Op { opno, inputcollid, args } => {
            let c = column_and_const(args@)->0;
            if leaf_true(s, expr, data[j]) {
                let v = value->0;
                lemma_operands_applied(s, expr, data[j], columns);
                assert(applied(s, opno, inputcollid, c.commuted, v, c.value));
                match q {
                    QualModel::Compare { strategy, const_text, .. } => {
                        let (proc, a, b) = range_values(s, col, typ)->0;
                        let k = read_constant(
                            s,
                            typ,
                            collation,
                            c.seen_as,
                            c.value,
                            const_text,
                        )->0;
                        law_read_constants_keep_meaning(
                            s,
                            opno,
                            typ,
                            c.seen_as,
                            collation,
                            c.commuted,
                            c.value,
                            const_text,
                            v,
                        );
                        assert(orders(s, (s.compare_proc)(typ)->0, collation));
                        lemma_bounds(s, strategy, proc, collation, k, a, b, v);
                    },
                    QualModel::Overlap { const_text, const_type, .. } => {
                        assert((s.render)(c.consttype, c.value) == Some(const_text));
                        assert(overlaps(s, v, const_text, const_type));
                        law_overlap_tests_use_the_overlap_operator(
                            col.min->0,
                            col.sql_type,
                            const_text,
                            const_type,
                        );
                    },
                    _ => {},
                }
            }
        },
        LeafExpr::ScalarArrayOp { opno, inputcollid, use_or, args } => {
            let c = column_and_const(args@)->0;
            let (elem_type, es) = (s.elements)(c.consttype, c.value)->0;
            let elems = flattened(es);
            if leaf_true(s, expr, data[j]) {
                let v = value->0;
                lemma_operands_applied(s, expr, data[j], columns);
                assert(any_member(s, opno, inputcollid, v, es));
                let m = choose|m: int|
                    0 <= m < es.len() && (#[trigger] es[m] matches Some((e, _)) && applied(
                        s,
                        opno,
                        inputcollid,
                        false,
                        v,
                        e,
                    ));
                let (proc, a, b) = range_values(s, col, typ)->0;
                assert(has_text(es[m]));
                let elem = es[m]->0;
                let e = elem.0;
                let t = elem.1->0;
                assert(elems[m] == Some((e, t)));
                assert(list_refuted(s, typ, collation, elem_type, elems, proc, a, b));
                assert(elem_refuted(s, typ, collation, elem_type, elems[m], proc, a, b));
                let d = read_constant(s, typ, collation, elem_type, e, t)->0;
                law_read_constants_keep_meaning(
                    s,
                    opno,
                    typ,
                    elem_type,
                    collation,
                    false,
                    e,
                    t,
                    v,
                );
                assert(orders(s, (s.compare_proc)(typ)->0, collation));
                lemma_bounds(s, 3, proc, collation, d, a, b, v);
            }
        },
        LeafExpr::NullTest { arg, .. } => {
            lemma_bare(s, arg, data[j], columns);
        },
        _ => {},
    }
}

proof fn lemma_clause_sound(
    s: Server,
    clause: Clause,
    rows: Seq<ColModel>,
    columns: spec_fn(i16) -> Option<(u32, u32)>,
    data: Seq<Map<i16, u64>>,
    j: int,
)
    requires
        families_order(s),
        clause_typed(s, clause, columns),
        partition_covered(s, rows, columns, data),
        0 <= j < data.len(),
        clause_proves(s, clause, rows),
    ensures
        !clause_true(s, clause, data[j]),
    decreases clause, 0int,
{
    match clause {
        Clause::Leaf(leaf) => lemma_leaf_sound(s, leaf.expr, rows, columns, data, j),
        Clause::Bool { op, args } => match op {
            BoolOp::And => lemma_any_sound(s, args, 0, rows, columns, data, j),
            BoolOp::Or => lemma_all_sound(s, args, 0, rows, columns, data, j),
            BoolOp::Not => {},
        },
    }
}

proof fn lemma_any_sound(
    s: Server,
    args: Vec<Clause>,
    i: int,
    rows: Seq<ColModel>,
    columns: spec_fn(i16) -> Option<(u32, u32)>,
    data: Seq<Map<i16, u64>>,
    j: int,
)
    requires
        families_order(s),
        all_typed(s, args, i, columns),
        partition_covered(s, rows, columns, data),
        0 <= j < data.len(),
        any_proves(s, args, i, rows),
    ensures
        !all_true(s, args, i, data[j]),
    decreases args, args@.len() - i,
{
    if clause_proves(s, args@[i], rows) {
        lemma_clause_sound(s, args@[i], rows, columns, data, j);
    } else {
        lemma_any_sound(s, args, i + 1, rows, columns, data, j);
    }
}

proof fn lemma_all_sound(
    s: Server,
    args: Vec<Clause>,
    i: int,
    rows: Seq<ColModel>,
    columns: spec_fn(i16) -> Option<(u32, u32)>,
    data: Seq<Map<i16, u64>>,
    j: int,
)
    requires
        families_order(s),
        all_typed(s, args, i, columns),
        partition_covered(s, rows, columns, data),
        0 <= j < data.len(),
        all_prove(s, args, i, rows),
    ensures
        !any_true(s, args, i, data[j]),
    decreases args, args@.len() - i,
{
    if 0 <= i < args@.len() {
        lemma_clause_sound(s, args@[i], rows, columns, data, j);
        lemma_all_sound(s, args, i + 1, rows, columns, data, j);
    }
}

/// A partition that is pruned holds no matching row: where the summary covers the partition, no row
/// makes all clauses true.
pub proof fn law_pruning_loses_no_row(
    s: Server,
    clauses: Vec<Clause>,
    rows: Seq<ColModel>,
    columns: spec_fn(i16) -> Option<(u32, u32)>,
    data: Seq<Map<i16, u64>>,
)
    requires
        families_order(s),
        all_typed(s, clauses, 0, columns),
        partition_covered(s, rows, columns, data),
        relation_pruned(s, clauses, rows),
    ensures
        forall|j: int| 0 <= j < data.len() ==> !all_true(s, clauses, 0, #[trigger] data[j]),
{
    assert forall|j: int| 0 <= j < data.len() implies !all_true(
        s,
        clauses,
        0,
        #[trigger] data[j],
    ) by {
        lemma_any_sound(s, clauses, 0, rows, columns, data, j);
    }
}

/// A partition: its summary, empty where it has none, and its rows.
pub struct Partition {
    pub rows: Seq<ColModel>,
    pub data: Seq<Map<i16, u64>>,
}

/// The rows of a partition that match all clauses.
pub open spec fn matching(s: Server, clauses: Vec<Clause>, data: Seq<Map<i16, u64>>) -> Seq<
    Map<i16, u64>,
> {
    data.filter(|row: Map<i16, u64>| all_true(s, clauses, 0, row))
}

/// What a query over some partitions gives, with pruning on or off: the matching rows of every
/// partition that is not pruned.
pub open spec fn query_result(
    s: Server,
    clauses: Vec<Clause>,
    parts: Seq<Partition>,
    pruning: bool,
) -> Seq<Map<i16, u64>>
    decreases parts.len(),
{
    if parts.len() == 0 {
        Seq::empty()
    } else {
        let last = parts.last();
        query_result(s, clauses, parts.drop_last(), pruning) + (if pruning && relation_pruned(
            s,
            clauses,
            last.rows,
        ) {
            Seq::empty()
        } else {
            matching(s, clauses, last.data)
        })
    }
}

proof fn lemma_nothing_matches(s: Server, clauses: Vec<Clause>, data: Seq<Map<i16, u64>>)
    requires
        forall|j: int| 0 <= j < data.len() ==> !all_true(s, clauses, 0, #[trigger] data[j]),
    ensures
        matching(s, clauses, data) == Seq::<Map<i16, u64>>::empty(),
    decreases data.len(),
{
    reveal(Seq::filter);
    if data.len() > 0 {
        let front = data.drop_last();
        assert forall|j: int| 0 <= j < front.len() implies !all_true(
            s,
            clauses,
            0,
            #[trigger] front[j],
        ) by {
            assert(front[j] == data[j]);
        }
        lemma_nothing_matches(s, clauses, front);
        assert(!all_true(s, clauses, 0, data[data.len() - 1]));
    }
    assert(matching(s, clauses, data) =~= Seq::<Map<i16, u64>>::empty());
}

/// A query gives the same rows with pruning on and off.
pub proof fn law_results_are_identical(
    s: Server,
    clauses: Vec<Clause>,
    columns: spec_fn(i16) -> Option<(u32, u32)>,
    parts: Seq<Partition>,
)
    requires
        families_order(s),
        all_typed(s, clauses, 0, columns),
        forall|i: int|
            0 <= i < parts.len() ==> partition_covered(
                s,
                (#[trigger] parts[i]).rows,
                columns,
                parts[i].data,
            ),
    ensures
        query_result(s, clauses, parts, true) == query_result(s, clauses, parts, false),
    decreases parts.len(),
{
    if parts.len() > 0 {
        let front = parts.drop_last();
        assert forall|i: int| 0 <= i < front.len() implies partition_covered(
            s,
            (#[trigger] front[i]).rows,
            columns,
            front[i].data,
        ) by {
            assert(front[i] == parts[i]);
        }
        law_results_are_identical(s, clauses, columns, front);
        let last = parts[parts.len() - 1];
        if relation_pruned(s, clauses, last.rows) {
            law_pruning_loses_no_row(s, clauses, last.rows, columns, last.data);
            lemma_nothing_matches(s, clauses, last.data);
        }
    }
}

} // verus!
