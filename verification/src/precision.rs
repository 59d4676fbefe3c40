//! What the library does, in terms of its inputs: what is made of a clause, and when exactly it
//! prunes; what a widening and a building leave; what the statements say; and what is remembered,
//! cached and stored.
//!
//! The laws of [`crate::soundness`] and [`crate::maintenance`] say that nothing is lost. Most of
//! these say that nothing more is kept than has to be.

use vstd::prelude::*;
use crate::backend::{named, names_objects, strategy_found, Answer, QuestionModel, SelectionModel};
use crate::index_am::{first_attnums, flags_of};
use crate::index_storage::{
    col_bytes, cols_bytes, frame, opt_text, parse_summary, readable_cols, stored_blob,
    summary_bytes, ByteOrder, ColModel, PageFormat,
};
use crate::maintenance::{
    law_geometry_is_told_by_its_name, law_merges_name_extent_and_value, merge_text, named_geometry,
    names_from, scanned, scanned_column, scanned_from, widened, Scans,
};
use crate::plan_state::{
    answer_kept, first_index, looked_at, prune_notice, remembered_answer, IndexInfo, PlanModel,
    RelKind, RelationInfo,
};
use crate::prune_hook::{
    bare, column_and_const, commuted, null_test_qual, position, LeafExpr, NullTestKind, Operand,
    QualModel,
};
use crate::soundness::{
    answers, bounds_refute, compared, disjoint_text, elem_refuted, flattened, found_qual, has_text,
    law_commuting_keeps_meaning, law_overlap_tests_use_the_overlap_operator, leaf_proves,
    lemma_bounds, list_refuted, literal, orders, procs_order, qual_proves, strategy_holds, Server,
};
use crate::summary_build::{
    attnum_statement, column_name_statement, column_summary, kind_of, kind_statement,
    relation_name_statement, stats_statement, BuildModel, ColumnKind, StatsRow, TypeRow,
};
use crate::summary_cache::CacheModel;
use crate::text::{decimal, digit, quoted, signed_decimal};
use vstd::utf8::encode_utf8;

verus! {

// ---- what is made of a clause ----------------------------------------------------

/// An operand is another one, or relabels it, any number of times.
pub open spec fn relabels(o: Operand, inner: Operand) -> bool
    decreases o,
{
    o == inner || (o matches Operand::Relabel { arg, .. } && relabels(*arg, inner))
}

proof fn lemma_relabels(o: Operand, inner: Operand)
    requires
        relabels(o, inner),
        !(inner is Relabel),
    ensures
        bare(o) == inner,
    decreases o,
{
    if let Operand::Relabel { arg, .. } = o {
        lemma_relabels(*arg, inner);
    }
}

/// The type that an operand has outside of all its labels.
pub open spec fn outer_type(o: Operand) -> u32 {
    match o {
        Operand::Relabel { typ, .. } => typ,
        Operand::Const { consttype, .. } => consttype,
        Operand::Var { vartype, .. } => vartype,
        Operand::Other => 0,
    }
}

/// A column that stands against a constant is taken for what it is: the column's number, type and
/// collation, the constant's own type, the type it stands for, and its value are those of the
/// operands, and the two count as commuted exactly where the constant comes first.
pub proof fn law_operands_are_taken_as_they_stand(
    args: Seq<Operand>,
    flipped: bool,
    attno: i16,
    vartype: u32,
    collation: u32,
    consttype: u32,
    value: u64,
)
    requires
        args.len() == 2,
        attno > 0,
        relabels(
            args[if flipped {
                1
            } else {
                0
            }],
            Operand::Var { attno, vartype, collation },
        ),
        relabels(
            args[if flipped {
                0
            } else {
                1
            }],
            Operand::Const { consttype, value, is_null: false },
        ),
    ensures
        column_and_const(args) matches Some(c) && {
            &&& c.attnum == attno
            &&& c.vartype == vartype
            &&& c.collation == collation
            &&& c.consttype == consttype
            &&& c.value == value
            &&& c.seen_as == outer_type(
                args[if flipped {
                    0
                } else {
                    1
                }],
            )
            &&& c.commuted <==> flipped
        },
{
    let (x, y) = if flipped {
        (args[1], args[0])
    } else {
        (args[0], args[1])
    };
    lemma_relabels(x, Operand::Var { attno, vartype, collation });
    lemma_relabels(y, Operand::Const { consttype, value, is_null: false });
}

/// A null test of a user's column as a whole is taken for what it is: a test of that column, of the
/// kind that it says.
pub proof fn law_null_tests_are_taken_as_they_stand(
    kind: NullTestKind,
    arg: Operand,
    attno: i16,
    vartype: u32,
    collation: u32,
)
    requires
        attno > 0,
        relabels(arg, Operand::Var { attno, vartype, collation }),
    ensures
        kind == NullTestKind::IsNull ==> null_test_qual(kind, false, arg) == Some(
            QualModel::Null { attnum: attno, is_null: true },
        ),
        kind == NullTestKind::IsNotNull ==> null_test_qual(kind, false, arg) == Some(
            QualModel::Null { attnum: attno, is_null: false },
        ),
{
    lemma_relabels(arg, Operand::Var { attno, vartype, collation });
}

// ---- when exactly a clause prunes ------------------------------------------------

/// The summary at `i` is the first one of a column.
pub open spec fn first_of(rows: Seq<ColModel>, attnum: i16, i: int) -> bool {
    &&& 0 <= i < rows.len()
    &&& rows[i].attnum == attnum
    &&& forall|j: int| 0 <= j < i ==> (#[trigger] rows[j]).attnum != attnum
}

/// Of several summaries for a column the first one counts, and a column without one has none.
pub proof fn law_the_first_summary_counts(rows: Seq<ColModel>, attnum: i16, i: int)
    ensures
        first_of(rows, attnum, i) ==> position(rows, attnum) == i,
        (forall|j: int| 0 <= j < rows.len() ==> (#[trigger] rows[j]).attnum != attnum)
            ==> position(rows, attnum) == rows.len(),
    decreases rows.len(),
{
    if rows.len() > 0 {
        let tail = rows.skip(1);
        law_the_first_summary_counts(tail, attnum, i - 1);
        if first_of(rows, attnum, i) && i > 0 {
            assert(rows[0].attnum != attnum);
            assert forall|j: int| 0 <= j < i - 1 implies (#[trigger] tail[j]).attnum != attnum by {
                assert(tail[j] == rows[j + 1]);
            }
            assert(first_of(tail, attnum, i - 1));
        }
        if forall|j: int| 0 <= j < rows.len() ==> (#[trigger] rows[j]).attnum != attnum {
            assert(rows[0].attnum != attnum);
            assert forall|j: int| 0 <= j < tail.len() implies (#[trigger] tail[j]).attnum
                != attnum by {
                assert(tail[j] == rows[j + 1]);
            }
        }
    }
}

/// A value lies between two others.
pub open spec fn lies_between(
    s: Server,
    proc: u32,
    collation: u32,
    a: u64,
    b: u64,
    v: u64,
) -> bool {
    compared(s, proc, collation, a, v) <= 0 && compared(s, proc, collation, v, b) <= 0
}

/// What a strategy says of a value and a constant; `flipped` says that the constant comes first.
pub open spec fn said_of(
    s: Server,
    strategy: i16,
    proc: u32,
    collation: u32,
    flipped: bool,
    v: u64,
    k: u64,
) -> bool {
    strategy_holds(
        strategy,
        if flipped {
            compared(s, proc, collation, k, v)
        } else {
            compared(s, proc, collation, v, k)
        },
    )
}

#[verifier::spinoff_prover]
proof fn lemma_refutes_exactly(
    s: Server,
    strategy: i16,
    proc: u32,
    collation: u32,
    flipped: bool,
    k: u64,
    a: u64,
    b: u64,
)
    requires
        orders(s, proc, collation),
        1 <= strategy <= 5,
        compared(s, proc, collation, a, b) <= 0,
    ensures
        bounds_refute(
            s,
            if flipped {
                commuted(strategy)
            } else {
                strategy
            },
            proc,
            collation,
            k,
            a,
            b,
        ) <==> forall|v: u64| #[trigger]
            lies_between(s, proc, collation, a, b, v) ==> !said_of(
                s,
                strategy,
                proc,
                collation,
                flipped,
                v,
                k,
            ),
{
    let seen = if flipped {
        commuted(strategy)
    } else {
        strategy
    };
    assert forall|v: u64|
        said_of(s, strategy, proc, collation, flipped, v, k) == #[trigger] strategy_holds(
            seen,
            compared(s, proc, collation, v, k),
        ) by {
        let c = compared(s, proc, collation, v, k);
        law_commuting_keeps_meaning(strategy, c);
        assert(compared(s, proc, collation, v, k) < 0 <==> compared(s, proc, collation, k, v) > 0);
        assert(compared(s, proc, collation, k, v) < 0 <==> compared(s, proc, collation, v, k) > 0);
    }
    if bounds_refute(s, seen, proc, collation, k, a, b) {
        assert forall|v: u64| #[trigger] lies_between(s, proc, collation, a, b, v) implies !said_of(
            s,
            strategy,
            proc,
            collation,
            flipped,
            v,
            k,
        ) by {
            lemma_bounds(s, seen, proc, collation, k, a, b, v);
            assert(strategy_holds(seen, compared(s, proc, collation, v, k)) == said_of(
                s,
                strategy,
                proc,
                collation,
                flipped,
                v,
                k,
            ));
        }
    } else {
        assert(compared(s, proc, collation, a, a) < 0 <==> compared(s, proc, collation, a, a) > 0);
        assert(compared(s, proc, collation, b, b) < 0 <==> compared(s, proc, collation, b, b) > 0);
        assert(compared(s, proc, collation, k, a) < 0 <==> compared(s, proc, collation, a, k) > 0);
        assert(compared(s, proc, collation, a, k) == (s.compare)(proc, collation, a, k));
        assert(compared(s, proc, collation, b, k) == (s.compare)(proc, collation, b, k));
        assert(compared(s, proc, collation, k, b) == (s.compare)(proc, collation, k, b));
        let v = if seen <= 2 {
            a
        } else if seen == 3 {
            k
        } else {
            b
        };
        assert(compared(s, proc, collation, k, k) < 0 <==> compared(s, proc, collation, k, k) > 0);
        assert(lies_between(s, proc, collation, a, b, v));
        assert(strategy_holds(seen, compared(s, proc, collation, v, k)) == said_of(
            s,
            strategy,
            proc,
            collation,
            flipped,
            v,
            k,
        ));
    }
}

/// A comparison of a column with a constant, in either order, prunes exactly where no value between
/// the column's bounds can make it true: where operator and bounds are known to the server, it
/// compares under the column's collation, and the constant is read as what it is.
#[verifier::spinoff_prover]
pub proof fn law_comparisons_prune_exactly(
    s: Server,
    opno: u32,
    args: Vec<Operand>,
    flipped: bool,
    attno: i16,
    vartype: u32,
    collation: u32,
    consttype: u32,
    value: u64,
    rows: Seq<ColModel>,
    i: int,
)
    requires
        procs_order(s),
        args@.len() == 2,
        attno > 0,
        relabels(
            args@[if flipped {
                1
            } else {
                0
            }],
            Operand::Var { attno, vartype, collation },
        ),
        relabels(
            args@[if flipped {
                0
            } else {
                1
            }],
            Operand::Const { consttype, value, is_null: false },
        ),
        first_of(rows, attno, i),
        !rows[i].overlap,
        rows[i].min is Some,
        rows[i].max is Some,
        ({
            let other = outer_type(
                args@[if flipped {
                    0
                } else {
                    1
                }],
            );
            &&& (s.strategy)(opno, vartype) matches Some(st) && 1 <= st <= 5
            &&& (s.compare_proc)(vartype) matches Some(proc) && (s.parse)(
                vartype,
                rows[i].min->0,
            ) matches Some(a) && (s.parse)(vartype, rows[i].max->0) matches Some(b) && compared(
                s,
                proc,
                collation,
                a,
                b,
            ) <= 0
            &&& (s.render)(consttype, value) matches Some(t) && (s.parse)(vartype, t) matches Some(
                k,
            ) && (s.cross_proc)(vartype, other) matches Some(cross) && (s.compare)(
                cross,
                collation,
                k,
                value,
            ) == 0
        }),
    ensures
        ({
            let st = (s.strategy)(opno, vartype)->0;
            let proc = (s.compare_proc)(vartype)->0;
            let a = (s.parse)(vartype, rows[i].min->0)->0;
            let b = (s.parse)(vartype, rows[i].max->0)->0;
            let k = (s.parse)(vartype, (s.render)(consttype, value)->0)->0;
            leaf_proves(s, LeafExpr::Op { opno, inputcollid: collation, args }, rows)
                <==> forall|v: u64| #[trigger]
                lies_between(s, proc, collation, a, b, v) ==> !said_of(
                    s,
                    st,
                    proc,
                    collation,
                    flipped,
                    v,
                    k,
                )
        }),
{
    law_operands_are_taken_as_they_stand(
        args@,
        flipped,
        attno,
        vartype,
        collation,
        consttype,
        value,
    );
    law_the_first_summary_counts(rows, attno, i);
    let st = (s.strategy)(opno, vartype)->0;
    let proc = (s.compare_proc)(vartype)->0;
    let a = (s.parse)(vartype, rows[i].min->0)->0;
    let b = (s.parse)(vartype, rows[i].max->0)->0;
    let k = (s.parse)(vartype, (s.render)(consttype, value)->0)->0;
    assert(orders(s, (s.compare_proc)(vartype)->0, collation));
    lemma_refutes_exactly(s, st, proc, collation, flipped, k, a, b);
}

/// A list prunes exactly where no value between the column's bounds equals an element: where the
/// operator is the type's equality and the bounds are known to the server, it compares under the
/// column's collation, and every element that is not null is read as what it is.
#[verifier::spinoff_prover]
pub proof fn law_lists_prune_exactly(
    s: Server,
    opno: u32,
    args: Vec<Operand>,
    attno: i16,
    vartype: u32,
    collation: u32,
    consttype: u32,
    value: u64,
    rows: Seq<ColModel>,
    i: int,
)
    requires
        procs_order(s),
        args@.len() == 2,
        attno > 0,
        relabels(args@[0], Operand::Var { attno, vartype, collation }),
        relabels(args@[1], Operand::Const { consttype, value, is_null: false }),
        first_of(rows, attno, i),
        !rows[i].overlap,
        rows[i].min is Some,
        rows[i].max is Some,
        (s.strategy)(opno, vartype) == Some(3i16),
        (s.compare_proc)(vartype) matches Some(proc) && (s.parse)(
            vartype,
            rows[i].min->0,
        ) matches Some(a) && (s.parse)(vartype, rows[i].max->0) matches Some(b) && compared(
            s,
            proc,
            collation,
            a,
            b,
        ) <= 0,
        (s.elements)(consttype, value) matches Some((elem_type, es)) && (s.cross_proc)(
            vartype,
            elem_type,
        ) matches Some(cross) && forall|j: int|
            0 <= j < es.len() ==> (#[trigger] es[j] matches Some((e, text)) ==> {
                &&& text matches Some(t) && (s.parse)(vartype, t) matches Some(k) && (s.compare)(
                    cross,
                    collation,
                    k,
                    e,
                ) == 0
            }),
    ensures
        ({
            let proc = (s.compare_proc)(vartype)->0;
            let a = (s.parse)(vartype, rows[i].min->0)->0;
            let b = (s.parse)(vartype, rows[i].max->0)->0;
            let (_, es) = (s.elements)(consttype, value)->0;
            leaf_proves(
                s,
                LeafExpr::ScalarArrayOp { opno, inputcollid: collation, use_or: true, args },
                rows,
            ) <==> forall|j: int, v: u64|
                0 <= j < es.len() && #[trigger] lies_between(s, proc, collation, a, b, v) ==> (
                #[trigger] es[j] matches Some((_, Some(t))) ==> compared(
                    s,
                    proc,
                    collation,
                    v,
                    (s.parse)(vartype, t)->0,
                ) != 0)
        }),
{
    law_operands_are_taken_as_they_stand(
        args@,
        false,
        attno,
        vartype,
        collation,
        consttype,
        value,
    );
    law_the_first_summary_counts(rows, attno, i);
    let proc = (s.compare_proc)(vartype)->0;
    let a = (s.parse)(vartype, rows[i].min->0)->0;
    let b = (s.parse)(vartype, rows[i].max->0)->0;
    let (elem_type, es) = (s.elements)(consttype, value)->0;
    let expr = LeafExpr::ScalarArrayOp { opno, inputcollid: collation, use_or: true, args };
    assert(orders(s, (s.compare_proc)(vartype)->0, collation));
    assert forall|j: int| 0 <= j < es.len() implies has_text(#[trigger] es[j]) by {}
    let elems = flattened(es);
    assert(found_qual(s, expr) == Some(
        QualModel::InList { attnum: attno, typ: vartype, collation, elem_type, elems },
    ));
    assert(leaf_proves(s, expr, rows) == list_refuted(
        s,
        vartype,
        collation,
        elem_type,
        elems,
        proc,
        a,
        b,
    ));
    assert forall|j: int| 0 <= j < es.len() implies (elem_refuted(
        s,
        vartype,
        collation,
        elem_type,
        #[trigger] elems[j],
        proc,
        a,
        b,
    ) <==> (es[j] matches Some((_, Some(t))) ==> forall|v: u64| #[trigger]
        lies_between(s, proc, collation, a, b, v) ==> compared(
            s,
            proc,
            collation,
            v,
            (s.parse)(vartype, t)->0,
        ) != 0)) by {
        if let Some((e, Some(t))) = es[j] {
            let k = (s.parse)(vartype, t)->0;
            lemma_refutes_exactly(s, 3, proc, collation, false, k, a, b);
            assert(forall|v: u64| #[trigger]
                lies_between(s, proc, collation, a, b, v) ==> (said_of(
                    s,
                    3,
                    proc,
                    collation,
                    false,
                    v,
                    k,
                ) <==> compared(s, proc, collation, v, k) == 0));
        }
    }
    if list_refuted(s, vartype, collation, elem_type, elems, proc, a, b) {
        assert forall|j: int, v: u64|
            0 <= j < es.len() && #[trigger] lies_between(s, proc, collation, a, b, v) implies (
        #[trigger] es[j] matches Some((_, Some(t))) ==> compared(
            s,
            proc,
            collation,
            v,
            (s.parse)(vartype, t)->0,
        ) != 0) by {
            assert(elem_refuted(s, vartype, collation, elem_type, elems[j], proc, a, b));
        }
    } else {
        let j = choose|j: int|
            0 <= j < elems.len() && !elem_refuted(
                s,
                vartype,
                collation,
                elem_type,
                #[trigger] elems[j],
                proc,
                a,
                b,
            );
        assert(0 <= j < es.len());
        let (_, text) = es[j]->0;
        let t = text->0;
        let v = choose|v: u64| #[trigger]
            lies_between(s, proc, collation, a, b, v) && !(compared(
                s,
                proc,
                collation,
                v,
                (s.parse)(vartype, t)->0,
            ) != 0);
        assert(lies_between(s, proc, collation, a, b, v));
    }
}

/// A null test of a column prunes exactly by the column's flags: `IS NULL` where the column has no
/// nulls, `IS NOT NULL` where it has nothing else.
pub proof fn law_null_tests_prune_exactly(
    s: Server,
    kind: NullTestKind,
    arg: Operand,
    attno: i16,
    vartype: u32,
    collation: u32,
    rows: Seq<ColModel>,
    i: int,
)
    requires
        attno > 0,
        relabels(arg, Operand::Var { attno, vartype, collation }),
        first_of(rows, attno, i),
    ensures
        kind == NullTestKind::IsNull ==> (leaf_proves(
            s,
            LeafExpr::NullTest { kind, arg_is_row: false, arg },
            rows,
        ) <==> !rows[i].has_nulls),
        kind == NullTestKind::IsNotNull ==> (leaf_proves(
            s,
            LeafExpr::NullTest { kind, arg_is_row: false, arg },
            rows,
        ) <==> rows[i].all_nulls),
{
    law_null_tests_are_taken_as_they_stand(kind, arg, attno, vartype, collation);
    law_the_first_summary_counts(rows, attno, i);
}

/// An overlap test of a column with a constant, in either order, prunes exactly where the server
/// says that the column's extent and the constant do not overlap.
pub proof fn law_overlap_tests_prune_exactly(
    s: Server,
    opno: u32,
    inputcollid: u32,
    args: Vec<Operand>,
    flipped: bool,
    attno: i16,
    vartype: u32,
    collation: u32,
    consttype: u32,
    value: u64,
    rows: Seq<ColModel>,
    i: int,
)
    requires
        args@.len() == 2,
        attno > 0,
        relabels(
            args@[if flipped {
                1
            } else {
                0
            }],
            Operand::Var { attno, vartype, collation },
        ),
        relabels(
            args@[if flipped {
                0
            } else {
                1
            }],
            Operand::Const { consttype, value, is_null: false },
        ),
        first_of(rows, attno, i),
        rows[i].overlap,
        rows[i].sql_type.len() > 0,
        rows[i].min is Some,
        (s.strategy)(opno, vartype) is None,
        (s.operator_name)(opno) == Some("&&"@),
        (s.render)(consttype, value) is Some,
        (s.sql_type)(consttype) is Some,
    ensures
        leaf_proves(s, LeafExpr::Op { opno, inputcollid, args }, rows) <==> (s.select_bool)(
            disjoint_text(
                rows[i].min->0,
                rows[i].sql_type,
                (s.render)(consttype, value)->0,
                (s.sql_type)(consttype)->0,
            ),
        ) == Some(true),
{
    law_operands_are_taken_as_they_stand(
        args@,
        flipped,
        attno,
        vartype,
        collation,
        consttype,
        value,
    );
    law_the_first_summary_counts(rows, attno, i);
    law_overlap_tests_use_the_overlap_operator(
        rows[i].min->0,
        rows[i].sql_type,
        (s.render)(consttype, value)->0,
        (s.sql_type)(consttype)->0,
    );
}

// ---- what a widening leaves ------------------------------------------------------

/// Two summaries are the same but for minimum, maximum and the flag that all are null.
pub open spec fn same_but_bounds(x: ColModel, y: ColModel) -> bool {
    &&& x.attnum == y.attnum
    &&& x.overlap == y.overlap
    &&& x.sql_type == y.sql_type
    &&& x.has_nulls == y.has_nulls
}

/// A null changes nothing but the flag that there are nulls, and any other value leaves that flag
/// alone and takes back that all are null.
pub proof fn law_nulls_set_one_flag(
    s: Server,
    col: ColModel,
    typ: u32,
    collation: u32,
    value: u64,
    isnull: bool,
)
    ensures
        ({
            let (after, changed) = widened(s, col, typ, collation, value, isnull);
            if isnull {
                &&& after.has_nulls
                &&& same_but_bounds(after, ColModel { has_nulls: true, ..col })
                &&& after.min == col.min
                &&& after.max == col.max
                &&& after.all_nulls == col.all_nulls
                &&& changed <==> !col.has_nulls
            } else {
                &&& after.has_nulls == col.has_nulls
                &&& after.attnum == col.attnum
                &&& !after.all_nulls
                &&& col.all_nulls ==> changed
            }
        }),
{
}

/// A range grows by no more than it has to: where the server can read the bounds and the value's
/// text, the text takes the place of the minimum exactly where the value lies below it, that of the
/// maximum exactly where it lies above, and nothing else changes. It counts as changed exactly
/// where it is.
pub proof fn law_ranges_grow_as_far_as_they_have_to(
    s: Server,
    col: ColModel,
    typ: u32,
    collation: u32,
    value: u64,
)
    requires
        !col.overlap,
        col.min is Some,
        col.max is Some,
        (s.compare_proc)(typ) is Some,
        (s.parse)(typ, col.min->0) is Some,
        (s.parse)(typ, col.max->0) is Some,
        (s.render)(typ, value) matches Some(new) && (s.parse)(typ, new) matches Some(w) && (
        s.compare)((s.compare_proc)(typ)->0, collation, w, value) == 0,
    ensures
        ({
            let (after, changed) = widened(s, col, typ, collation, value, false);
            let proc = (s.compare_proc)(typ)->0;
            let new = (s.render)(typ, value)->0;
            let below = compared(s, proc, collation, value, (s.parse)(typ, col.min->0)->0) < 0;
            let above = compared(s, proc, collation, value, (s.parse)(typ, col.max->0)->0) > 0;
            &&& same_but_bounds(after, col)
            &&& below ==> after.min == Some(new)
            &&& !below ==> after.min == col.min
            &&& above ==> after.max == Some(new)
            &&& !above ==> after.max == col.max
            &&& changed <==> below || above || col.all_nulls
        }),
{
}

/// The first value of a column becomes both bounds, where the server reads its text as the value,
/// or has nothing to compare it with.
pub proof fn law_the_first_value_is_both_bounds(
    s: Server,
    col: ColModel,
    typ: u32,
    collation: u32,
    value: u64,
)
    requires
        !col.overlap,
        col.min is None || col.max is None,
        (s.render)(typ, value) matches Some(new) && ((s.compare_proc)(typ) matches Some(proc) ==> (
        s.parse)(typ, new) matches Some(w) && (s.compare)(proc, collation, w, value) == 0),
    ensures
        ({
            let (after, changed) = widened(s, col, typ, collation, value, false);
            &&& same_but_bounds(after, col)
            &&& after.min == (s.render)(typ, value)
            &&& after.max == (s.render)(typ, value)
            &&& changed
        }),
{
}

/// An extent becomes what the server merges, whatever its type and whether or not there was one
/// before, and nothing else changes; it counts as changed exactly where it is. Where the server
/// selects null it stays.
pub proof fn law_extents_become_what_is_merged(
    s: Server,
    col: ColModel,
    typ: u32,
    collation: u32,
    value: u64,
)
    requires
        col.overlap,
        col.sql_type.len() > 0,
        (s.render)(typ, value) is Some,
    ensures
        ({
            let (after, changed) = widened(s, col, typ, collation, value, false);
            let new = (s.render)(typ, value)->0;
            match (s.select_text)(merge_text(col.min, new, col.sql_type)) {
                SelectionModel::Text(e) => {
                    &&& same_but_bounds(after, col)
                    &&& after.min == Some(e)
                    &&& after.max == col.max
                    &&& changed <==> col.min != Some(e) || col.all_nulls
                },
                SelectionModel::Null => {
                    &&& same_but_bounds(after, col)
                    &&& after.min == col.min
                    &&& after.max == col.max
                    &&& changed <==> col.all_nulls
                },
                SelectionModel::Failed => true,
            }
        }),
{
    law_merges_name_extent_and_value(col.min, (s.render)(typ, value)->0, col.sql_type);
}

/// A column of which only the flags are left prunes by null tests and by nothing else.
pub proof fn law_flags_prune_null_tests_only(s: Server, col: ColModel, q: QualModel)
    ensures
        q is Null ==> qual_proves(s, q, flags_of(col)) == qual_proves(s, q, col),
        !(q is Null) ==> !qual_proves(s, q, flags_of(col)),
        flags_of(col).attnum == col.attnum,
{
}

// ---- what a building leaves ------------------------------------------------------

/// A column is summarised by what the catalog says of its type: range types and geometry by an
/// extent, everything else by minimum and maximum; the type is called what the catalog calls it.
pub proof fn law_kinds_are_told_by_the_catalog(row: TypeRow)
    ensures
        ({
            let (kind, sql_type) = kind_of(Some(row));
            match row.typename {
                Some(name) => {
                    let range = row.typtype matches Some(t) && t@ == "r"@;
                    &&& sql_type == name@
                    &&& kind == ColumnKind::Range <==> range
                    &&& kind == ColumnKind::Geometry <==> !range && named_geometry(name@)
                },
                None => sql_type.len() == 0 && kind == ColumnKind::MinMax,
            }
        }),
        kind_of(None).0 == ColumnKind::MinMax,
        kind_of(None).1.len() == 0,
{
    if let Some(name) = row.typename {
        law_geometry_is_told_by_its_name(name@);
    }
}

/// A scan that gave no row, or no counts, says nothing: no nulls, no bounds.
pub proof fn law_missing_scans_say_nothing(
    attnum: i16,
    kind: ColumnKind,
    sql_type: Seq<char>,
    stats: StatsRow,
)
    ensures
        ({
            let col = column_summary(attnum, kind, sql_type, None);
            &&& col.attnum == attnum && col.sql_type == sql_type
            &&& !col.has_nulls && !col.all_nulls
            &&& col.min is None && col.max is None
            &&& col.overlap <==> kind != ColumnKind::MinMax
        }),
        stats.total is None && stats.nonnull is None ==> {
            let col = column_summary(attnum, kind, sql_type, Some(stats));
            &&& col.attnum == attnum && col.sql_type == sql_type
            &&& !col.has_nulls && !col.all_nulls
            &&& col.min == opt_text(stats.first) && col.max == opt_text(stats.second)
        },
{
}

/// How many of the first `k` columns a leaf has.
pub open spec fn present(c: Scans, leaf: u32, columns: Seq<Seq<char>>, k: int) -> nat
    decreases k,
{
    if k <= 0 {
        0
    } else {
        present(c, leaf, columns, k - 1) + (if (c.attnum)(attnum_statement(leaf, columns[k - 1]))
            is Some {
            1nat
        } else {
            0
        })
    }
}

proof fn lemma_scanned_in_order(
    c: Scans,
    leaf: u32,
    name: Seq<char>,
    columns: Seq<Seq<char>>,
    i: int,
    done: Seq<ColModel>,
    k: int,
)
    requires
        0 <= i <= columns.len(),
        done.len() == present(c, leaf, columns, i),
    ensures
        ({
            let built = scanned_from(c, leaf, name, columns, i, done);
            &&& built.len() == present(c, leaf, columns, columns.len() as int)
            &&& done.len() <= built.len()
            &&& built.take(done.len() as int) == done
            &&& i <= k < columns.len() ==> ((c.attnum)(
                attnum_statement(leaf, columns[k]),
            ) matches Some(attnum) ==> {
                let (kind, sql_type) = kind_of((c.kind)(kind_statement(leaf, columns[k])));
                let at = present(c, leaf, columns, k) as int;
                &&& 0 <= at < built.len()
                &&& built[at] == column_summary(
                    attnum,
                    kind,
                    sql_type,
                    (c.stats)(stats_statement(kind, columns[k], name)),
                )
            })
        }),
    decreases columns.len() - i,
{
    let built = scanned_from(c, leaf, name, columns, i, done);
    if i < columns.len() {
        let next = match scanned_column(c, leaf, name, columns[i]) {
            Some(col) => done.push(col),
            None => done,
        };
        lemma_scanned_in_order(c, leaf, name, columns, i + 1, next, k);
        assert(built.take(done.len() as int) =~= done) by {
            assert forall|j: int| 0 <= j < done.len() implies built[j] == done[j] by {
                assert(built.take(next.len() as int)[j] == next[j]);
            }
        }
        if k == i && next.len() > done.len() {
            let at = done.len() as int;
            assert(built.take(next.len() as int)[at] == next[at]);
        }
    } else {
        assert(built.take(done.len() as int) =~= done);
    }
}

/// A leaf's summary has one entry for each of the columns that the leaf has, in their order, each
/// made of the column's own attribute number, type and scan, and no other. A leaf without a name
/// has none.
pub proof fn law_every_column_is_summarised(
    c: Scans,
    leaf: u32,
    columns: Seq<Seq<char>>,
    k: int,
)
    requires
        0 <= k < columns.len(),
    ensures
        ({
            let built = scanned(c, leaf, columns, BuildModel::begun());
            match (c.text)(relation_name_statement(leaf)) {
                None => built.len() == 0,
                Some(name) => {
                    &&& built.len() == present(c, leaf, columns, columns.len() as int)
                    &&& (c.attnum)(attnum_statement(leaf, columns[k])) matches Some(attnum) ==> {
                        let (kind, sql_type) = kind_of((c.kind)(kind_statement(leaf, columns[k])));
                        built[present(c, leaf, columns, k) as int] == column_summary(
                            attnum,
                            kind,
                            sql_type,
                            (c.stats)(stats_statement(kind, columns[k], name)),
                        )
                    }
                },
            }
        }),
{
    if let Some(name) = (c.text)(relation_name_statement(leaf)) {
        lemma_scanned_in_order(c, leaf, name, columns, 0, Seq::empty(), k);
    }
}

/// The name that an attribute number stands for; none where it is not a user's column.
pub open spec fn name_of(c: Scans, relid: u32, attnum: i16) -> Option<Seq<char>> {
    if attnum > 0 {
        (c.text)(column_name_statement(relid, attnum))
    } else {
        None
    }
}

/// How many of the first `k` attribute numbers have a name.
pub open spec fn names_before(c: Scans, relid: u32, attnums: Seq<i16>, k: int) -> nat
    decreases k,
{
    if k <= 0 {
        0
    } else {
        names_before(c, relid, attnums, k - 1) + (if name_of(c, relid, attnums[k - 1]) is Some {
            1nat
        } else {
            0
        })
    }
}

proof fn lemma_names_in_order(
    c: Scans,
    relid: u32,
    attnums: Seq<i16>,
    i: int,
    done: Seq<Seq<char>>,
    k: int,
)
    requires
        0 <= i <= attnums.len(),
        done.len() == names_before(c, relid, attnums, i),
    ensures
        ({
            let names = names_from(c, relid, attnums, i, done);
            &&& names.len() == names_before(c, relid, attnums, attnums.len() as int)
            &&& done.len() <= names.len()
            &&& names.take(done.len() as int) == done
            &&& i <= k < attnums.len() ==> (name_of(c, relid, attnums[k]) matches Some(name) ==> {
                let at = names_before(c, relid, attnums, k) as int;
                0 <= at < names.len() && names[at] == name
            })
        }),
    decreases attnums.len() - i,
{
    let names = names_from(c, relid, attnums, i, done);
    if i < attnums.len() {
        let next = match name_of(c, relid, attnums[i]) {
            Some(name) => done.push(name),
            None => done,
        };
        lemma_names_in_order(c, relid, attnums, i + 1, next, k);
        assert(names.take(done.len() as int) =~= done) by {
            assert forall|j: int| 0 <= j < done.len() implies names[j] == done[j] by {
                assert(names.take(next.len() as int)[j] == next[j]);
            }
        }
        if k == i && next.len() > done.len() {
            let at = done.len() as int;
            assert(names.take(next.len() as int)[at] == next[at]);
        }
    } else {
        assert(names.take(done.len() as int) =~= done);
    }
}

/// The names of an index's columns are those of its user columns that have one, in the order of
/// the index.
pub proof fn law_every_column_is_named(c: Scans, relid: u32, attnums: Seq<i16>, k: int)
    requires
        0 <= k < attnums.len(),
    ensures
        ({
            let names = names_from(c, relid, attnums, 0, Seq::empty());
            &&& names.len() == names_before(c, relid, attnums, attnums.len() as int)
            &&& name_of(c, relid, attnums[k]) matches Some(name) ==> names[names_before(
                c,
                relid,
                attnums,
                k,
            ) as int] == name
        }),
{
    lemma_names_in_order(c, relid, attnums, 0, Seq::empty(), k);
}

/// An index is over the first of its attribute numbers, as many as it has, in their order.
pub proof fn law_an_index_is_over_its_first_numbers(natts: int, numbers: Seq<i16>, k: int)
    requires
        natts <= numbers.len(),
    ensures
        first_attnums(natts, numbers).len() == if natts < 0 {
            0
        } else {
            natts
        },
        0 <= k < natts ==> first_attnums(natts, numbers)[k] == numbers[k],
{
}

// ---- what the statements say -----------------------------------------------------

/// The scan of a column counts the rows and the values of the leaf, and selects, as texts, minimum
/// and then maximum, or the range or the box that covers everything.
pub proof fn law_scans_count_and_bound(kind: ColumnKind, col: Seq<char>, leaf_name: Seq<char>)
    ensures
        ({
            let name = quoted(col, '"');
            let counts = "SELECT count(*)::bigint, count("@ + name + ")::bigint, "@;
            let from = " FROM "@ + leaf_name;
            stats_statement(kind, col, leaf_name) == match kind {
                ColumnKind::MinMax => counts + "min("@ + name + ")::text, max("@ + name
                    + ")::text"@ + from,
                ColumnKind::Range => counts + "range_merge(range_agg("@ + name
                    + "))::text, NULL::text"@ + from,
                ColumnKind::Geometry => counts + "ST_Extent("@ + name
                    + ")::geometry::text, NULL::text"@ + from,
            }
        }),
{
    reveal_strlit(")::text, max(");
    reveal_strlit(")::text");
    reveal_strlit(", ");
    reveal_strlit("max(");
    reveal_strlit("))::text, NULL::text");
    reveal_strlit("))::text");
    reveal_strlit("NULL::text");
    reveal_strlit(")::geometry::text, NULL::text");
    reveal_strlit(")::geometry::text");
    assert(")::text, max("@ =~= ")::text"@ + ", "@ + "max("@);
    assert("))::text, NULL::text"@ =~= "))::text"@ + ", "@ + "NULL::text"@);
    assert(")::geometry::text, NULL::text"@ =~= ")::geometry::text"@ + ", "@ + "NULL::text"@);
    let name = quoted(col, '"');
    let counts = "SELECT count(*)::bigint, count("@ + name + ")::bigint, "@;
    let from = " FROM "@ + leaf_name;
    match kind {
        ColumnKind::MinMax => {
            assert(stats_statement(kind, col, leaf_name) =~= counts + "min("@ + name
                + ")::text, max("@ + name + ")::text"@ + from);
        },
        ColumnKind::Range => {
            assert(stats_statement(kind, col, leaf_name) =~= counts + "range_merge(range_agg("@
                + name + "))::text, NULL::text"@ + from);
        },
        ColumnKind::Geometry => {
            assert(stats_statement(kind, col, leaf_name) =~= counts + "ST_Extent("@ + name
                + ")::geometry::text, NULL::text"@ + from);
        },
    }
}

/// The lookups of a building ask the catalog for the one relation and the one column that they are
/// about.
pub proof fn law_lookups_name_relation_and_column(relid: u32, col: Seq<char>, attnum: i16)
    ensures
        relation_name_statement(relid) == "SELECT "@ + decimal(relid as nat)
            + "::oid::regclass::text"@,
        attnum_statement(relid, col) == "SELECT attnum FROM pg_attribute WHERE attrelid = "@
            + decimal(relid as nat) + "::oid AND attname = "@ + literal(col)
            + " AND attnum > 0 AND NOT attisdropped"@,
        kind_statement(relid, col)
            == "SELECT format('%I.%I', n.nspname, t.typname) AS typename, t.typtype::text FROM pg_attribute a JOIN pg_type t ON t.oid = a.atttypid JOIN pg_namespace n ON n.oid = t.typnamespace WHERE a.attrelid = "@
            + decimal(relid as nat) + "::oid AND a.attname = "@ + literal(col)
            + " AND NOT a.attisdropped"@,
        column_name_statement(relid, attnum)
            == "SELECT attname::text FROM pg_attribute WHERE attrelid = "@ + decimal(relid as nat)
            + "::oid AND attnum = "@ + signed_decimal(attnum as int) + " AND NOT attisdropped"@,
{
}

/// The value of a digit's character.
pub open spec fn digit_value(c: char) -> Option<nat> {
    if c == '0' {
        Some(0)
    } else if c == '1' {
        Some(1)
    } else if c == '2' {
        Some(2)
    } else if c == '3' {
        Some(3)
    } else if c == '4' {
        Some(4)
    } else if c == '5' {
        Some(5)
    } else if c == '6' {
        Some(6)
    } else if c == '7' {
        Some(7)
    } else if c == '8' {
        Some(8)
    } else if c == '9' {
        Some(9)
    } else {
        None
    }
}

/// The number that a text of digits stands for.
pub open spec fn number_of(t: Seq<char>) -> Option<nat>
    decreases t.len(),
{
    if t.len() == 0 {
        Some(0)
    } else {
        match (number_of(t.drop_last()), digit_value(t.last())) {
            (Some(n), Some(d)) => Some(n * 10 + d),
            _ => None,
        }
    }
}

/// A number's decimal text stands for the number, and has no leading zero but zero's own; a
/// negative one has a minus sign in front.
pub proof fn law_decimals_read_back(n: nat)
    ensures
        number_of(decimal(n)) == Some(n),
        decimal(n).len() > 0,
        n > 0 ==> decimal(n)[0] != '0',
        signed_decimal(n as int) == decimal(n),
        n > 0 ==> signed_decimal(-(n as int)) == seq!['-'] + decimal(n),
    decreases n,
{
    let last = if n < 10 {
        n
    } else {
        n % 10
    };
    assert(digit_value(digit(last)) == Some(last)) by {
        assert(last == 0 || last == 1 || last == 2 || last == 3 || last == 4 || last == 5 || last
            == 6 || last == 7 || last == 8 || last == 9);
    }
    if n < 10 {
        assert(decimal(n).drop_last() =~= Seq::<char>::empty());
        assert(number_of(Seq::<char>::empty()) == Some(0nat));
        assert(n > 0 ==> digit(n) != '0');
    } else {
        law_decimals_read_back(n / 10);
        assert(decimal(n).drop_last() =~= decimal(n / 10));
        assert(decimal(n)[0] == decimal(n / 10)[0]);
    }
}

// ---- what is looked up, looked at and remembered ---------------------------------

/// A catalog's identifier names something exactly where it is not zero, and a strategy number is
/// one exactly where it is not zero.
pub proof fn law_zero_is_nothing(oid: u32, n: i32)
    ensures
        oid != 0 ==> named(oid) == Some(oid),
        named(0) is None,
        0 < n <= 32767 ==> strategy_found(n) == Some(n as i16),
        strategy_found(0) is None,
{
}

/// Eleven types name catalog objects: those of procedures, operators, relations, types, text search
/// configurations and dictionaries, schemas, roles and collations. All others are written by
/// themselves.
pub proof fn law_few_types_name_objects(typ: u32)
    ensures
        names_objects(typ) <==> seq![
            24u32,
            2202,
            2203,
            2204,
            2205,
            2206,
            3734,
            3769,
            4089,
            4096,
            4191,
        ].contains(typ),
{
    let all = seq![24u32, 2202, 2203, 2204, 2205, 2206, 3734, 3769, 4089, 4096, 4191];
    assert(all[0] == 24 && all[1] == 2202 && all[2] == 2203 && all[3] == 2204 && all[4] == 2205
        && all[5] == 2206 && all[6] == 3734 && all[7] == 3769 && all[8] == 4089 && all[9] == 4096
        && all[10] == 4191);
}

/// A relation is looked at exactly where pruning is on, no evaluation is under way, and it is a
/// table of the query, or a member of one, that has an identifier.
pub proof fn law_tables_are_looked_at_while_pruning_is_on(
    in_hook: bool,
    enabled: bool,
    kind: RelKind,
    is_table: bool,
    relid: u32,
)
    ensures
        !enabled || in_hook ==> !looked_at(
            in_hook,
            enabled,
            Some(RelationInfo { kind, is_table, relid }),
        ),
        enabled && !in_hook ==> (looked_at(
            in_hook,
            enabled,
            Some(RelationInfo { kind, is_table, relid }),
        ) <==> is_table && relid != 0 && (kind == RelKind::Base || kind == RelKind::OtherMember)),
        !looked_at(in_hook, enabled, None),
{
}

/// The line that is logged for a relation names the relation.
pub proof fn law_notices_name_the_relation(relid: u32)
    ensures
        prune_notice(relid) == "table_range: pruning partition relid="@ + decimal(relid as nat),
{
}

/// The index that holds a relation's summary is the first of the access method in the list; without
/// one of that method there is none.
pub proof fn law_the_first_index_counts(am: u32, indexes: Seq<IndexInfo>, i: int, k: int)
    requires
        0 <= i <= indexes.len(),
    ensures
        i <= k < indexes.len() && indexes[k].am == am && (forall|j: int|
            i <= j < k ==> (#[trigger] indexes[j]).am != am) ==> first_index(am, indexes, i)
            == Some(indexes[k].oid),
        (forall|j: int| i <= j < indexes.len() ==> (#[trigger] indexes[j]).am != am)
            ==> first_index(am, indexes, i) is None,
    decreases indexes.len() - i,
{
    if i < indexes.len() {
        assert(indexes[i].am == am || indexes[i].am != am);
        law_the_first_index_counts(am, indexes, i + 1, k);
    }
}

/// An outermost planner invocation knows nothing of an earlier one, and nested ones share what they
/// know.
pub proof fn law_new_invocations_know_nothing(m: PlanModel)
    ensures
        m.entered().depth == m.depth + 1,
        m.entered().in_hook == m.in_hook,
        m.depth == 0 ==> {
            let new = m.entered();
            &&& new.summaries =~= Map::<u32, Seq<ColModel>>::empty()
            &&& new.am_oid is None
            &&& new.strategies =~= Map::<(u32, u32), Option<i16>>::empty()
            &&& new.compare_procs =~= Map::<u32, Option<u32>>::empty()
            &&& new.cross_procs =~= Map::<(u32, u32), Option<u32>>::empty()
            &&& new.input_functions =~= Map::<u32, (u32, u32)>::empty()
            &&& new.constants =~= Map::<(u32, Seq<char>), u64>::empty()
        },
        m.depth > 0 ==> {
            let deeper = m.entered();
            &&& deeper.summaries == m.summaries
            &&& deeper.am_oid == m.am_oid
            &&& deeper.strategies == m.strategies
            &&& deeper.compare_procs == m.compare_procs
            &&& deeper.cross_procs == m.cross_procs
            &&& deeper.input_functions == m.input_functions
            &&& deeper.constants == m.constants
        },
        m.depth > 0 ==> m.left().depth == m.depth - 1,
        m.depth == 1 ==> {
            let over = m.left();
            &&& over.summaries =~= Map::<u32, Seq<ColModel>>::empty()
            &&& over.am_oid is None
            &&& over.strategies =~= Map::<(u32, u32), Option<i16>>::empty()
            &&& over.compare_procs =~= Map::<u32, Option<u32>>::empty()
            &&& over.cross_procs =~= Map::<(u32, u32), Option<u32>>::empty()
            &&& over.input_functions =~= Map::<u32, (u32, u32)>::empty()
            &&& over.constants =~= Map::<(u32, Seq<char>), u64>::empty()
        },
        PlanModel::empty().depth == 0,
        !PlanModel::empty().in_hook,
        PlanModel::empty().summaries =~= Map::<u32, Seq<ColModel>>::empty(),
{
}

/// An answer that was kept comes back for its question, and every other question is answered as
/// before: strategies, comparison procedures and the values of constants are looked up once.
pub proof fn law_kept_answers_come_back(
    s: Server,
    m: PlanModel,
    q: QuestionModel,
    a: Answer,
    other: QuestionModel,
)
    requires
        answers(s, q, a),
    ensures
        q is Strategy || q is CompareProc || q is CrossProc ==> remembered_answer(
            answer_kept(m, q, a),
            q,
        ) == Some(a),
        q is ParseConst ==> (a matches Answer::Constant(Some(_)) ==> remembered_answer(
            answer_kept(m, q, a),
            q,
        ) == Some(a)),
        other != q ==> remembered_answer(answer_kept(m, q, a), other) == remembered_answer(
            m,
            other,
        ),
{
}

// ---- what is cached --------------------------------------------------------------

/// A summary that is kept is served to every transaction that did not insert through the index, and
/// an insert or a delivery concerns no other index.
pub proof fn law_kept_summaries_are_served(
    m: CacheModel,
    i: u32,
    j: u32,
    summary: Seq<ColModel>,
    top: u32,
    later: u32,
    xid: u32,
)
    requires
        i != j,
        xid != 0,
        top != 0,
        later != top,
    ensures
        m.serves(i, top) ==> m.put(i, summary).lookup(i, top) == Some(summary),
        m.put(i, summary).lookup(j, top) == m.lookup(j, top),
        m.put(i, summary).noted(i, top, xid).lookup(i, top) is None,
        m.put(i, summary).noted(i, top, xid).lookup(i, later) == Some(summary),
        m.noted(i, top, xid).cached == m.cached,
        m.noted(i, top, 0) == m,
        m.serves(i, later) || m.top == later,
        m.top == top && m.xid == xid ==> m.noted(j, top, xid).serves(i, top) == m.serves(i, top),
        m.xid != xid ==> m.noted(j, top, xid).serves(i, top),
        CacheModel::empty().serves(i, top),
        CacheModel::empty().put(i, summary).noted(j, top, xid).lookup(i, top) == Some(summary),
        i != 0 && j != 0 ==> m.put(i, summary).dropped(i).lookup(i, top) is None,
        i != 0 && j != 0 ==> m.dropped(i).lookup(j, top) == m.lookup(j, top),
        m.dropped(0).lookup(j, top) is None,
{
}

/// An insert sends an invalidation exactly where it is the first through its index in its
/// subtransaction; without an identifier every one does.
pub proof fn law_first_inserts_send(m: CacheModel, i: u32, j: u32, top: u32, xid: u32, next: u32)
    requires
        i != j,
        xid != 0,
        next != xid,
    ensures
        !m.noted(i, top, xid).sends(i, xid),
        m.noted(i, top, xid).sends(i, next),
        m.noted(i, top, xid).sends(j, xid) == m.sends(j, xid),
        m.sends(i, 0),
        CacheModel::empty().sends(i, xid),
{
}

// ---- what is stored --------------------------------------------------------------

/// The two bytes of a number, the low one first.
pub open spec fn low_high(n: int) -> Seq<u8> {
    seq![(n % 256) as u8, (n / 256 % 256) as u8]
}

/// A text as it is stored: the number of its bytes, and the bytes.
pub open spec fn stored_text(t: Seq<char>) -> Seq<u8> {
    low_high(encode_utf8(t).len() as int) + encode_utf8(t)
}

/// A bound as it is stored: one byte that says whether there is one, and its text.
pub open spec fn stored_bound(b: Option<Seq<char>>) -> Seq<u8> {
    match b {
        Some(t) => seq![1u8] + stored_text(t),
        None => seq![0u8],
    }
}

/// A column as it is stored: attribute number, whether it is an extent, the null flags as bits, the
/// type's name, minimum and maximum.
pub open spec fn stored_column(c: ColModel) -> Seq<u8> {
    let extent: u8 = if c.overlap {
        1
    } else {
        0
    };
    let flags: u8 = match (c.has_nulls, c.all_nulls) {
        (false, false) => 0,
        (true, false) => 1,
        (false, true) => 2,
        (true, true) => 3,
    };
    low_high(c.attnum as int) + seq![extent, flags] + stored_text(c.sql_type) + stored_bound(c.min)
        + stored_bound(c.max)
}

/// A stored summary is the version, the number of columns, and each column in its order.
pub proof fn law_the_stored_form_is_laid_out(s: Seq<ColModel>, c: ColModel)
    ensures
        summary_bytes(Seq::empty()) =~= seq![1u8, 0u8, 0u8],
        summary_bytes(s).len() >= 3,
        summary_bytes(s)[0] == 1,
        summary_bytes(s).subrange(1, 3) == low_high(s.len() as int),
        summary_bytes(s.push(c)).skip(3) == summary_bytes(s).skip(3) + stored_column(c),
{
    assert(summary_bytes(s).subrange(1, 3) =~= low_high(s.len() as int));
    assert(s.push(c).drop_last() =~= s);
    assert(summary_bytes(s).skip(3) =~= cols_bytes(s));
    assert(summary_bytes(s.push(c)).skip(3) =~= cols_bytes(s.push(c)));
    assert(col_bytes(c) =~= stored_column(c));
}

/// A blob of another version, or of none, holds no summary.
pub proof fn law_other_versions_are_not_read(b: Seq<u8>)
    requires
        b.len() < 3 || b[0] != 1,
    ensures
        parse_summary(b) is None,
{
}

/// A page takes a blob of 64 bytes less than its block, behind four bytes of length in the
/// machine's order. Where these say nothing, or more than the page takes, it holds none.
pub proof fn law_pages_are_laid_out(format: PageFormat, page: Seq<u8>, data: Seq<u8>)
    requires
        format.valid(),
        page.len() >= 4 + format.capacity(),
        data.len() <= format.capacity(),
    ensures
        format.capacity() == format.block_size - 64,
        frame(format, data).len() == 4 + data.len(),
        frame(format, data).skip(4) == data,
        ({
            let n = data.len() as int;
            frame(format, data).take(4) == match format.order {
                ByteOrder::Little => low_high(n) + seq![0u8, 0u8],
                ByteOrder::Big => seq![0u8, 0u8, (n / 256) as u8, (n % 256) as u8],
            }
        }),
        ({
            let n = match format.order {
                ByteOrder::Little => page[0] + 256 * page[1] + 65536 * page[2] + 16777216 * page[3],
                ByteOrder::Big => page[3] + 256 * page[2] + 65536 * page[1] + 16777216 * page[0],
            };
            stored_blob(format, page) == if 0 < n <= format.block_size - 64 {
                Some(page.skip(4).take(n))
            } else {
                None
            }
        }),
{
    let n = data.len() as int;
    assert(n / 65536 == 0 && n / 16777216 == 0 && n / 256 < 256);
    assert(frame(format, data).skip(4) =~= data);
    match format.order {
        ByteOrder::Little => {
            assert(frame(format, data).take(4) =~= low_high(n) + seq![0u8, 0u8]);
        },
        ByteOrder::Big => {
            assert(frame(format, data).take(4) =~= seq![
                0u8,
                0u8,
                (n / 256) as u8,
                (n % 256) as u8,
            ]);
        },
    }
    if let Some(blob) = stored_blob(format, page) {
        assert(blob =~= page.skip(4).take(blob.len() as int));
    }
}

/// A summary is shown column by column, in their order, each with its own fields.
pub proof fn law_summaries_are_shown_field_by_field(
    cols: Seq<ColModel>,
    bounds: Seq<(String, String)>,
    n: nat,
)
    requires
        n < cols.len(),
        n < bounds.len(),
    ensures
        ({
            let c = cols[n as int];
            let shown = |b: bool|
                if b {
                    "true"@
                } else {
                    "false"@
                };
            let col = "attnum="@ + signed_decimal(c.attnum as int) + " overlap="@ + shown(c.overlap)
                + " min="@ + bounds[n as int].0@ + " max="@ + bounds[n as int].1@ + " has_nulls="@
                + shown(c.has_nulls) + " all_nulls="@ + shown(c.all_nulls);
            readable_cols(cols, bounds, n + 1) == if n == 0 {
                col
            } else {
                readable_cols(cols, bounds, n) + "; "@ + col
            }
        }),
{
}

} // verus!
