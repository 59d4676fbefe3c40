//! Why summaries stay over-inclusive: a summary that is built from a partition's rows covers
//! them, an insert widens it to cover the new row too (or takes a range out of it that cannot cover
//! the row), and a delete takes nothing away from it.

use vstd::prelude::*;
use crate::backend::{Answer, SelectionModel, INVALID_OID};
use crate::index_am::{
    column_widening, flags_of, geometry_type, insertion, merge_statement, widen_learned,
    IndexedAttr, InsertRun, InsertionModel, WidenFacts, WideningModel,
};
use crate::index_storage::{
    frame, law_replaced_summaries_read_back, opt_text, overwritten, replacement, stored_summary,
    summary_bytes, ColModel, PageFormat,
};
use crate::plan_state::PlanModel;
use crate::prune_hook::{position, Clause};
use crate::soundness::{
    all_true, all_typed, answers, between_texts, column, compared, covers, covers_value,
    families_order, inside, inside_extent, law_pruning_loses_no_row, literal, missing, orders,
    partition_covered, procs_order, range_values, read_back, relation_pruned, Server,
};
use crate::summary_build::{
    attnum_statement, column_build, column_name_statement, column_summary, kind_of, kind_statement,
    leaf_build, names_lookup, relation_name_statement, stats_statement, BuildAnswer, BuildModel,
    BuildQuestionModel, ColumnFacts, ColumnKind, ColumnModel, NamesModel, StatsRow, TypeRow,
};
use crate::summary_cache::{law_new_plans_see_every_row, CacheWorld, Coverage};

verus! {

// ---- what a widening comes down to -----------------------------------------------

/// Whether a text denotes the value that it was made of.
pub open spec fn reads_back(
    s: Server,
    typ: u32,
    proc: u32,
    collation: u32,
    text: Seq<char>,
    value: u64,
) -> bool {
    read_back(s, typ, proc, collation, text, value) == Some(0i32)
}

/// A range after an inserted value that is not null, and whether it counts as changed. Where the
/// value cannot be taken in, only the flags are left.
pub open spec fn widened_range(
    s: Server,
    col: ColModel,
    typ: u32,
    collation: u32,
    value: u64,
) -> (ColModel, bool) {
    let seen = ColModel { all_nulls: false, ..col };
    match (s.render)(typ, value) {
        None => (flags_of(seen), true),
        Some(new) => match ((s.compare_proc)(typ), range_values(s, col, typ)) {
            (None, _) => if col.min is Some && col.max is Some {
                (seen, col.all_nulls)
            } else {
                (ColModel { min: Some(new), max: Some(new), ..seen }, true)
            },
            (Some(proc), Some((_, a, b))) => {
                let below = (s.compare)(proc, collation, value, a) < 0;
                let above = (s.compare)(proc, collation, value, b) > 0;
                if !below && !above {
                    (seen, col.all_nulls)
                } else if reads_back(s, typ, proc, collation, new, value) {
                    let min = if below {
                        Some(new)
                    } else {
                        col.min
                    };
                    let max = if above {
                        Some(new)
                    } else {
                        col.max
                    };
                    (ColModel { min, max, ..seen }, true)
                } else {
                    (flags_of(seen), true)
                }
            },
            (Some(proc), None) => if (col.min is None || col.max is None) && reads_back(
                s,
                typ,
                proc,
                collation,
                new,
                value,
            ) {
                (ColModel { min: Some(new), max: Some(new), ..seen }, true)
            } else {
                (flags_of(seen), true)
            },
        },
    }
}

/// An extent after an inserted value that is not null, and whether it counts as changed. Where the
/// value cannot be taken in, only the flags are left.
pub open spec fn widened_extent(s: Server, col: ColModel, typ: u32, value: u64) -> (
    ColModel,
    bool,
) {
    let seen = ColModel { all_nulls: false, ..col };
    if col.sql_type.len() == 0 {
        (seen, col.all_nulls)
    } else {
        match (s.render)(typ, value) {
            None => (flags_of(seen), true),
            Some(new) => match (s.select_text)(merge_statement(col.min, new, col.sql_type)) {
                SelectionModel::Failed => (flags_of(seen), true),
                SelectionModel::Null => (seen, col.all_nulls),
                SelectionModel::Text(extent) => (
                    ColModel { min: Some(extent), ..seen },
                    col.all_nulls || col.min != Some(extent),
                ),
            },
        }
    }
}

/// A column's summary after an inserted value, and whether it counts as changed.
pub open spec fn widened(
    s: Server,
    col: ColModel,
    typ: u32,
    collation: u32,
    value: u64,
    isnull: bool,
) -> (ColModel, bool) {
    if isnull {
        (ColModel { has_nulls: true, ..col }, !col.has_nulls)
    } else if col.overlap {
        widened_extent(s, col, typ, value)
    } else {
        widened_range(s, col, typ, collation, value)
    }
}

/// What is known for a widening is what the server says.
pub open spec fn widen_agrees(
    s: Server,
    col: ColModel,
    typ: u32,
    collation: u32,
    value: u64,
    f: WidenFacts,
) -> bool {
    &&& f.text matches Some(x) ==> opt_text(x) == (s.render)(typ, value)
    &&& f.proc matches Some(x) ==> x == (s.compare_proc)(typ)
    &&& f.min matches Some(x) ==> col.min matches Some(lo) && x == (s.parse)(typ, lo)
    &&& f.max matches Some(x) ==> col.max matches Some(hi) && x == (s.parse)(typ, hi)
    &&& f.below matches Some(x) ==> range_values(s, col, typ) matches Some((proc, a, b)) && x == (
    s.compare)(proc, collation, value, a)
    &&& f.above matches Some(x) ==> range_values(s, col, typ) matches Some((proc, a, b)) && x == (
    s.compare)(proc, collation, value, b)
    &&& f.back matches Some(x) ==> (s.render)(typ, value) matches Some(new) && (s.compare_proc)(
        typ,
    ) matches Some(proc) && x == read_back(s, typ, proc, collation, new, value)
    &&& f.merged matches Some(x) ==> (s.render)(typ, value) matches Some(new) && x@ == (
    s.select_text)(merge_statement(col.min, new, col.sql_type))
}

/// How many questions a widening can still ask.
pub open spec fn widen_questions(f: WidenFacts) -> int {
    missing(f.text) + missing(f.proc) + missing(f.min) + missing(f.max) + missing(f.below)
        + missing(f.above) + missing(f.back) + missing(f.merged)
}

/// A widening that was carried out on a server's answers is the one that they determine.
pub proof fn law_widenings_are_the_servers(
    s: Server,
    col: ColModel,
    typ: u32,
    collation: u32,
    value: u64,
    isnull: bool,
    f: WidenFacts,
)
    requires
        widen_agrees(s, col, typ, collation, value, f),
    ensures
        column_widening(col, typ, collation, value, isnull, f) matches WideningModel::Done(c, b)
            ==> (c, b) == widened(s, col, typ, collation, value, isnull),
{
}

/// The server's answer to a question that a widening asked keeps what is known in agreement with
/// the server, and leaves fewer questions.
pub proof fn law_widenings_end(
    s: Server,
    col: ColModel,
    typ: u32,
    collation: u32,
    value: u64,
    isnull: bool,
    f: WidenFacts,
    a: Answer,
)
    requires
        widen_agrees(s, col, typ, collation, value, f),
        column_widening(col, typ, collation, value, isnull, f) matches WideningModel::Ask(q)
            && answers(s, q, a),
    ensures
        widen_agrees(s, col, typ, collation, value, widen_learned(f, a)),
        0 <= widen_questions(widen_learned(f, a)) < widen_questions(f),
{
}

/// The columns after one attribute's value was taken in, and whether anything counts as changed.
pub open spec fn taken_in(s: Server, cols: Seq<ColModel>, a: IndexedAttr) -> (Seq<ColModel>, bool) {
    let p = position(cols, a.attnum);
    if 0 <= p < cols.len() {
        let (col, changed) = widened(s, cols[p], a.typ, a.collation, a.value, a.isnull);
        (cols.update(p, col), changed)
    } else {
        (cols, false)
    }
}

/// The columns after a row was inserted, from the `i`-th attribute on, and whether anything
/// counts as changed.
pub open spec fn inserted(
    s: Server,
    cols: Seq<ColModel>,
    attrs: Seq<IndexedAttr>,
    i: int,
    changed: bool,
) -> (Seq<ColModel>, bool)
    decreases attrs.len() - i,
{
    if 0 <= i < attrs.len() {
        let (next, more) = taken_in(s, cols, attrs[i]);
        inserted(s, next, attrs, i + 1, changed || more)
    } else {
        (cols, changed)
    }
}

/// What is known for the attribute under way is what the server says.
pub open spec fn insert_agrees(
    s: Server,
    cols: Seq<ColModel>,
    attrs: Seq<IndexedAttr>,
    run: InsertRun,
) -> bool {
    run.at < attrs.len() ==> {
        let a = attrs[run.at as int];
        let p = position(cols, a.attnum);
        0 <= p < cols.len() ==> widen_agrees(
            s,
            cols[p],
            a.typ,
            a.collation,
            a.value,
            run.facts,
        )
    }
}

/// The widening of a summary for a row is the one that the server's answers determine: where it
/// is done, and as much of it as is done where it asks. It ends: every question is about the same
/// attribute, with fewer questions left, or about a later one.
pub proof fn law_insertions_are_the_servers(
    s: Server,
    cols: Seq<ColModel>,
    attrs: Seq<IndexedAttr>,
    run: InsertRun,
)
    requires
        attrs.len() <= usize::MAX,
        insert_agrees(s, cols, attrs, run),
    ensures
        ({
            let (cols2, run2, outcome) = insertion(cols, attrs, run);
            match outcome {
                InsertionModel::Done(b) => (cols2, b) == inserted(
                    s,
                    cols,
                    attrs,
                    run.at as int,
                    run.changed,
                ),
                InsertionModel::Ask(q) => {
                    &&& inserted(s, cols2, attrs, run2.at as int, run2.changed) == inserted(
                        s,
                        cols,
                        attrs,
                        run.at as int,
                        run.changed,
                    )
                    &&& insert_agrees(s, cols2, attrs, run2)
                    &&& run.at <= run2.at
                    &&& run.at == run2.at ==> run2.facts == run.facts
                    &&& forall|a: Answer| #[trigger]
                        answers(s, q, a) ==> insert_agrees(
                            s,
                            cols2,
                            attrs,
                            InsertRun { facts: widen_learned(run2.facts, a), ..run2 },
                        ) && 0 <= widen_questions(widen_learned(run2.facts, a)) < widen_questions(
                            run2.facts,
                        )
                },
            }
        }),
    decreases attrs.len() - run.at,
{
    if run.at < attrs.len() {
        let a = attrs[run.at as int];
        let p = position(cols, a.attnum);
        if 0 <= p < cols.len() {
            match column_widening(cols[p], a.typ, a.collation, a.value, a.isnull, run.facts) {
                WideningModel::Ask(q) => {
                    assert forall|answer: Answer| #[trigger] answers(s, q, answer) implies
                        insert_agrees(
                            s,
                            cols,
                            attrs,
                            InsertRun { facts: widen_learned(run.facts, answer), ..run },
                        ) && 0 <= widen_questions(widen_learned(run.facts, answer))
                        < widen_questions(run.facts) by {
                        law_widenings_end(
                            s,
                            cols[p],
                            a.typ,
                            a.collation,
                            a.value,
                            a.isnull,
                            run.facts,
                            answer,
                        );
                    }
                },
                WideningModel::Done(col, more) => {
                    law_widenings_are_the_servers(
                        s,
                        cols[p],
                        a.typ,
                        a.collation,
                        a.value,
                        a.isnull,
                        run.facts,
                    );
                    law_insertions_are_the_servers(
                        s,
                        cols.update(p, col),
                        attrs,
                        run.passed(more),
                    );
                },
            }
        } else {
            law_insertions_are_the_servers(s, cols, attrs, run.passed(false));
        }
    }
}

// ---- one value -------------------------------------------------------------------

/// A text as a value of a type.
pub open spec fn cast_text(t: Seq<char>, sql_type: Seq<char>) -> Seq<char> {
    "CAST("@ + literal(t) + " AS "@ + sql_type + ")"@
}

/// A type that is called `geometry`, with or without a schema.
pub open spec fn named_geometry(sql_type: Seq<char>) -> bool {
    sql_type == "geometry"@ || exists|schema: Seq<char>| sql_type == #[trigger] (schema
        + ".geometry"@)
}

/// The statement that merges a value into an extent: by `ST_Extent` over all that is to be covered
/// for geometry, by `range_merge` for ranges. Without an extent, the value's own is selected.
pub open spec fn merge_text(extent: Option<Seq<char>>, new: Seq<char>, sql_type: Seq<char>) -> Seq<
    char,
> {
    let value = cast_text(new, sql_type);
    if named_geometry(sql_type) {
        match extent {
            Some(e) => "SELECT ST_Extent(g)::geometry::text FROM (VALUES ("@ + cast_text(
                e,
                sql_type,
            ) + "), ("@ + value + ")) v(g)"@,
            None => "SELECT ST_Extent(g)::geometry::text FROM (VALUES ("@ + value + ")) v(g)"@,
        }
    } else {
        match extent {
            Some(e) => "SELECT range_merge("@ + cast_text(e, sql_type) + ", "@ + value
                + ")::text"@,
            None => "SELECT "@ + value + "::text"@,
        }
    }
}

/// The types that are taken for geometry are those called so, with or without a schema.
pub proof fn law_geometry_is_told_by_its_name(sql_type: Seq<char>)
    ensures
        geometry_type(sql_type) <==> named_geometry(sql_type),
{
    let suffix = ".geometry"@;
    if geometry_type(sql_type) && sql_type != "geometry"@ {
        let schema = sql_type.take(sql_type.len() - suffix.len());
        assert(sql_type.subrange(sql_type.len() - suffix.len(), sql_type.len() as int) == suffix);
        assert(sql_type =~= schema + suffix);
    }
    if named_geometry(sql_type) && sql_type != "geometry"@ {
        let schema = choose|schema: Seq<char>| sql_type == #[trigger] (schema + suffix);
        assert(sql_type.subrange(sql_type.len() - suffix.len(), sql_type.len() as int) =~= suffix);
    }
}

/// The statement of a merge names the extent, where there is one, and the value, each cast to the
/// column's type, for all types.
pub proof fn law_merges_name_extent_and_value(
    extent: Option<Seq<char>>,
    new: Seq<char>,
    sql_type: Seq<char>,
)
    ensures
        merge_statement(extent, new, sql_type) == merge_text(extent, new, sql_type),
{
    law_geometry_is_told_by_its_name(sql_type);
    assert(merge_statement(extent, new, sql_type) =~= merge_text(extent, new, sql_type));
}

/// The server merges extents: the text that it selects for an extent and a value is disjoint from
/// less than the extent was, and from nothing that the value overlaps. Where it selects null, the
/// value overlaps nothing that the extent is disjoint from already.
pub open spec fn merges_cover(s: Server) -> bool {
    forall|extent: Option<Seq<char>>, sql_type: Seq<char>, typ: u32, v: u64, new: Seq<char>|
        #![trigger (s.render)(typ, v), merge_text(extent, new, sql_type)]
        (s.render)(typ, v) == Some(new) ==> match (s.select_text)(
            merge_text(extent, new, sql_type),
        ) {
            SelectionModel::Text(e) => {
                &&& inside_extent(s, Some(e), sql_type, v)
                &&& forall|u: u64| #[trigger]
                    inside_extent(s, extent, sql_type, u) ==> inside_extent(
                        s,
                        Some(e),
                        sql_type,
                        u,
                    )
            },
            SelectionModel::Null => inside_extent(s, extent, sql_type, v),
            SelectionModel::Failed => true,
        }
}

/// A widening covers the value that it is for and everything that was covered before.
pub proof fn law_widening_covers(
    s: Server,
    col: ColModel,
    typ: u32,
    collation: u32,
    value: u64,
    isnull: bool,
    other: Option<u64>,
)
    requires
        procs_order(s),
        merges_cover(s),
    ensures
        ({
            let (after, changed) = widened(s, col, typ, collation, value, isnull);
            &&& covers_value(
                s,
                after,
                typ,
                collation,
                if isnull {
                    None
                } else {
                    Some(value)
                },
            )
            &&& covers_value(s, col, typ, collation, other) ==> covers_value(
                s,
                after,
                typ,
                collation,
                other,
            )
            &&& after.attnum == col.attnum
            &&& !changed ==> after == col
        }),
{
    let (after, changed) = widened(s, col, typ, collation, value, isnull);
    if !isnull && col.overlap {
        if let Some(new) = (s.render)(typ, value) {
            law_merges_name_extent_and_value(col.min, new, col.sql_type);
        }
    }
    if !isnull && !col.overlap && (s.compare_proc)(typ) is Some {
        let proc = (s.compare_proc)(typ)->0;
        assert(orders(s, (s.compare_proc)(typ)->0, collation));
        lemma_sides(s, proc, collation, value, value);
        if let Some(new) = (s.render)(typ, value) {
            if let Some(w) = (s.parse)(typ, new) {
                lemma_sides(s, proc, collation, w, value);
            }
        }
        if let Some((_, a, b)) = range_values(s, col, typ) {
            lemma_sides(s, proc, collation, value, a);
            lemma_sides(s, proc, collation, value, b);
        }
    }
    if !changed {
        assert(after =~= col);
    }
}

/// The two ways of comparing two values.
proof fn lemma_sides(s: Server, proc: u32, collation: u32, x: u64, y: u64)
    requires
        orders(s, proc, collation),
    ensures
        compared(s, proc, collation, x, y) == (s.compare)(proc, collation, x, y),
        compared(s, proc, collation, x, y) < 0 <==> compared(s, proc, collation, y, x) > 0,
        compared(s, proc, collation, y, x) < 0 <==> compared(s, proc, collation, x, y) > 0,
        x == y ==> compared(s, proc, collation, x, y) == 0,
{
}

/// The server merges a value into an extent that already has it without any change.
pub open spec fn merges_settle(s: Server) -> bool {
    forall|extent: Option<Seq<char>>, new: Seq<char>, sql_type: Seq<char>| #[trigger]
        (s.select_text)(merge_text(extent, new, sql_type)) matches SelectionModel::Text(e) ==> (
        s.select_text)(merge_text(Some(e), new, sql_type)) == SelectionModel::Text(e)
}

/// Taking the same value in twice changes nothing the second time.
pub proof fn law_second_time_changes_nothing(
    s: Server,
    col: ColModel,
    typ: u32,
    collation: u32,
    value: u64,
    isnull: bool,
)
    requires
        procs_order(s),
        col.overlap ==> merges_settle(s),
    ensures
        ({
            let after = widened(s, col, typ, collation, value, isnull).0;
            widened(s, after, typ, collation, value, isnull) == (after, false)
        }),
{
    let after = widened(s, col, typ, collation, value, isnull).0;
    if isnull {
        assert((ColModel { has_nulls: true, ..after }) =~= after);
    } else if !col.overlap {
        if (s.compare_proc)(typ) is Some {
            let proc = (s.compare_proc)(typ)->0;
            assert(orders(s, (s.compare_proc)(typ)->0, collation));
            if let Some(new) = (s.render)(typ, value) {
                if let Some(w) = (s.parse)(typ, new) {
                    lemma_sides(s, proc, collation, w, value);
                    lemma_sides(s, proc, collation, value, w);
                }
            }
        }
        assert((ColModel { all_nulls: false, ..after }) =~= after);
    } else {
        if let Some(new) = (s.render)(typ, value) {
            law_merges_name_extent_and_value(col.min, new, col.sql_type);
            law_merges_name_extent_and_value(after.min, new, col.sql_type);
        }
        assert((ColModel { all_nulls: false, ..after }) =~= after);
    }
}

/// The flags agree: where all values are null there are nulls.
pub open spec fn flags_agree(col: ColModel) -> bool {
    col.all_nulls ==> col.has_nulls
}

/// The flags of every column agree.
pub open spec fn all_flags_agree(cols: Seq<ColModel>) -> bool {
    forall|i: int| 0 <= i < cols.len() ==> flags_agree(#[trigger] cols[i])
}

/// The flags agree in every summary that is built.
pub proof fn law_built_flags_agree(
    attnum: i16,
    kind: ColumnKind,
    sql_type: Seq<char>,
    stats: Option<StatsRow>,
)
    ensures
        flags_agree(column_summary(attnum, kind, sql_type, stats)),
{
}

/// Every step of an insertion keeps the flags in agreement, whatever the server answers.
pub proof fn law_insertions_keep_flags_in_agreement(
    cols: Seq<ColModel>,
    attrs: Seq<IndexedAttr>,
    run: InsertRun,
)
    requires
        all_flags_agree(cols),
    ensures
        all_flags_agree(insertion(cols, attrs, run).0),
    decreases attrs.len() - run.at,
{
    if run.at < attrs.len() && run.at < usize::MAX {
        let a = attrs[run.at as int];
        let p = position(cols, a.attnum);
        if 0 <= p < cols.len() {
            match column_widening(cols[p], a.typ, a.collation, a.value, a.isnull, run.facts) {
                WideningModel::Ask(_) => {},
                WideningModel::Done(col, changed) => {
                    assert(flags_agree(cols[p]));
                    law_insertions_keep_flags_in_agreement(
                        cols.update(p, col),
                        attrs,
                        run.passed(changed),
                    );
                },
            }
        } else {
            law_insertions_keep_flags_in_agreement(cols, attrs, run.passed(false));
        }
    }
}

/// A value that a readable range already covers changes nothing.
pub proof fn law_covered_values_change_nothing(
    s: Server,
    col: ColModel,
    typ: u32,
    collation: u32,
    value: u64,
    isnull: bool,
)
    requires
        covers_value(
            s,
            col,
            typ,
            collation,
            if isnull {
                None
            } else {
                Some(value)
            },
        ),
        !isnull ==> !col.overlap && (s.render)(typ, value) is Some && range_values(s, col, typ)
            is Some,
        procs_order(s),
    ensures
        widened(s, col, typ, collation, value, isnull) == (col, false),
{
    if !isnull {
        let (proc, a, b) = range_values(s, col, typ)->0;
        assert(orders(s, (s.compare_proc)(typ)->0, collation));
        lemma_sides(s, proc, collation, value, a);
        lemma_sides(s, proc, collation, value, b);
        assert((ColModel { all_nulls: false, ..col }) =~= col);
    } else {
        assert((ColModel { has_nulls: true, ..col }) =~= col);
    }
}

// ---- a partition -----------------------------------------------------------------

/// The attribute values are those of a row, under the columns' types and collations.
pub open spec fn attrs_of_row(
    attrs: Seq<IndexedAttr>,
    columns: spec_fn(i16) -> Option<(u32, u32)>,
    row: Map<i16, u64>,
) -> bool {
    forall|k: int|
        0 <= k < attrs.len() ==> {
            let a = #[trigger] attrs[k];
            &&& columns(a.attnum) matches Some(tc) ==> tc == (a.typ, a.collation)
            &&& a.isnull <==> column(row, a.attnum) is None
            &&& !a.isnull ==> column(row, a.attnum) == Some(a.value)
        }
}

/// Every summarised column is among the attributes.
pub open spec fn all_listed(rows: Seq<ColModel>, attrs: Seq<IndexedAttr>) -> bool {
    forall|i: int|
        0 <= i < rows.len() ==> exists|k: int|
            0 <= k < attrs.len() && (#[trigger] attrs[k]).attnum == (#[trigger] rows[i]).attnum
}

proof fn lemma_position(cols: Seq<ColModel>, attnum: i16)
    ensures
        0 <= position(cols, attnum) <= cols.len(),
        position(cols, attnum) < cols.len() ==> cols[position(cols, attnum)].attnum == attnum,
        forall|i: int|
            0 <= i < cols.len() && (#[trigger] cols[i]).attnum == attnum ==> position(cols, attnum)
                <= i,
    decreases cols.len(),
{
    if cols.len() > 0 && cols[0].attnum != attnum {
        let tail = cols.skip(1);
        lemma_position(tail, attnum);
        assert forall|i: int| 0 <= i < cols.len() && (#[trigger] cols[i]).attnum == attnum implies
            position(cols, attnum) <= i by {
            assert(tail[i - 1].attnum == attnum);
        }
    }
}

/// Widening a column leaves every column in its place.
proof fn lemma_updated_position(cols: Seq<ColModel>, p: int, col: ColModel, attnum: i16)
    requires
        0 <= p < cols.len(),
        col.attnum == cols[p].attnum,
    ensures
        position(cols.update(p, col), attnum) == position(cols, attnum),
    decreases cols.len(),
{
    if cols[0].attnum != attnum {
        if p > 0 {
            assert(cols.update(p, col).skip(1) =~= cols.skip(1).update(p - 1, col));
            lemma_updated_position(cols.skip(1), p - 1, col, attnum);
        } else {
            assert(cols.update(p, col).skip(1) =~= cols.skip(1));
        }
    }
}

/// The first `k` attributes of the new row are covered, in the columns that have them.
spec fn covered_up_to(
    s: Server,
    cols: Seq<ColModel>,
    columns: spec_fn(i16) -> Option<(u32, u32)>,
    row: Map<i16, u64>,
    attrs: Seq<IndexedAttr>,
    k: int,
) -> bool {
    forall|i: int, j: int|
        0 <= i < cols.len() && 0 <= j < k && position(cols, (#[trigger] cols[i]).attnum) == i && (
        #[trigger] attrs[j]).attnum == cols[i].attnum ==> {
            &&& columns(cols[i].attnum) matches Some((typ, collation)) && covers_value(
                s,
                cols[i],
                typ,
                collation,
                column(row, cols[i].attnum),
            )
        }
}

#[verifier::spinoff_prover]
proof fn lemma_insert_step(
    s: Server,
    cols: Seq<ColModel>,
    columns: spec_fn(i16) -> Option<(u32, u32)>,
    data: Seq<Map<i16, u64>>,
    row: Map<i16, u64>,
    attrs: Seq<IndexedAttr>,
    k: int,
)
    requires
        procs_order(s),
        merges_cover(s),
        0 <= k < attrs.len(),
        attrs_of_row(attrs, columns, row),
        all_listed(cols, attrs),
        partition_covered(s, cols, columns, data),
        covered_up_to(s, cols, columns, row, attrs, k),
    ensures
        ({
            let next = taken_in(s, cols, attrs[k]).0;
            &&& partition_covered(s, next, columns, data)
            &&& covered_up_to(s, next, columns, row, attrs, k + 1)
            &&& all_listed(next, attrs)
        }),
{
    let a = attrs[k];
    let p = position(cols, a.attnum);
    let next = taken_in(s, cols, a).0;
    lemma_position(cols, a.attnum);
    if p < cols.len() {
        let col = cols[p];
        let after = widened(s, col, a.typ, a.collation, a.value, a.isnull).0;
        law_widening_covers(s, col, a.typ, a.collation, a.value, a.isnull, None);
        assert(covers(s, col, columns, data));
        let (typ, collation) = columns(col.attnum)->0;
        assert((typ, collation) == (a.typ, a.collation));
        assert forall|i: int| 0 <= i < next.len() implies position(
            next,
            (#[trigger] next[i]).attnum,
        ) == position(cols, cols[i].attnum) && cols[i].attnum == next[i].attnum by {
            lemma_updated_position(cols, p, after, next[i].attnum);
        }
        assert forall|i: int|
            0 <= i < next.len() && position(next, (#[trigger] next[i]).attnum)
                == i implies covers(s, next[i], columns, data) by {
            assert(covers(s, cols[i], columns, data));
            if i == p {
                assert forall|j: int| 0 <= j < data.len() implies covers_value(
                    s,
                    after,
                    typ,
                    collation,
                    column(#[trigger] data[j], after.attnum),
                ) by {
                    law_widening_covers(
                        s,
                        col,
                        typ,
                        collation,
                        a.value,
                        a.isnull,
                        column(data[j], col.attnum),
                    );
                }
            }
        }
        assert forall|i: int, j: int|
            0 <= i < next.len() && 0 <= j < k + 1 && position(next, (#[trigger] next[i]).attnum)
                == i && (#[trigger] attrs[j]).attnum == next[i].attnum implies {
            &&& columns(next[i].attnum) matches Some((typ, collation)) && covers_value(
                s,
                next[i],
                typ,
                collation,
                column(row, next[i].attnum),
            )
        } by {
            if i != p {
                assert(next[i] == cols[i]);
                if j == k {
                    assert(position(next, next[i].attnum) == position(cols, a.attnum));
                }
            }
        }
        assert forall|i: int| 0 <= i < next.len() implies exists|j: int|
            0 <= j < attrs.len() && (#[trigger] attrs[j]).attnum == (#[trigger] next[i]).attnum by {
            assert(cols[i].attnum == next[i].attnum);
        }
    } else {
        assert forall|i: int, j: int|
            0 <= i < cols.len() && 0 <= j < k + 1 && position(cols, (#[trigger] cols[i]).attnum)
                == i && (#[trigger] attrs[j]).attnum == cols[i].attnum implies {
            &&& columns(cols[i].attnum) matches Some((typ, collation)) && covers_value(
                s,
                cols[i],
                typ,
                collation,
                column(row, cols[i].attnum),
            )
        } by {
            assert(j != k);
        }
    }
}

proof fn lemma_insert(
    s: Server,
    cols: Seq<ColModel>,
    columns: spec_fn(i16) -> Option<(u32, u32)>,
    data: Seq<Map<i16, u64>>,
    row: Map<i16, u64>,
    attrs: Seq<IndexedAttr>,
    k: int,
    changed: bool,
)
    requires
        procs_order(s),
        merges_cover(s),
        0 <= k <= attrs.len(),
        attrs_of_row(attrs, columns, row),
        all_listed(cols, attrs),
        partition_covered(s, cols, columns, data),
        covered_up_to(s, cols, columns, row, attrs, k),
    ensures
        ({
            let after = inserted(s, cols, attrs, k, changed).0;
            &&& partition_covered(s, after, columns, data)
            &&& covered_up_to(s, after, columns, row, attrs, attrs.len() as int)
            &&& all_listed(after, attrs)
        }),
    decreases attrs.len() - k,
{
    if k < attrs.len() {
        lemma_insert_step(s, cols, columns, data, row, attrs, k);
        let (next, more) = taken_in(s, cols, attrs[k]);
        lemma_insert(s, next, columns, data, row, attrs, k + 1, changed || more);
    }
}

/// An insert keeps the partition covered: the summary that [`inserted`] gives covers all the old
/// rows and the new one in every column that it has, without any rebuild. Whatever the server says
/// to the values of the row, no column is left narrower than the data.
pub proof fn law_insert_keeps_coverage(
    s: Server,
    rows: Seq<ColModel>,
    columns: spec_fn(i16) -> Option<(u32, u32)>,
    data: Seq<Map<i16, u64>>,
    row: Map<i16, u64>,
    attrs: Seq<IndexedAttr>,
)
    requires
        partition_covered(s, rows, columns, data),
        attrs_of_row(attrs, columns, row),
        all_listed(rows, attrs),
        procs_order(s),
        merges_cover(s),
    ensures
        partition_covered(s, inserted(s, rows, attrs, 0, false).0, columns, data.push(row)),
{
    let after = inserted(s, rows, attrs, 0, false).0;
    lemma_insert(s, rows, columns, data, row, attrs, 0, false);
    let more = data.push(row);
    assert forall|i: int|
        0 <= i < after.len() && position(after, (#[trigger] after[i]).attnum) == i implies covers(
        s,
        after[i],
        columns,
        more,
    ) by {
        assert(covers(s, after[i], columns, data));
        let k = choose|k: int|
            0 <= k < attrs.len() && (#[trigger] attrs[k]).attnum == after[i].attnum;
        assert(attrs[k].attnum == after[i].attnum);
        let (typ, collation) = columns(after[i].attnum)->0;
        assert forall|j: int| 0 <= j < more.len() implies covers_value(
            s,
            after[i],
            typ,
            collation,
            column(#[trigger] more[j], after[i].attnum),
        ) by {
            if j < data.len() {
                assert(more[j] == data[j]);
            }
        }
    }
}

proof fn lemma_unchanged(
    s: Server,
    cols: Seq<ColModel>,
    attrs: Seq<IndexedAttr>,
    i: int,
    changed: bool,
)
    ensures
        !inserted(s, cols, attrs, i, changed).1 ==> !changed && inserted(
            s,
            cols,
            attrs,
            i,
            changed,
        ).0 == cols,
    decreases attrs.len() - i,
{
    if 0 <= i < attrs.len() {
        let a = attrs[i];
        let p = position(cols, a.attnum);
        let (next, more) = taken_in(s, cols, a);
        lemma_unchanged(s, next, attrs, i + 1, changed || more);
        if 0 <= p < cols.len() && !more {
            let (col, _) = widened(s, cols[p], a.typ, a.collation, a.value, a.isnull);
            assert(col =~= cols[p]);
            assert(next =~= cols);
        }
    }
}

/// An insert that counts as no change has left the summary as it was: nothing needs to be
/// written.
pub proof fn law_unchanged_is_as_before(s: Server, cols: Seq<ColModel>, attrs: Seq<IndexedAttr>)
    ensures
        !inserted(s, cols, attrs, 0, false).1 ==> inserted(s, cols, attrs, 0, false).0 == cols,
{
    lemma_unchanged(s, cols, attrs, 0, false);
}

/// Taking a value in changes nothing: its column has no summary, or has taken it in already.
pub open spec fn settled(s: Server, cols: Seq<ColModel>, a: IndexedAttr) -> bool {
    let p = position(cols, a.attnum);
    0 <= p < cols.len() ==> widened(s, cols[p], a.typ, a.collation, a.value, a.isnull) == (
        cols[p],
        false,
    )
}

proof fn lemma_taking_in_settles(
    s: Server,
    cols: Seq<ColModel>,
    attrs: Seq<IndexedAttr>,
    k: int,
)
    requires
        procs_order(s),
        merges_settle(s),
        0 <= k < attrs.len(),
        forall|i: int, j: int|
            0 <= i < attrs.len() && 0 <= j < attrs.len() && (#[trigger] attrs[i]).attnum == (
            #[trigger] attrs[j]).attnum ==> attrs[i] == attrs[j],
        forall|j: int| 0 <= j < k ==> settled(s, cols, #[trigger] attrs[j]),
    ensures
        forall|j: int|
            0 <= j < k + 1 ==> settled(s, taken_in(s, cols, attrs[k]).0, #[trigger] attrs[j]),
{
    let a = attrs[k];
    let p = position(cols, a.attnum);
    let next = taken_in(s, cols, a).0;
    lemma_position(cols, a.attnum);
    assert forall|j: int| 0 <= j < k + 1 implies settled(s, next, #[trigger] attrs[j]) by {
        let b = attrs[j];
        lemma_position(cols, b.attnum);
        lemma_position(next, b.attnum);
        if p < cols.len() {
            let col = widened(s, cols[p], a.typ, a.collation, a.value, a.isnull).0;
            assert(col.attnum == cols[p].attnum);
            lemma_updated_position(cols, p, col, b.attnum);
            law_second_time_changes_nothing(s, cols[p], a.typ, a.collation, a.value, a.isnull);
            if b.attnum != a.attnum {
                assert(settled(s, cols, b));
            } else {
                assert(attrs[k].attnum == attrs[j].attnum);
            }
        } else if b.attnum != a.attnum {
            assert(settled(s, cols, b));
        }
    }
}

proof fn lemma_insert_settles(
    s: Server,
    cols: Seq<ColModel>,
    attrs: Seq<IndexedAttr>,
    k: int,
    changed: bool,
)
    requires
        procs_order(s),
        merges_settle(s),
        0 <= k <= attrs.len(),
        forall|i: int, j: int|
            0 <= i < attrs.len() && 0 <= j < attrs.len() && (#[trigger] attrs[i]).attnum == (
            #[trigger] attrs[j]).attnum ==> attrs[i] == attrs[j],
        forall|j: int| 0 <= j < k ==> settled(s, cols, #[trigger] attrs[j]),
    ensures
        forall|j: int|
            0 <= j < attrs.len() ==> settled(
                s,
                inserted(s, cols, attrs, k, changed).0,
                #[trigger] attrs[j],
            ),
    decreases attrs.len() - k,
{
    if k < attrs.len() {
        lemma_taking_in_settles(s, cols, attrs, k);
        let (next, more) = taken_in(s, cols, attrs[k]);
        lemma_insert_settles(s, next, attrs, k + 1, changed || more);
    }
}

proof fn lemma_settled_stays(s: Server, cols: Seq<ColModel>, attrs: Seq<IndexedAttr>, k: int)
    requires
        0 <= k <= attrs.len(),
        forall|j: int| 0 <= j < attrs.len() ==> settled(s, cols, #[trigger] attrs[j]),
    ensures
        inserted(s, cols, attrs, k, false) == (cols, false),
    decreases attrs.len() - k,
{
    if k < attrs.len() {
        assert(settled(s, cols, attrs[k]));
        let p = position(cols, attrs[k].attnum);
        if 0 <= p < cols.len() {
            assert(cols.update(p, cols[p]) =~= cols);
        }
        lemma_settled_stays(s, cols, attrs, k + 1);
    }
}

/// Inserting the same row twice changes nothing the second time: an insert of values that the
/// summary has taken in already writes nothing.
pub proof fn law_second_insert_changes_nothing(
    s: Server,
    cols: Seq<ColModel>,
    attrs: Seq<IndexedAttr>,
)
    requires
        procs_order(s),
        merges_settle(s),
        forall|i: int, j: int|
            0 <= i < attrs.len() && 0 <= j < attrs.len() && (#[trigger] attrs[i]).attnum == (
            #[trigger] attrs[j]).attnum ==> attrs[i] == attrs[j],
    ensures
        ({
            let after = inserted(s, cols, attrs, 0, false).0;
            inserted(s, after, attrs, 0, false) == (after, false)
        }),
{
    let after = inserted(s, cols, attrs, 0, false).0;
    lemma_insert_settles(s, cols, attrs, 0, false);
    lemma_settled_stays(s, after, attrs, 0);
}

/// A delete keeps the partition covered: what covers some rows covers fewer of them.
pub proof fn law_delete_keeps_coverage(
    s: Server,
    rows: Seq<ColModel>,
    columns: spec_fn(i16) -> Option<(u32, u32)>,
    data: Seq<Map<i16, u64>>,
    left: Seq<Map<i16, u64>>,
)
    requires
        partition_covered(s, rows, columns, data),
        forall|j: int| 0 <= j < left.len() ==> data.contains(#[trigger] left[j]),
    ensures
        partition_covered(s, rows, columns, left),
{
    assert forall|i: int|
        0 <= i < rows.len() && position(rows, (#[trigger] rows[i]).attnum) == i implies covers(
        s,
        rows[i],
        columns,
        left,
    ) by {
        assert(covers(s, rows[i], columns, data));
        let (typ, collation) = columns(rows[i].attnum)->0;
        assert forall|j: int| 0 <= j < left.len() implies covers_value(
            s,
            rows[i],
            typ,
            collation,
            column(#[trigger] left[j], rows[i].attnum),
        ) by {
            let k = data.index_of(left[j]);
            assert(data[k] == left[j]);
        }
    }
}

/// A row that was inserted is found: no clauses that it makes true prune its partition, planned
/// with the summary that the insert left.
pub proof fn law_inserted_rows_are_found(
    s: Server,
    rows: Seq<ColModel>,
    columns: spec_fn(i16) -> Option<(u32, u32)>,
    data: Seq<Map<i16, u64>>,
    row: Map<i16, u64>,
    attrs: Seq<IndexedAttr>,
    clauses: Vec<Clause>,
)
    requires
        partition_covered(s, rows, columns, data),
        attrs_of_row(attrs, columns, row),
        all_listed(rows, attrs),
        families_order(s),
        merges_cover(s),
        all_typed(s, clauses, 0, columns),
        all_true(s, clauses, 0, row),
    ensures
        !relation_pruned(s, clauses, inserted(s, rows, attrs, 0, false).0),
{
    let after = inserted(s, rows, attrs, 0, false).0;
    let more = data.push(row);
    law_insert_keeps_coverage(s, rows, columns, data, row, attrs);
    if relation_pruned(s, clauses, after) {
        law_pruning_loses_no_row(s, clauses, after, columns, more);
        assert(more[data.len() as int] == row);
    }
}

/// A row that was inserted is found by whoever reads the page: the widened summary is written over
/// what the page held, or no summary where it has no room, and with what is read back no clauses
/// that the row makes true prune its partition.
pub proof fn law_inserted_rows_are_found_by_the_page(
    s: Server,
    rows: Seq<ColModel>,
    columns: spec_fn(i16) -> Option<(u32, u32)>,
    data: Seq<Map<i16, u64>>,
    row: Map<i16, u64>,
    attrs: Seq<IndexedAttr>,
    clauses: Vec<Clause>,
    format: PageFormat,
    page: Seq<u8>,
)
    requires
        partition_covered(s, rows, columns, data),
        attrs_of_row(attrs, columns, row),
        all_listed(rows, attrs),
        families_order(s),
        merges_cover(s),
        all_typed(s, clauses, 0, columns),
        all_true(s, clauses, 0, row),
        format.valid(),
        page.len() >= 4 + format.capacity(),
    ensures
        ({
            let after = inserted(s, rows, attrs, 0, false).0;
            let written = frame(format, replacement(format, after));
            match stored_summary(format, overwritten(page, written)) {
                Some(read) => read == after && !relation_pruned(s, clauses, read),
                None => summary_bytes(after).len() > format.capacity() && !relation_pruned(
                    s,
                    clauses,
                    Seq::empty(),
                ),
            }
        }),
{
    let after = inserted(s, rows, attrs, 0, false).0;
    law_inserted_rows_are_found(s, rows, columns, data, row, attrs, clauses);
    law_replaced_summaries_read_back(format, page, after);
}

/// An insert that is rolled back leaves the summary wider than the rows, which it still covers.
pub proof fn law_rolled_back_inserts_keep_coverage(
    s: Server,
    rows: Seq<ColModel>,
    columns: spec_fn(i16) -> Option<(u32, u32)>,
    data: Seq<Map<i16, u64>>,
    row: Map<i16, u64>,
    attrs: Seq<IndexedAttr>,
)
    requires
        partition_covered(s, rows, columns, data),
        attrs_of_row(attrs, columns, row),
        all_listed(rows, attrs),
        procs_order(s),
        merges_cover(s),
    ensures
        partition_covered(s, inserted(s, rows, attrs, 0, false).0, columns, data),
{
    let after = inserted(s, rows, attrs, 0, false).0;
    let more = data.push(row);
    law_insert_keeps_coverage(s, rows, columns, data, row, attrs);
    assert forall|j: int| 0 <= j < data.len() implies more.contains(#[trigger] data[j]) by {
        assert(more[j] == data[j]);
    }
    law_delete_keeps_coverage(s, after, columns, more, data);
}

// ---- what a process plans with ---------------------------------------------------

/// Whether an index's summary covers a row; `columns_of` gives the columns of each index's table.
pub open spec fn row_coverage(
    s: Server,
    columns_of: spec_fn(u32) -> spec_fn(i16) -> Option<(u32, u32)>,
) -> Coverage {
    |i: u32, summary: Seq<ColModel>, row: Map<i16, u64>|
        partition_covered(s, summary, columns_of(i), seq![row])
}

/// What an insert leaves in the metapage covers its row and all the rows before it, whether the
/// widened summary fits there or the page is left without one.
pub proof fn law_inserts_take_rows_in(
    s: Server,
    columns_of: spec_fn(u32) -> spec_fn(i16) -> Option<(u32, u32)>,
    w: CacheWorld,
    top: u32,
    i: u32,
    row: Map<i16, u64>,
    attrs: Seq<IndexedAttr>,
)
    requires
        w.coherent(row_coverage(s, columns_of), top),
        partition_covered(s, w.stored[i], columns_of(i), Seq::empty()),
        attrs_of_row(attrs, columns_of(i), row),
        all_listed(w.stored[i], attrs),
        procs_order(s),
        merges_cover(s),
    ensures
        w.takes_in(
            row_coverage(s, columns_of),
            i,
            row,
            inserted(s, w.stored[i], attrs, 0, false).0,
        ),
        w.takes_in(row_coverage(s, columns_of), i, row, Seq::empty()),
{
    let c = row_coverage(s, columns_of);
    let before = w.stored[i];
    let after = inserted(s, before, attrs, 0, false).0;
    let columns = columns_of(i);
    law_insert_keeps_coverage(s, before, columns, Seq::empty(), row, attrs);
    assert(Seq::<Map<i16, u64>>::empty().push(row) =~= seq![row]);
    assert(c(i, after, row));
    assert forall|other: Map<i16, u64>| #[trigger] (w.written)(i, other) implies c(
        i,
        after,
        other,
    ) by {
        assert(c(i, before, other));
        law_rolled_back_inserts_keep_coverage(s, before, columns, seq![other], row, attrs);
    }
}

/// A new top-level plan loses no row that the process sees: once the invalidations of the index are
/// delivered, no clauses that such a row makes true prune its partition.
pub proof fn law_new_plans_lose_no_row(
    s: Server,
    columns_of: spec_fn(u32) -> spec_fn(i16) -> Option<(u32, u32)>,
    w: CacheWorld,
    m: PlanModel,
    relid: u32,
    i: u32,
    top: u32,
    row: Map<i16, u64>,
    clauses: Vec<Clause>,
)
    requires
        w.coherent(row_coverage(s, columns_of), top),
        i != INVALID_OID,
        !w.pending.contains(i),
        m.depth == 0,
        (w.visible)(i, row),
        families_order(s),
        all_typed(s, clauses, 0, columns_of(i)),
        all_true(s, clauses, 0, row),
    ensures
        !relation_pruned(s, clauses, w.planned_with(m.entered(), relid, i, top)),
{
    let c = row_coverage(s, columns_of);
    let rows = w.planned_with(m.entered(), relid, i, top);
    law_new_plans_see_every_row(w, c, m, relid, i, top);
    assert(c(i, rows, row));
    if relation_pruned(s, clauses, rows) {
        law_pruning_loses_no_row(s, clauses, rows, columns_of(i), seq![row]);
        assert(seq![row][0] == row);
    }
}

// ---- building --------------------------------------------------------------------

/// How many rows have a value in a column.
pub open spec fn values_in(data: Seq<Map<i16, u64>>, attnum: i16) -> nat
    decreases data.len(),
{
    if data.len() == 0 {
        0
    } else {
        values_in(data.drop_last(), attnum) + (if column(data.last(), attnum) is Some {
            1nat
        } else {
            0
        })
    }
}

proof fn lemma_values_in(data: Seq<Map<i16, u64>>, attnum: i16, j: int)
    requires
        0 <= j < data.len(),
    ensures
        column(data[j], attnum) is Some ==> values_in(data, attnum) > 0,
        column(data[j], attnum) is None ==> values_in(data, attnum) < data.len(),
        values_in(data, attnum) <= data.len(),
    decreases data.len(),
{
    if data.len() > 1 {
        let front = data.drop_last();
        let k = if j < front.len() {
            j
        } else {
            0
        };
        assert(front[k] == data[k]);
        lemma_values_in(front, attnum, k);
    } else {
        assert(values_in(data.drop_last(), attnum) == 0);
    }
}

/// What a scan gave for a column is right: the counts are those of the rows, and every value lies
/// between the two texts, or, for an extent, inside of the first.
pub open spec fn scan_right(
    s: Server,
    kind: ColumnKind,
    sql_type: Seq<char>,
    stats: StatsRow,
    attnum: i16,
    typ: u32,
    collation: u32,
    data: Seq<Map<i16, u64>>,
) -> bool {
    &&& stats.total matches Some(n) && n == data.len()
    &&& stats.nonnull matches Some(n) && n == values_in(data, attnum)
    &&& forall|j: int|
        0 <= j < data.len() ==> (column(#[trigger] data[j], attnum) matches Some(v) ==> {
            if kind == ColumnKind::MinMax {
                match (stats.first, stats.second) {
                    (Some(lo), Some(hi)) => between_texts(s, typ, collation, lo@, hi@, v),
                    _ => true,
                }
            } else {
                inside_extent(s, opt_text(stats.first), sql_type, v)
            }
        })
}

/// A summary that is built from a scan covers the rows scanned, where the scan was right.
pub proof fn law_build_covers(
    s: Server,
    attnum: i16,
    kind: ColumnKind,
    sql_type: Seq<char>,
    stats: StatsRow,
    typ: u32,
    collation: u32,
    columns: spec_fn(i16) -> Option<(u32, u32)>,
    data: Seq<Map<i16, u64>>,
)
    requires
        columns(attnum) == Some((typ, collation)),
        scan_right(s, kind, sql_type, stats, attnum, typ, collation, data),
    ensures
        covers(s, column_summary(attnum, kind, sql_type, Some(stats)), columns, data),
        column_summary(attnum, kind, sql_type, Some(stats)).attnum == attnum,
{
    let col = column_summary(attnum, kind, sql_type, Some(stats));
    assert forall|j: int| 0 <= j < data.len() implies covers_value(
        s,
        col,
        typ,
        collation,
        column(#[trigger] data[j], attnum),
    ) by {
        lemma_values_in(data, attnum, j);
    }
}

/// A summary that is built says no more than the scan: the bounds are the two texts that the scan
/// gave, in their order, and an extent is the first of them; there are nulls exactly where some row
/// has none, and all are null exactly where there are rows and every one has none. Only where a
/// column with values lacks a bound are there no bounds.
pub proof fn law_built_summaries_are_tight(
    attnum: i16,
    kind: ColumnKind,
    sql_type: Seq<char>,
    stats: StatsRow,
    data: Seq<Map<i16, u64>>,
)
    requires
        stats.total matches Some(n) && n == data.len(),
        stats.nonnull matches Some(n) && n == values_in(data, attnum),
    ensures
        ({
            let col = column_summary(attnum, kind, sql_type, Some(stats));
            let bounded = stats.first is Some && stats.second is Some;
            &&& col.has_nulls <==> exists|j: int|
                0 <= j < data.len() && column(#[trigger] data[j], attnum) is None
            &&& col.all_nulls <==> data.len() > 0 && forall|j: int|
                0 <= j < data.len() ==> column(#[trigger] data[j], attnum) is None
            &&& kind != ColumnKind::MinMax || bounded || values_in(data, attnum) == 0 ==> {
                &&& col.min == opt_text(stats.first)
                &&& col.max == opt_text(stats.second)
                &&& col.sql_type == sql_type
                &&& col.overlap <==> kind != ColumnKind::MinMax
            }
        }),
{
    lemma_all_values(data, attnum);
    let col = column_summary(attnum, kind, sql_type, Some(stats));
    if col.has_nulls {
        assert(values_in(data, attnum) != data.len());
    }
    assert forall|j: int| 0 <= j < data.len() implies {
        &&& column(#[trigger] data[j], attnum) is Some ==> values_in(data, attnum) > 0
        &&& column(data[j], attnum) is None ==> values_in(data, attnum) < data.len()
    } by {
        lemma_values_in(data, attnum, j);
    }
}

proof fn lemma_all_values(data: Seq<Map<i16, u64>>, attnum: i16)
    ensures
        values_in(data, attnum) <= data.len(),
        (forall|j: int| 0 <= j < data.len() ==> column(#[trigger] data[j], attnum) is Some)
            ==> values_in(data, attnum) == data.len(),
        (forall|j: int| 0 <= j < data.len() ==> column(#[trigger] data[j], attnum) is None)
            ==> values_in(data, attnum) == 0,
    decreases data.len(),
{
    if data.len() > 0 {
        let front = data.drop_last();
        lemma_all_values(front, attnum);
        let n = data.len() - 1;
        assert(data.last() == data[n]);
        assert forall|j: int| 0 <= j < front.len() implies front[j] == #[trigger] data[j] by {}
        if forall|j: int| 0 <= j < data.len() ==> column(#[trigger] data[j], attnum) is Some {
            assert forall|j: int| 0 <= j < front.len() implies column(
                #[trigger] front[j],
                attnum,
            ) is Some by {
                assert(front[j] == data[j]);
            }
        }
        if forall|j: int| 0 <= j < data.len() ==> column(#[trigger] data[j], attnum) is None {
            assert forall|j: int| 0 <= j < front.len() implies column(
                #[trigger] front[j],
                attnum,
            ) is None by {
                assert(front[j] == data[j]);
            }
        }
    }
}

// ---- what a building comes down to -----------------------------------------------

/// A server, by what it gives for the statements of a building.
pub struct Scans {
    pub text: spec_fn(Seq<char>) -> Option<Seq<char>>,
    pub attnum: spec_fn(Seq<char>) -> Option<i16>,
    pub kind: spec_fn(Seq<char>) -> Option<TypeRow>,
    pub stats: spec_fn(Seq<char>) -> Option<StatsRow>,
}

/// The answer is what the server gives for the statement.
pub open spec fn build_answers(c: Scans, q: BuildQuestionModel, a: BuildAnswer) -> bool {
    match (q, a) {
        (BuildQuestionModel::Name(sql), BuildAnswer::Name(x)) => opt_text(x) == (c.text)(sql),
        (BuildQuestionModel::Attnum(sql), BuildAnswer::Attnum(x)) => x == (c.attnum)(sql),
        (BuildQuestionModel::Kind(sql), BuildAnswer::Kind(x)) => x == (c.kind)(sql),
        (BuildQuestionModel::Stats(sql), BuildAnswer::Stats(x)) => x == (c.stats)(sql),
        _ => false,
    }
}

/// The summary of one column, nothing where the leaf lacks it.
pub open spec fn scanned_column(c: Scans, leaf: u32, name: Seq<char>, col: Seq<char>) -> Option<
    ColModel,
> {
    match (c.attnum)(attnum_statement(leaf, col)) {
        None => None,
        Some(attnum) => {
            let (kind, sql_type) = kind_of((c.kind)(kind_statement(leaf, col)));
            Some(
                column_summary(
                    attnum,
                    kind,
                    sql_type,
                    (c.stats)(stats_statement(kind, col, name)),
                ),
            )
        },
    }
}

/// The summaries of the columns from the `i`-th on, behind `done`.
pub open spec fn scanned_from(
    c: Scans,
    leaf: u32,
    name: Seq<char>,
    columns: Seq<Seq<char>>,
    i: int,
    done: Seq<ColModel>,
) -> Seq<ColModel>
    decreases columns.len() - i,
{
    if 0 <= i < columns.len() {
        scanned_from(
            c,
            leaf,
            name,
            columns,
            i + 1,
            match scanned_column(c, leaf, name, columns[i]) {
                Some(col) => done.push(col),
                None => done,
            },
        )
    } else {
        done
    }
}

/// What a building will have as its summary; the summary of a leaf is that of a building just
/// begun.
pub open spec fn scanned(c: Scans, leaf: u32, columns: Seq<Seq<char>>, run: BuildModel) -> Seq<
    ColModel,
> {
    match (c.text)(relation_name_statement(leaf)) {
        None => run.summary,
        Some(name) => scanned_from(c, leaf, name, columns, run.at, run.summary),
    }
}

/// What is known for a building is what the server gave.
pub open spec fn build_agrees(
    c: Scans,
    leaf: u32,
    columns: Seq<Seq<char>>,
    run: BuildModel,
) -> bool {
    &&& 0 <= run.at <= columns.len()
    &&& run.name matches Some(x) ==> x == (c.text)(relation_name_statement(leaf))
    &&& run.name is None ==> run.facts == ColumnFacts::nothing()
    &&& run.at < columns.len() ==> {
        let col = columns[run.at];
        &&& run.facts.attnum matches Some(x) ==> x == (c.attnum)(attnum_statement(leaf, col))
        &&& run.facts.kind matches Some(x) ==> x == (c.kind)(kind_statement(leaf, col))
        &&& run.facts.stats matches Some(x) ==> run.name matches Some(Some(name))
            && run.facts.kind matches Some(row) && x == (c.stats)(
            stats_statement(kind_of(row).0, col, name),
        )
    }
}

/// How many statements a building can still ask for.
pub open spec fn build_questions(columns: Seq<Seq<char>>, run: BuildModel) -> int {
    missing(run.name) + 3 * (columns.len() - run.at) - 3 + missing(run.facts.attnum) + missing(
        run.facts.kind,
    ) + missing(run.facts.stats)
}

/// A building that was carried out on a server's answers gives the summary that they determine,
/// and every statement that is asked for and run brings it closer to its end.
pub proof fn law_builds_are_the_servers(
    c: Scans,
    leaf: u32,
    columns: Seq<Seq<char>>,
    run: BuildModel,
)
    requires
        build_agrees(c, leaf, columns, run),
    ensures
        ({
            let (after, asked) = leaf_build(leaf, columns, run);
            &&& scanned(c, leaf, columns, after) == scanned(c, leaf, columns, run)
            &&& build_agrees(c, leaf, columns, after)
            &&& build_questions(columns, after) <= build_questions(columns, run)
            &&& match asked {
                None => after.summary == scanned(c, leaf, columns, run),
                Some(q) => forall|a: BuildAnswer| #[trigger]
                    build_answers(c, q, a) ==> build_agrees(c, leaf, columns, after.learned(a))
                        && 0 <= build_questions(columns, after.learned(a)) < build_questions(
                        columns,
                        run,
                    ) && scanned(c, leaf, columns, after.learned(a)) == scanned(
                        c,
                        leaf,
                        columns,
                        run,
                    ),
            }
        }),
    decreases columns.len() - run.at,
{
    if let Some(Some(name)) = run.name {
        if run.at < columns.len() {
            match column_build(leaf, name, columns[run.at], run.facts) {
                ColumnModel::Ask(q) => {},
                ColumnModel::Absent => {
                    law_builds_are_the_servers(c, leaf, columns, run.passed(run.summary));
                },
                ColumnModel::Built(col) => {
                    law_builds_are_the_servers(
                        c,
                        leaf,
                        columns,
                        run.passed(run.summary.push(col)),
                    );
                },
            }
        }
    }
}

/// Every summary covers the rows.
spec fn all_cover(
    s: Server,
    cols: Seq<ColModel>,
    types: spec_fn(i16) -> Option<(u32, u32)>,
    data: Seq<Map<i16, u64>>,
) -> bool {
    forall|k: int| 0 <= k < cols.len() ==> covers(s, #[trigger] cols[k], types, data)
}

proof fn lemma_scanned_covers(
    s: Server,
    c: Scans,
    leaf: u32,
    name: Seq<char>,
    columns: Seq<Seq<char>>,
    i: int,
    done: Seq<ColModel>,
    types: spec_fn(i16) -> Option<(u32, u32)>,
    data: Seq<Map<i16, u64>>,
)
    requires
        forall|k: int|
            0 <= k < columns.len() ==> (scanned_column(
                c,
                leaf,
                name,
                #[trigger] columns[k],
            ) matches Some(col) ==> covers(s, col, types, data)),
        all_cover(s, done, types, data),
    ensures
        all_cover(s, scanned_from(c, leaf, name, columns, i, done), types, data),
    decreases columns.len() - i,
{
    if 0 <= i < columns.len() {
        let more = match scanned_column(c, leaf, name, columns[i]) {
            Some(col) => done.push(col),
            None => done,
        };
        lemma_scanned_covers(s, c, leaf, name, columns, i + 1, more, types, data);
    }
}

/// The scan of a column was right, where the leaf has the column: the statements that select its
/// attribute number, its type and its counts and bounds gave what is true of the rows.
pub open spec fn column_scanned_right(
    s: Server,
    c: Scans,
    leaf: u32,
    name: Seq<char>,
    col: Seq<char>,
    types: spec_fn(i16) -> Option<(u32, u32)>,
    data: Seq<Map<i16, u64>>,
) -> bool {
    (c.attnum)(attnum_statement(leaf, col)) matches Some(attnum) ==> {
        let (kind, sql_type) = kind_of((c.kind)(kind_statement(leaf, col)));
        &&& types(attnum) matches Some((typ, collation)) && (c.stats)(
            stats_statement(kind, col, name),
        ) matches Some(stats) && scan_right(
            s,
            kind,
            sql_type,
            stats,
            attnum,
            typ,
            collation,
            data,
        )
    }
}

proof fn lemma_column_covers(
    s: Server,
    c: Scans,
    leaf: u32,
    name: Seq<char>,
    col: Seq<char>,
    types: spec_fn(i16) -> Option<(u32, u32)>,
    data: Seq<Map<i16, u64>>,
)
    requires
        column_scanned_right(s, c, leaf, name, col, types, data),
    ensures
        scanned_column(c, leaf, name, col) matches Some(built) ==> covers(s, built, types, data),
{
    if let Some(attnum) = (c.attnum)(attnum_statement(leaf, col)) {
        let (kind, sql_type) = kind_of((c.kind)(kind_statement(leaf, col)));
        let (typ, collation) = types(attnum)->0;
        let stats = (c.stats)(stats_statement(kind, col, name))->0;
        law_build_covers(s, attnum, kind, sql_type, stats, typ, collation, types, data);
    }
}

/// A partition is covered by the summary that was built for it, where the scan of each column was
/// right; `types` gives the type and the collation of each column that is summarised.
pub proof fn law_built_partitions_are_covered(
    s: Server,
    c: Scans,
    leaf: u32,
    columns: Seq<Seq<char>>,
    types: spec_fn(i16) -> Option<(u32, u32)>,
    data: Seq<Map<i16, u64>>,
)
    requires
        (c.text)(relation_name_statement(leaf)) matches Some(name) ==> forall|k: int|
            0 <= k < columns.len() ==> column_scanned_right(
                s,
                c,
                leaf,
                name,
                #[trigger] columns[k],
                types,
                data,
            ),
    ensures
        partition_covered(s, scanned(c, leaf, columns, BuildModel::begun()), types, data),
{
    if let Some(name) = (c.text)(relation_name_statement(leaf)) {
        assert forall|k: int| 0 <= k < columns.len() implies (scanned_column(
            c,
            leaf,
            name,
            #[trigger] columns[k],
        ) matches Some(col) ==> covers(s, col, types, data)) by {
            lemma_column_covers(s, c, leaf, name, columns[k], types, data);
        }
        lemma_scanned_covers(s, c, leaf, name, columns, 0, Seq::empty(), types, data);
    }
}

/// The names of the columns from the `i`-th attribute number on, behind `done`.
pub open spec fn names_from(
    c: Scans,
    relid: u32,
    attnums: Seq<i16>,
    i: int,
    done: Seq<Seq<char>>,
) -> Seq<Seq<char>>
    decreases attnums.len() - i,
{
    if 0 <= i < attnums.len() {
        let found = if attnums[i] > 0 {
            (c.text)(column_name_statement(relid, attnums[i]))
        } else {
            None
        };
        names_from(
            c,
            relid,
            attnums,
            i + 1,
            match found {
                Some(name) => done.push(name),
                None => done,
            },
        )
    } else {
        done
    }
}

/// What is known for a lookup of names is what the server gave.
pub open spec fn names_agree(c: Scans, relid: u32, attnums: Seq<i16>, run: NamesModel) -> bool {
    &&& 0 <= run.at <= attnums.len()
    &&& run.name matches Some(x) ==> run.at < attnums.len() && x == (c.text)(
        column_name_statement(relid, attnums[run.at]),
    )
}

/// A lookup of names that was carried out on a server's answers gives the names that they
/// determine, and ends.
pub proof fn law_names_are_the_servers(c: Scans, relid: u32, attnums: Seq<i16>, run: NamesModel)
    requires
        names_agree(c, relid, attnums, run),
    ensures
        ({
            let (after, asked) = names_lookup(relid, attnums, run);
            let names = names_from(c, relid, attnums, run.at, run.names);
            &&& names_agree(c, relid, attnums, after)
            &&& run.at <= after.at
            &&& match asked {
                None => after.names == names,
                Some(sql) => {
                    let told = NamesModel { name: Some((c.text)(sql)), ..after };
                    &&& names_agree(c, relid, attnums, told)
                    &&& names_from(c, relid, attnums, told.at, told.names) == names
                    &&& after.name is None
                    &&& run.name is None || run.at < after.at
                },
            }
        }),
    decreases attnums.len() - run.at,
{
    if run.at < attnums.len() {
        let next = NamesModel { at: run.at + 1, name: None, names: run.names };
        if attnums[run.at] <= 0 {
            law_names_are_the_servers(c, relid, attnums, next);
        } else {
            match run.name {
                None => {},
                Some(None) => law_names_are_the_servers(c, relid, attnums, next),
                Some(Some(n)) => law_names_are_the_servers(
                    c,
                    relid,
                    attnums,
                    NamesModel { names: run.names.push(n), ..next },
                ),
            }
        }
    }
}

} // verus!
