//! The `table_range` index access method: the columns an index summarises, and the widening of
//! its summary as rows are inserted.
//!
//! A summary only has to be over-inclusive, so an insert widens it in place; one that stays
//! within the summary writes nothing. Of a column with a value that cannot be taken in only the
//! null flags are kept, so that no summary is ever narrower than the data.

use vstd::prelude::*;
use crate::backend::{Answer, Question, QuestionModel, Selection};
use crate::index_storage::{opt_text, ColModel, ColSummary, IndexSummary};
use crate::prune_hook::{find_row, position};
use crate::text::{ends_in, ends_with, quote_with, quoted, same_text};

verus! {

// ---- one column ------------------------------------------------------------------

/// What is known of the server for the widening of one column; `None` is not known yet.
#[derive(Clone, Debug, PartialEq)]
pub struct WidenFacts {
    /// The new value's text.
    pub text: Option<Option<String>>,
    /// The comparison procedure of the column's type.
    pub proc: Option<Option<u32>>,
    /// The summary's minimum and maximum as values.
    pub min: Option<Option<u64>>,
    pub max: Option<Option<u64>>,
    /// How the new value compares with the minimum and with the maximum.
    pub below: Option<i32>,
    pub above: Option<i32>,
    /// How the value that the new text denotes compares with the new value.
    pub back: Option<Option<i32>>,
    /// The extent that covers the old one and the new value.
    pub merged: Option<Selection>,
}

impl WidenFacts {
    pub open spec fn nothing() -> WidenFacts {
        WidenFacts {
            text: None,
            proc: None,
            min: None,
            max: None,
            below: None,
            above: None,
            back: None,
            merged: None,
        }
    }

    /// Nothing known yet.
    pub fn new() -> (r: Self)
        ensures
            r == WidenFacts::nothing(),
    {
        WidenFacts {
            text: None,
            proc: None,
            min: None,
            max: None,
            below: None,
            above: None,
            back: None,
            merged: None,
        }
    }
}

/// The facts with an answer added: a parsed bound is the minimum first and then the maximum, a
/// comparison the one with the minimum first and then the one with the maximum.
pub open spec fn widen_learned(f: WidenFacts, answer: Answer) -> WidenFacts {
    match answer {
        Answer::Text(a) => WidenFacts { text: Some(a), ..f },
        Answer::Proc(a) => WidenFacts { proc: Some(a), ..f },
        Answer::Value(a) => if f.min is None {
            WidenFacts { min: Some(a), ..f }
        } else {
            WidenFacts { max: Some(a), ..f }
        },
        Answer::Comparison(a) => if f.below is None {
            WidenFacts { below: Some(a), ..f }
        } else {
            WidenFacts { above: Some(a), ..f }
        },
        Answer::ReadBack(a) => WidenFacts { back: Some(a), ..f },
        Answer::Selected(a) => WidenFacts { merged: Some(a), ..f },
        _ => f,
    }
}

impl WidenFacts {
    /// Notes the answer to the question that a widening asked.
    pub fn learn(&mut self, answer: Answer)
        ensures
            *final(self) == widen_learned(*old(self), answer),
    {
        match answer {
            Answer::Text(a) => self.text = Some(a),
            Answer::Proc(a) => self.proc = Some(a),
            Answer::Value(a) => {
                if self.min.is_none() {
                    self.min = Some(a);
                } else {
                    self.max = Some(a);
                }
            },
            Answer::Comparison(a) => {
                if self.below.is_none() {
                    self.below = Some(a);
                } else {
                    self.above = Some(a);
                }
            },
            Answer::ReadBack(a) => self.back = Some(a),
            Answer::Selected(a) => self.merged = Some(a),
            _ => {},
        }
    }
}

/// A widening: the next question, or whether the summary changed.
#[derive(Clone, Debug, PartialEq)]
pub enum Widening {
    Ask(Question),
    Done(bool),
}

/// What a [`Widening`] says of a column: the next question, or the column afterwards and
/// whether it changed.
pub enum WideningModel {
    Ask(QuestionModel),
    Done(ColModel, bool),
}

/// What is left of a column's summary when its range or extent cannot be kept: the flags. An extent
/// without a type prunes nothing, and nothing can be merged into it.
pub open spec fn flags_of(col: ColModel) -> ColModel {
    ColModel { overlap: true, sql_type: Seq::empty(), min: None, max: None, ..col }
}

/// The type is PostGIS geometry, in whatever schema.
pub open spec fn geometry_type(sql_type: Seq<char>) -> bool {
    sql_type == "geometry"@ || ends_in(sql_type, ".geometry"@)
}

pub fn is_geometry(sql_type: &str) -> (r: bool)
    ensures
        r == geometry_type(sql_type@),
{
    same_text(sql_type, "geometry") || ends_with(sql_type, ".geometry")
}

/// A text cast to a type.
pub open spec fn cast(text: Seq<char>, sql_type: Seq<char>) -> Seq<char> {
    "CAST("@ + quoted(text, '\'') + " AS "@ + sql_type + ")"@
}

/// The statement that selects the extent which covers the new value, and the old extent where
/// there is one.
pub open spec fn merge_statement(
    extent: Option<Seq<char>>,
    new: Seq<char>,
    sql_type: Seq<char>,
) -> Seq<char> {
    if geometry_type(sql_type) {
        match extent {
            None => "SELECT ST_Extent(g)::geometry::text FROM (VALUES ("@ + cast(new, sql_type)
                + ")) v(g)"@,
            Some(e) => "SELECT ST_Extent(g)::geometry::text FROM (VALUES ("@ + cast(e, sql_type)
                + "), ("@ + cast(new, sql_type) + ")) v(g)"@,
        }
    } else {
        match extent {
            None => "SELECT "@ + cast(new, sql_type) + "::text"@,
            Some(e) => "SELECT range_merge("@ + cast(e, sql_type) + ", "@ + cast(new, sql_type)
                + ")::text"@,
        }
    }
}

fn push_cast(sql: &mut String, text: &str, sql_type: &str)
    ensures
        final(sql)@ == old(sql)@ + cast(text@, sql_type@),
{
    sql.append("CAST(");
    sql.append(&quote_with(text, '\''));
    sql.append(" AS ");
    sql.append(sql_type);
    sql.append(")");
    assert(sql@ =~= old(sql)@ + cast(text@, sql_type@));
}

/// Writes the statement that merges a new value into an extent.
pub fn merge_sql(extent: &Option<String>, new: &str, sql_type: &str) -> (sql: String)
    ensures
        sql@ == merge_statement(opt_text(*extent), new@, sql_type@),
{
    if is_geometry(sql_type) {
        let mut sql = "SELECT ST_Extent(g)::geometry::text FROM (VALUES (".to_string();
        if let Some(e) = extent {
            push_cast(&mut sql, e, sql_type);
            sql.append("), (");
        }
        push_cast(&mut sql, new, sql_type);
        sql.append(")) v(g)");
        sql
    } else {
        match extent {
            None => {
                let mut sql = "SELECT ".to_string();
                push_cast(&mut sql, new, sql_type);
                sql.append("::text");
                sql
            },
            Some(e) => {
                let mut sql = "SELECT range_merge(".to_string();
                push_cast(&mut sql, e, sql_type);
                sql.append(", ");
                push_cast(&mut sql, new, sql_type);
                sql.append(")::text");
                sql
            },
        }
    }
}

/// The widening of an extent, given what is known: the server merges the new value into it. A value
/// for which it selects null has no extent, and one that comes back with the old extent is inside
/// of it: neither changes anything. Where the server cannot render or merge the value, only the
/// flags are kept; a column of which only they are left has no extent to widen.
pub open spec fn overlap_widening(
    col: ColModel,
    typ: u32,
    value: u64,
    changed: bool,
    facts: WidenFacts,
) -> WideningModel {
    if col.sql_type.len() == 0 {
        WideningModel::Done(col, changed)
    } else {
        match facts.text {
            None => WideningModel::Ask(QuestionModel::Render { typ, value }),
            Some(None) => WideningModel::Done(flags_of(col), true),
            Some(Some(new)) => match facts.merged {
                None => WideningModel::Ask(
                    QuestionModel::SelectText {
                        sql: merge_statement(col.min, new@, col.sql_type),
                    },
                ),
                Some(Selection::Failed) => WideningModel::Done(flags_of(col), true),
                Some(Selection::Null) => WideningModel::Done(col, changed),
                Some(Selection::Text(extent)) => WideningModel::Done(
                    ColModel { min: Some(extent@), ..col },
                    changed || col.min != Some(extent@),
                ),
            },
        }
    }
}

/// A column that has the new value's text as a bound. The text has to denote the value itself;
/// otherwise only the flags are kept.
pub open spec fn bound_widening(
    col: ColModel,
    typ: u32,
    collation: u32,
    value: u64,
    new: Seq<char>,
    proc: u32,
    facts: WidenFacts,
) -> WideningModel {
    match facts.back {
        None => WideningModel::Ask(
            QuestionModel::ReadBack { typ, proc, collation, text: new, value },
        ),
        Some(c) => if c == Some(0i32) {
            WideningModel::Done(col, true)
        } else {
            WideningModel::Done(flags_of(col), true)
        },
    }
}

/// The widening of a range once its bounds are values: the new value's text replaces a bound
/// that the value lies beyond.
pub open spec fn bounds_widening(
    col: ColModel,
    typ: u32,
    collation: u32,
    value: u64,
    new: Seq<char>,
    proc: u32,
    min: u64,
    max: u64,
    changed: bool,
    facts: WidenFacts,
) -> WideningModel {
    match (facts.below, facts.above) {
        (None, _) => WideningModel::Ask(
            QuestionModel::Compare { proc, collation, left: value, right: min },
        ),
        (_, None) => WideningModel::Ask(
            QuestionModel::Compare { proc, collation, left: value, right: max },
        ),
        (Some(b), Some(a)) => if b < 0 || a > 0 {
            bound_widening(
                ColModel {
                    min: if b < 0 {
                        Some(new)
                    } else {
                        col.min
                    },
                    max: if a > 0 {
                        Some(new)
                    } else {
                        col.max
                    },
                    ..col
                },
                typ,
                collation,
                value,
                new,
                proc,
                facts,
            )
        } else {
            WideningModel::Done(col, changed)
        },
    }
}

/// The widening of a range, given what is known. Without a range the new value becomes both bounds.
/// Where the value cannot be rendered or a bound does not convert, only the flags are kept. The
/// range of a type without a comparison procedure is left: nothing is ever compared with it.
pub open spec fn range_widening(
    col: ColModel,
    typ: u32,
    collation: u32,
    value: u64,
    changed: bool,
    facts: WidenFacts,
) -> WideningModel {
    match (facts.text, facts.proc) {
        (None, _) => WideningModel::Ask(QuestionModel::Render { typ, value }),
        (Some(None), _) => WideningModel::Done(flags_of(col), true),
        (Some(Some(_)), None) => WideningModel::Ask(QuestionModel::CompareProc { typ }),
        (Some(Some(new)), Some(proc)) => match (col.min, col.max, proc) {
            (Some(_), Some(_), None) => WideningModel::Done(col, changed),
            (Some(lo), Some(hi), Some(proc)) => match (facts.min, facts.max) {
                (None, _) => WideningModel::Ask(QuestionModel::Parse { typ, text: lo }),
                (Some(None), _) => WideningModel::Done(flags_of(col), true),
                (_, None) => WideningModel::Ask(QuestionModel::Parse { typ, text: hi }),
                (_, Some(None)) => WideningModel::Done(flags_of(col), true),
                (Some(Some(min)), Some(Some(max))) => bounds_widening(
                    col,
                    typ,
                    collation,
                    value,
                    new@,
                    proc,
                    min,
                    max,
                    changed,
                    facts,
                ),
            },
            (_, _, None) => WideningModel::Done(
                ColModel { min: Some(new@), max: Some(new@), ..col },
                true,
            ),
            (_, _, Some(proc)) => bound_widening(
                ColModel { min: Some(new@), max: Some(new@), ..col },
                typ,
                collation,
                value,
                new@,
                proc,
                facts,
            ),
        },
    }
}

/// The widening of a column for an inserted value, given what is known: a null sets the null
/// flag, any other value takes back that all are null and widens range or extent.
pub open spec fn column_widening(
    col: ColModel,
    typ: u32,
    collation: u32,
    value: u64,
    isnull: bool,
    facts: WidenFacts,
) -> WideningModel {
    if isnull {
        WideningModel::Done(ColModel { has_nulls: true, ..col }, !col.has_nulls)
    } else {
        let seen = ColModel { all_nulls: false, ..col };
        if col.overlap {
            overlap_widening(seen, typ, value, col.all_nulls, facts)
        } else {
            range_widening(seen, typ, collation, value, col.all_nulls, facts)
        }
    }
}

/// A widening that ended as the model says, or asked what the model asks and left the column.
pub open spec fn widening_is(
    m: WideningModel,
    before: ColModel,
    after: ColModel,
    r: Widening,
) -> bool {
    match (m, r) {
        (WideningModel::Ask(q), Widening::Ask(asked)) => asked@ == q && after == before,
        (WideningModel::Done(col, changed), Widening::Done(told)) => after == col && told
            == changed,
        _ => false,
    }
}

/// Takes everything but the flags out of a column's summary.
fn keep_flags(col: &mut ColSummary) -> (r: Widening)
    ensures
        final(col)@ == flags_of(old(col)@),
        r == Widening::Done(true),
{
    col.overlap = true;
    col.sql_type = String::new();
    col.min = None;
    col.max = None;
    assert(col@ =~= flags_of(old(col)@));
    Widening::Done(true)
}

/// Widens an extent for one inserted value that is not null.
pub fn widen_overlap(
    col: &mut ColSummary,
    typ: u32,
    value: u64,
    facts: &WidenFacts,
) -> (r: Widening)
    ensures
        widening_is(
            overlap_widening(old(col)@, typ, value, false, *facts),
            old(col)@,
            final(col)@,
            r,
        ),
{
    if col.sql_type.as_str().is_empty() {
        return Widening::Done(false);
    }
    let new = match &facts.text {
        None => return Widening::Ask(Question::Render { typ, value }),
        Some(None) => return keep_flags(col),
        Some(Some(t)) => t,
    };
    match &facts.merged {
        None => Widening::Ask(
            Question::SelectText { sql: merge_sql(&col.min, new, &col.sql_type) },
        ),
        Some(Selection::Failed) => keep_flags(col),
        Some(Selection::Null) => Widening::Done(false),
        Some(Selection::Text(extent)) => {
            let same: bool = match &col.min {
                Some(e) => same_text(e, extent),
                None => false,
            };
            col.min = Some(extent.clone());
            assert(col@ =~= (ColModel { min: Some(extent@), ..old(col)@ }));
            Widening::Done(!same)
        },
    }
}

/// Widens one column's summary for a single inserted value, and tells whether it changed.
pub fn widen_column(
    col: &mut ColSummary,
    typ: u32,
    collation: u32,
    value: u64,
    isnull: bool,
    facts: &WidenFacts,
) -> (r: Widening)
    ensures
        widening_is(
            column_widening(old(col)@, typ, collation, value, isnull, *facts),
            old(col)@,
            final(col)@,
            r,
        ),
{
    if isnull {
        let changed: bool = !col.has_nulls;
        col.has_nulls = true;
        return Widening::Done(changed);
    }
    let changed: bool = col.all_nulls;
    if col.overlap {
        col.all_nulls = false;
        return match widen_overlap(col, typ, value, facts) {
            Widening::Ask(q) => {
                col.all_nulls = changed;
                Widening::Ask(q)
            },
            Widening::Done(widened) => Widening::Done(changed || widened),
        };
    }
    let new = match &facts.text {
        None => return Widening::Ask(Question::Render { typ, value }),
        Some(None) => {
            col.all_nulls = false;
            return keep_flags(col);
        },
        Some(Some(t)) => t,
    };
    let proc: Option<u32> = match facts.proc {
        None => return Widening::Ask(Question::CompareProc { typ }),
        Some(p) => p,
    };
    let (lower, raise): (bool, bool) = match (&col.min, &col.max) {
        (Some(lo), Some(hi)) => {
            let proc: u32 = match proc {
                Some(p) => p,
                None => {
                    col.all_nulls = false;
                    return Widening::Done(changed);
                },
            };
            let min: u64 = match facts.min {
                None => return Widening::Ask(Question::Parse { typ, text: lo.clone() }),
                Some(None) => {
                    col.all_nulls = false;
                    return keep_flags(col);
                },
                Some(Some(d)) => d,
            };
            let max: u64 = match facts.max {
                None => return Widening::Ask(Question::Parse { typ, text: hi.clone() }),
                Some(None) => {
                    col.all_nulls = false;
                    return keep_flags(col);
                },
                Some(Some(d)) => d,
            };
            let below: i32 = match facts.below {
                None => return Widening::Ask(
                    Question::Compare { proc, collation, left: value, right: min },
                ),
                Some(c) => c,
            };
            let above: i32 = match facts.above {
                None => return Widening::Ask(
                    Question::Compare { proc, collation, left: value, right: max },
                ),
                Some(c) => c,
            };
            (below < 0, above > 0)
        },
        // No range yet: this value is the first one.
        _ => (true, true),
    };
    if lower || raise {
        if let Some(proc) = proc {
            match facts.back {
                None => return Widening::Ask(
                    Question::ReadBack { typ, proc, collation, text: new.clone(), value },
                ),
                Some(Some(0)) => {},
                _ => {
                    col.all_nulls = false;
                    return keep_flags(col);
                },
            }
        }
    }
    col.all_nulls = false;
    if lower {
        col.min = Some(new.clone());
    }
    if raise {
        col.max = Some(new.clone());
    }
    Widening::Done(changed || lower || raise)
}

// ---- a row -----------------------------------------------------------------------

/// The value that an inserted row has for one indexed attribute.
#[derive(Clone, Copy, Debug, PartialEq, Eq, Structural)]
pub struct IndexedAttr {
    /// The heap attribute that is indexed.
    pub attnum: i16,
    pub typ: u32,
    pub collation: u32,
    pub value: u64,
    pub isnull: bool,
}

/// How far the widening for one row has come.
#[derive(Clone, Debug, PartialEq)]
pub struct InsertRun {
    /// The attributes before this one are done.
    pub at: usize,
    /// Some column changed so far.
    pub changed: bool,
    /// What is known for the attribute under way.
    pub facts: WidenFacts,
}

impl InsertRun {
    pub open spec fn begun() -> InsertRun {
        InsertRun { at: 0, changed: false, facts: WidenFacts::nothing() }
    }

    /// A widening not begun.
    pub fn new() -> (r: Self)
        ensures
            r == InsertRun::begun(),
    {
        InsertRun { at: 0, changed: false, facts: WidenFacts::new() }
    }

    /// The run behind its current attribute.
    pub open spec fn passed(self, changed: bool) -> InsertRun {
        InsertRun {
            at: (self.at + 1) as usize,
            changed: self.changed || changed,
            facts: WidenFacts::nothing(),
        }
    }
}

/// What a [`Widening`] of a whole summary says.
pub enum InsertionModel {
    Ask(QuestionModel),
    Done(bool),
}

impl View for Widening {
    type V = InsertionModel;

    open spec fn view(&self) -> InsertionModel {
        match *self {
            Widening::Ask(q) => InsertionModel::Ask(q@),
            Widening::Done(b) => InsertionModel::Done(b),
        }
    }
}

/// The widening of a summary for an inserted row: the columns and the run as it leaves them,
/// and the next question or whether anything changed. An attribute without a summary is passed
/// over.
pub open spec fn insertion(cols: Seq<ColModel>, attrs: Seq<IndexedAttr>, run: InsertRun) -> (
    Seq<ColModel>,
    InsertRun,
    InsertionModel,
)
    decreases attrs.len() - run.at,
{
    if run.at >= attrs.len() || run.at == usize::MAX {
        (cols, run, InsertionModel::Done(run.changed))
    } else {
        let a = attrs[run.at as int];
        let i = position(cols, a.attnum);
        if 0 <= i < cols.len() {
            match column_widening(cols[i], a.typ, a.collation, a.value, a.isnull, run.facts) {
                WideningModel::Ask(q) => (cols, run, InsertionModel::Ask(q)),
                WideningModel::Done(col, changed) => insertion(
                    cols.update(i, col),
                    attrs,
                    run.passed(changed),
                ),
            }
        } else {
            insertion(cols, attrs, run.passed(false))
        }
    }
}

/// Widens a summary so that it covers an inserted row, and tells whether anything changed. Only
/// a summary that changed has to be written back.
pub fn widen_on_insert(
    summary: &mut IndexSummary,
    attrs: &Vec<IndexedAttr>,
    run: &mut InsertRun,
) -> (r: Widening)
    ensures
        insertion(old(summary)@, attrs@, *old(run)) == (final(summary)@, *final(run), r@),
{
    while run.at < attrs.len()
        invariant
            insertion(old(summary)@, attrs@, *old(run)) == insertion(summary@, attrs@, *run),
        decreases attrs@.len() - run.at,
    {
        let a = attrs[run.at];
        let ghost before = summary@;
        let changed: bool = match find_row(&summary.cols, a.attnum) {
            Some(i) => {
                let widening = widen_column(
                    &mut summary.cols[i],
                    a.typ,
                    a.collation,
                    a.value,
                    a.isnull,
                    &run.facts,
                );
                assert(summary@ =~= before.update(i as int, summary.cols@[i as int]@));
                match widening {
                    Widening::Ask(q) => {
                        assert(summary@ =~= before);
                        return Widening::Ask(q);
                    },
                    Widening::Done(changed) => changed,
                }
            },
            None => false,
        };
        run.at = run.at + 1;
        run.changed = run.changed || changed;
        run.facts = WidenFacts::new();
    }
    Widening::Done(run.changed)
}

/// What is left to do when an insert has gone through the index.
#[derive(Clone, Copy, Debug, PartialEq, Eq, Structural)]
pub struct Aftermath {
    /// The page's summary may not cover the row: the page is to be left without one.
    pub erase: bool,
    /// Plans that this process keeps may rest on the summary before, and no invalidation tells so:
    /// they are to be made anew.
    pub renew_plans: bool,
}

/// Decides what is left to do after an insert: `changed` says whether the stored summary changed,
/// nothing where the widening failed on the way; `sent` says whether an invalidation was sent.
pub fn after_insert(changed: Option<bool>, sent: bool) -> (r: Aftermath)
    ensures
        r.erase == (changed is None),
        r.renew_plans == (changed != Some(false) && !sent),
{
    match changed {
        Some(changed) => Aftermath { erase: false, renew_plans: changed && !sent },
        None => Aftermath { erase: true, renew_plans: !sent },
    }
}

// ---- building --------------------------------------------------------------------

/// The heap attributes that an index is over: the first `natts` of its attribute numbers, where
/// a negative count means none.
pub open spec fn first_attnums(natts: int, numbers: Seq<i16>) -> Seq<i16> {
    numbers.take(if natts < 0 {
        0
    } else {
        natts
    })
}

/// The heap attributes that an index is over. `numbers` has room for the most attributes an
/// index can have.
pub fn index_attnums(natts: i32, numbers: &[i16]) -> (r: Vec<i16>)
    requires
        natts <= numbers@.len(),
    ensures
        r@ == first_attnums(natts as int, numbers@),
{
    let mut out: Vec<i16> = Vec::new();
    let mut i: usize = 0;
    while natts > 0 && i < natts as usize
        invariant
            natts <= numbers@.len(),
            0 <= i <= (if natts < 0 {
                0
            } else {
                natts as int
            }),
            out@ == numbers@.take(i as int),
        decreases natts - i,
    {
        out.push(numbers[i]);
        assert(numbers@.take(i + 1) =~= numbers@.take(i as int).push(numbers@[i as int]));
        i += 1;
    }
    out
}

} // verus!
