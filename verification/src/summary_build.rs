//! Building a leaf partition's summary by scanning its data: which statements to run, and what
//! their results say of each column.

use vstd::prelude::*;
use crate::index_am::{flags_of, geometry_type, is_geometry};
use crate::index_storage::{opt_text, ColModel, ColSummary, IndexSummary};
use crate::text::{
    decimal, push_decimal, push_signed, quote_with, quoted, same_text, signed_decimal,
};

verus! {

// ---- statements ------------------------------------------------------------------

/// A text as an SQL string literal.
pub fn quote_literal(s: &str) -> (r: String)
    ensures
        r@ == quoted(s@, '\''),
{
    quote_with(s, '\'')
}

/// A name as an SQL identifier: always between double quotes, the ones inside doubled.
pub fn quote_ident(s: &str) -> (r: String)
    ensures
        r@ == quoted(s@, '"'),
{
    quote_with(s, '"')
}

/// The statement that selects a relation's name.
pub open spec fn relation_name_statement(relid: u32) -> Seq<char> {
    "SELECT "@ + decimal(relid as nat) + "::oid::regclass::text"@
}

pub fn relation_name_sql(relid: u32) -> (sql: String)
    ensures
        sql@ == relation_name_statement(relid),
{
    let mut sql = "SELECT ".to_string();
    push_decimal(&mut sql, relid);
    sql.append("::oid::regclass::text");
    sql
}

/// The statement that selects a column's attribute number by its name.
pub open spec fn attnum_statement(leaf: u32, col: Seq<char>) -> Seq<char> {
    "SELECT attnum FROM pg_attribute WHERE attrelid = "@ + decimal(leaf as nat)
        + "::oid AND attname = "@ + quoted(col, '\'') + " AND attnum > 0 AND NOT attisdropped"@
}

pub fn leaf_attnum_sql(leaf: u32, col: &str) -> (sql: String)
    ensures
        sql@ == attnum_statement(leaf, col@),
{
    let mut sql = "SELECT attnum FROM pg_attribute WHERE attrelid = ".to_string();
    push_decimal(&mut sql, leaf);
    sql.append("::oid AND attname = ");
    sql.append(&quote_literal(col));
    sql.append(" AND attnum > 0 AND NOT attisdropped");
    sql
}

/// The statement that selects the name and the kind of a column's type. The name is qualified: it
/// is read again in sessions with other search paths.
pub open spec fn kind_statement(leaf: u32, col: Seq<char>) -> Seq<char> {
    "SELECT format('%I.%I', n.nspname, t.typname) AS typename, t.typtype::text FROM pg_attribute a JOIN pg_type t ON t.oid = a.atttypid JOIN pg_namespace n ON n.oid = t.typnamespace WHERE a.attrelid = "@
        + decimal(leaf as nat) + "::oid AND a.attname = "@ + quoted(col, '\'')
        + " AND NOT a.attisdropped"@
}

pub fn column_kind_sql(leaf: u32, col: &str) -> (sql: String)
    ensures
        sql@ == kind_statement(leaf, col@),
{
    let mut sql =
        "SELECT format('%I.%I', n.nspname, t.typname) AS typename, t.typtype::text FROM pg_attribute a JOIN pg_type t ON t.oid = a.atttypid JOIN pg_namespace n ON n.oid = t.typnamespace WHERE a.attrelid = ".to_string();
    push_decimal(&mut sql, leaf);
    sql.append("::oid AND a.attname = ");
    sql.append(&quote_literal(col));
    sql.append(" AND NOT a.attisdropped");
    sql
}

/// The statement that selects the name of a column by its attribute number.
pub open spec fn column_name_statement(relid: u32, attnum: i16) -> Seq<char> {
    "SELECT attname::text FROM pg_attribute WHERE attrelid = "@ + decimal(relid as nat)
        + "::oid AND attnum = "@ + signed_decimal(attnum as int) + " AND NOT attisdropped"@
}

pub fn column_name_sql(relid: u32, attnum: i16) -> (sql: String)
    ensures
        sql@ == column_name_statement(relid, attnum),
{
    let mut sql = "SELECT attname::text FROM pg_attribute WHERE attrelid = ".to_string();
    push_decimal(&mut sql, relid);
    sql.append("::oid AND attnum = ");
    push_signed(&mut sql, attnum);
    sql.append(" AND NOT attisdropped");
    sql
}

// ---- how a column is summarised --------------------------------------------------

/// How a column is summarised.
#[derive(Clone, Copy, Debug, PartialEq, Eq, Structural)]
pub enum ColumnKind {
    /// By its btree minimum and maximum, for scalar comparisons.
    MinMax,
    /// A range type, by a covering range, for overlap tests.
    Range,
    /// PostGIS geometry, by its bounding extent, for overlap tests.
    Geometry,
}

/// The two expressions that give a column's minimum (or extent) and maximum as texts.
pub open spec fn bound_exprs(kind: ColumnKind, qcol: Seq<char>) -> (Seq<char>, Seq<char>) {
    match kind {
        ColumnKind::MinMax => ("min("@ + qcol + ")::text"@, "max("@ + qcol + ")::text"@),
        ColumnKind::Range => ("range_merge(range_agg("@ + qcol + "))::text"@, "NULL::text"@),
        ColumnKind::Geometry => ("ST_Extent("@ + qcol + ")::geometry::text"@, "NULL::text"@),
    }
}

fn around(before: &str, middle: &str, after: &str) -> (r: String)
    ensures
        r@ == before@ + middle@ + after@,
{
    let mut out = before.to_string();
    out.append(middle);
    out.append(after);
    out
}

impl ColumnKind {
    /// Whether the summary is an extent.
    pub fn overlap(&self) -> (r: bool)
        ensures
            r == (*self != ColumnKind::MinMax),
    {
        match self {
            ColumnKind::MinMax => false,
            _ => true,
        }
    }

    /// The expressions for minimum (or extent) and maximum of the quoted column.
    pub fn exprs(&self, qcol: &str) -> (r: (String, String))
        ensures
            (r.0@, r.1@) == bound_exprs(*self, qcol@),
    {
        match self {
            ColumnKind::MinMax => (
                around("min(", qcol, ")::text"),
                around("max(", qcol, ")::text"),
            ),
            ColumnKind::Range => (
                around("range_merge(range_agg(", qcol, "))::text"),
                "NULL::text".to_string(),
            ),
            ColumnKind::Geometry => (
                around("ST_Extent(", qcol, ")::geometry::text"),
                "NULL::text".to_string(),
            ),
        }
    }
}

/// The statement that scans a leaf for one column's counts and bounds.
pub open spec fn stats_statement(kind: ColumnKind, col: Seq<char>, leaf_name: Seq<char>) -> Seq<
    char,
> {
    let qcol = quoted(col, '"');
    let (first, second) = bound_exprs(kind, qcol);
    "SELECT count(*)::bigint, count("@ + qcol + ")::bigint, "@ + first + ", "@ + second + " FROM "@
        + leaf_name
}

pub fn stats_sql(kind: ColumnKind, col: &str, leaf_name: &str) -> (sql: String)
    ensures
        sql@ == stats_statement(kind, col@, leaf_name@),
{
    let qcol = quote_ident(col);
    let (first, second) = kind.exprs(&qcol);
    let mut sql = "SELECT count(*)::bigint, count(".to_string();
    sql.append(&qcol);
    sql.append(")::bigint, ");
    sql.append(&first);
    sql.append(", ");
    sql.append(&second);
    sql.append(" FROM ");
    sql.append(leaf_name);
    sql
}

/// What the catalog says of a column's type: its name and its kind.
#[derive(Clone, Debug, PartialEq)]
pub struct TypeRow {
    pub typename: Option<String>,
    pub typtype: Option<String>,
}

/// How a column is summarised, and the name of its type: range types and geometry by an extent,
/// everything else, also what the catalog does not name, by minimum and maximum.
pub open spec fn kind_of(row: Option<TypeRow>) -> (ColumnKind, Seq<char>) {
    match row {
        Some(TypeRow { typename: Some(name), typtype }) => (
            if opt_text(typtype) == Some("r"@) {
                ColumnKind::Range
            } else if geometry_type(name@) {
                ColumnKind::Geometry
            } else {
                ColumnKind::MinMax
            },
            name@,
        ),
        _ => (ColumnKind::MinMax, Seq::empty()),
    }
}

/// Classifies a column by its catalog row.
pub fn column_kind(row: &Option<TypeRow>) -> (r: (ColumnKind, String))
    ensures
        (r.0, r.1@) == kind_of(*row),
{
    match row {
        Some(TypeRow { typename: Some(name), typtype }) => {
            let is_range: bool = match typtype {
                Some(t) => same_text(t, "r"),
                None => false,
            };
            let kind = if is_range {
                ColumnKind::Range
            } else if is_geometry(name) {
                ColumnKind::Geometry
            } else {
                ColumnKind::MinMax
            };
            (kind, name.clone())
        },
        _ => {
            let name = String::new();
            assert(name@ =~= Seq::<char>::empty());
            (ColumnKind::MinMax, name)
        },
    }
}

// ---- one column ------------------------------------------------------------------

/// What the scan of a leaf gave for one column.
#[derive(Clone, Debug, PartialEq)]
pub struct StatsRow {
    pub total: Option<i64>,
    pub nonnull: Option<i64>,
    pub first: Option<String>,
    pub second: Option<String>,
}

/// A count, zero where the scan gave none.
pub open spec fn count_of(n: Option<i64>) -> int {
    match n {
        Some(v) => v as int,
        None => 0,
    }
}

/// The summary of one column: some values are null where there are more rows than values, all
/// are where there are rows but no values. Of a column that has values, but for which the scan gave
/// no range, only the flags are kept: without a range there is no value to cover.
pub open spec fn column_summary(
    attnum: i16,
    kind: ColumnKind,
    sql_type: Seq<char>,
    stats: Option<StatsRow>,
) -> ColModel {
    let (total, nonnull, first, second) = match stats {
        Some(s) => (count_of(s.total), count_of(s.nonnull), opt_text(s.first), opt_text(s.second)),
        None => (0, 0, None, None),
    };
    let col = ColModel {
        attnum,
        overlap: kind != ColumnKind::MinMax,
        sql_type,
        min: first,
        max: second,
        has_nulls: total > nonnull,
        all_nulls: total > 0 && nonnull == 0,
    };
    if kind == ColumnKind::MinMax && nonnull > 0 && (first is None || second is None) {
        flags_of(col)
    } else {
        col
    }
}

fn count_or_zero(n: Option<i64>) -> (r: i64)
    ensures
        r == count_of(n),
{
    match n {
        Some(v) => v,
        None => 0,
    }
}

/// Summarises one column from what the scan gave.
pub fn summarise(attnum: i16, kind: ColumnKind, sql_type: String, stats: &Option<StatsRow>) -> (r:
    ColSummary)
    ensures
        r@ == column_summary(attnum, kind, sql_type@, *stats),
{
    let (total, nonnull, min, max): (i64, i64, Option<String>, Option<String>) = match stats {
        Some(s) => (
            count_or_zero(s.total),
            count_or_zero(s.nonnull),
            copied(&s.first),
            copied(&s.second),
        ),
        None => (0, 0, None, None),
    };
    let has_nulls: bool = total > nonnull;
    let all_nulls: bool = total > 0 && nonnull == 0;
    if !kind.overlap() && nonnull > 0 && (min.is_none() || max.is_none()) {
        let r = ColSummary {
            attnum,
            overlap: true,
            sql_type: String::new(),
            min: None,
            max: None,
            has_nulls,
            all_nulls,
        };
        assert(r@ =~= column_summary(attnum, kind, sql_type@, *stats));
        return r;
    }
    ColSummary { attnum, overlap: kind.overlap(), sql_type, min, max, has_nulls, all_nulls }
}

fn copied(s: &Option<String>) -> (r: Option<String>)
    ensures
        opt_text(r) == opt_text(*s),
{
    match s {
        Some(t) => Some(t.clone()),
        None => None,
    }
}

/// One statement to run while a summary is built.
#[derive(Clone, Debug, PartialEq)]
pub enum BuildQuestion {
    /// Selects the leaf's name.
    Name(String),
    /// Selects a column's attribute number.
    Attnum(String),
    /// Selects a column's type.
    Kind(String),
    /// Selects a column's counts and bounds.
    Stats(String),
}

/// What a [`BuildQuestion`] says.
pub enum BuildQuestionModel {
    Name(Seq<char>),
    Attnum(Seq<char>),
    Kind(Seq<char>),
    Stats(Seq<char>),
}

impl View for BuildQuestion {
    type V = BuildQuestionModel;

    open spec fn view(&self) -> BuildQuestionModel {
        match *self {
            BuildQuestion::Name(sql) => BuildQuestionModel::Name(sql@),
            BuildQuestion::Attnum(sql) => BuildQuestionModel::Attnum(sql@),
            BuildQuestion::Kind(sql) => BuildQuestionModel::Kind(sql@),
            BuildQuestion::Stats(sql) => BuildQuestionModel::Stats(sql@),
        }
    }
}

/// What a statement gave; `None` where it gave no row, or no value.
#[derive(Clone, Debug, PartialEq)]
pub enum BuildAnswer {
    Name(Option<String>),
    Attnum(Option<i16>),
    Kind(Option<TypeRow>),
    Stats(Option<StatsRow>),
}

/// What is known for the column under way; `None` is not known yet.
#[derive(Clone, Debug, PartialEq)]
pub struct ColumnFacts {
    pub attnum: Option<Option<i16>>,
    pub kind: Option<Option<TypeRow>>,
    pub stats: Option<Option<StatsRow>>,
}

impl ColumnFacts {
    pub open spec fn nothing() -> ColumnFacts {
        ColumnFacts { attnum: None, kind: None, stats: None }
    }

    /// Nothing known yet.
    pub fn new() -> (r: Self)
        ensures
            r == ColumnFacts::nothing(),
    {
        ColumnFacts { attnum: None, kind: None, stats: None }
    }
}

/// A column: the next statement, passed over because the leaf lacks it, or summarised.
pub enum ColumnStep {
    Ask(BuildQuestion),
    Absent,
    Built(ColSummary),
}

/// What a [`ColumnStep`] says.
pub enum ColumnModel {
    Ask(BuildQuestionModel),
    Absent,
    Built(ColModel),
}

impl View for ColumnStep {
    type V = ColumnModel;

    open spec fn view(&self) -> ColumnModel {
        match *self {
            ColumnStep::Ask(q) => ColumnModel::Ask(q@),
            ColumnStep::Absent => ColumnModel::Absent,
            ColumnStep::Built(c) => ColumnModel::Built(c@),
        }
    }
}

/// What becomes of one column, given what is known.
pub open spec fn column_build(
    leaf: u32,
    leaf_name: Seq<char>,
    col: Seq<char>,
    facts: ColumnFacts,
) -> ColumnModel {
    match (facts.attnum, facts.kind) {
        (None, _) => ColumnModel::Ask(BuildQuestionModel::Attnum(attnum_statement(leaf, col))),
        (Some(None), _) => ColumnModel::Absent,
        (Some(Some(_)), None) => ColumnModel::Ask(
            BuildQuestionModel::Kind(kind_statement(leaf, col)),
        ),
        (Some(Some(attnum)), Some(row)) => {
            let (kind, sql_type) = kind_of(row);
            match facts.stats {
                None => ColumnModel::Ask(
                    BuildQuestionModel::Stats(stats_statement(kind, col, leaf_name)),
                ),
                Some(stats) => ColumnModel::Built(column_summary(attnum, kind, sql_type, stats)),
            }
        },
    }
}

/// Takes one column as far as what is known carries it.
pub fn build_column(leaf: u32, leaf_name: &str, col: &str, facts: &ColumnFacts) -> (r: ColumnStep)
    ensures
        r@ == column_build(leaf, leaf_name@, col@, *facts),
{
    let attnum: i16 = match facts.attnum {
        None => return ColumnStep::Ask(BuildQuestion::Attnum(leaf_attnum_sql(leaf, col))),
        Some(None) => return ColumnStep::Absent,
        Some(Some(a)) => a,
    };
    let row = match &facts.kind {
        None => return ColumnStep::Ask(BuildQuestion::Kind(column_kind_sql(leaf, col))),
        Some(row) => row,
    };
    let (kind, sql_type) = column_kind(row);
    match &facts.stats {
        None => ColumnStep::Ask(BuildQuestion::Stats(stats_sql(kind, col, leaf_name))),
        Some(stats) => ColumnStep::Built(summarise(attnum, kind, sql_type, stats)),
    }
}

// ---- a leaf ----------------------------------------------------------------------

/// How far the building of a leaf's summary has come.
pub struct BuildRun {
    /// The leaf's name, once it is known.
    pub name: Option<Option<String>>,
    /// The columns before this one are done.
    pub at: usize,
    /// What is known for the column under way.
    pub facts: ColumnFacts,
    /// The summary of the columns done.
    pub summary: IndexSummary,
}

/// What a [`BuildRun`] says.
#[verifier::ext_equal]
pub struct BuildModel {
    pub name: Option<Option<Seq<char>>>,
    pub at: int,
    pub facts: ColumnFacts,
    pub summary: Seq<ColModel>,
}

impl View for BuildRun {
    type V = BuildModel;

    open spec fn view(&self) -> BuildModel {
        BuildModel {
            name: match self.name {
                Some(n) => Some(opt_text(n)),
                None => None,
            },
            at: self.at as int,
            facts: self.facts,
            summary: self.summary@,
        }
    }
}

impl BuildModel {
    pub open spec fn begun() -> BuildModel {
        BuildModel {
            name: None,
            at: 0,
            facts: ColumnFacts::nothing(),
            summary: Seq::empty(),
        }
    }

    /// The next column's turn, with `summary` for the columns done.
    pub open spec fn passed(self, summary: Seq<ColModel>) -> BuildModel {
        BuildModel { at: self.at + 1, facts: ColumnFacts::nothing(), summary, ..self }
    }

    /// The run with an answer noted.
    pub open spec fn learned(self, answer: BuildAnswer) -> BuildModel {
        match answer {
            BuildAnswer::Name(a) => BuildModel { name: Some(opt_text(a)), ..self },
            BuildAnswer::Attnum(a) => BuildModel {
                facts: ColumnFacts { attnum: Some(a), ..self.facts },
                ..self
            },
            BuildAnswer::Kind(a) => BuildModel {
                facts: ColumnFacts { kind: Some(a), ..self.facts },
                ..self
            },
            BuildAnswer::Stats(a) => BuildModel {
                facts: ColumnFacts { stats: Some(a), ..self.facts },
                ..self
            },
        }
    }
}

/// The texts of a list.
pub open spec fn texts(v: Seq<String>) -> Seq<Seq<char>> {
    Seq::new(v.len(), |i: int| v[i]@)
}

/// The building of a leaf's summary: the run as it leaves it, and the next statement, or nothing
/// where the run's summary is complete. A leaf without a name has an empty summary, and a column
/// that the leaf lacks is left out.
pub open spec fn leaf_build(leaf: u32, columns: Seq<Seq<char>>, run: BuildModel) -> (
    BuildModel,
    Option<BuildQuestionModel>,
)
    decreases columns.len() - run.at,
{
    match run.name {
        None => (run, Some(BuildQuestionModel::Name(relation_name_statement(leaf)))),
        Some(None) => (run, None),
        Some(Some(name)) => if 0 <= run.at < columns.len() {
            match column_build(leaf, name, columns[run.at], run.facts) {
                ColumnModel::Ask(q) => (run, Some(q)),
                ColumnModel::Absent => leaf_build(leaf, columns, run.passed(run.summary)),
                ColumnModel::Built(c) => leaf_build(
                    leaf,
                    columns,
                    run.passed(run.summary.push(c)),
                ),
            }
        } else {
            (run, None)
        },
    }
}

impl BuildRun {
    /// A building not begun.
    pub fn new() -> (r: Self)
        ensures
            r@ == BuildModel::begun(),
    {
        let r = BuildRun {
            name: None,
            at: 0,
            facts: ColumnFacts::new(),
            summary: IndexSummary::default(),
        };
        assert(r@ =~= BuildModel::begun());
        r
    }

    /// Notes what the statement gave that [`build_one_leaf`] asked for.
    pub fn learn(&mut self, answer: BuildAnswer)
        ensures
            final(self)@ == old(self)@.learned(answer),
    {
        match answer {
            BuildAnswer::Name(a) => self.name = Some(a),
            BuildAnswer::Attnum(a) => self.facts.attnum = Some(a),
            BuildAnswer::Kind(a) => self.facts.kind = Some(a),
            BuildAnswer::Stats(a) => self.facts.stats = Some(a),
        }
    }
}

/// Builds the summary of a leaf's named columns as far as what is known carries it. Once no
/// statement is asked for, `run.summary` is the summary.
pub fn build_one_leaf(leaf: u32, columns: &Vec<String>, run: &mut BuildRun) -> (r: Option<
    BuildQuestion,
>)
    ensures
        leaf_build(leaf, texts(columns@), old(run)@) == (
            final(run)@,
            match r {
                Some(q) => Some(q@),
                None => None,
            },
        ),
{
    let ghost start = run@;
    if run.name.is_none() {
        return Some(BuildQuestion::Name(relation_name_sql(leaf)));
    }
    while run.at < columns.len()
        invariant
            start == old(run)@,
            run.name is Some,
            leaf_build(leaf, texts(columns@), start) == leaf_build(leaf, texts(columns@), run@),
        decreases columns@.len() - run.at,
    {
        let step = match &run.name {
            Some(Some(name)) => build_column(leaf, name, &columns[run.at], &run.facts),
            _ => return None,
        };
        let ghost before = run@;
        match step {
            ColumnStep::Ask(q) => return Some(q),
            ColumnStep::Absent => {},
            ColumnStep::Built(c) => {
                run.summary.cols.push(c);
                assert(run.summary@ =~= before.summary.push(c@));
            },
        }
        run.at = run.at + 1;
        run.facts = ColumnFacts::new();
        assert(step is Absent ==> run@ =~= before.passed(before.summary));
        assert(step matches ColumnStep::Built(c) ==> run@ =~= before.passed(
            before.summary.push(c@),
        ));
    }
    None
}

// ---- column names ----------------------------------------------------------------

/// How far the lookup of column names has come.
pub struct NamesRun {
    /// The attribute numbers before this one are done.
    pub at: usize,
    /// What the lookup of the current one gave, once it is known.
    pub name: Option<Option<String>>,
    /// The names found.
    pub names: Vec<String>,
}

/// What a [`NamesRun`] says.
#[verifier::ext_equal]
pub struct NamesModel {
    pub at: int,
    pub name: Option<Option<Seq<char>>>,
    pub names: Seq<Seq<char>>,
}

impl View for NamesRun {
    type V = NamesModel;

    open spec fn view(&self) -> NamesModel {
        NamesModel {
            at: self.at as int,
            name: match self.name {
                Some(n) => Some(opt_text(n)),
                None => None,
            },
            names: texts(self.names@),
        }
    }
}

/// The lookup of column names: the run as it leaves it, and the next statement, or nothing where
/// the run's names are complete. System columns and expressions, whose numbers are not positive,
/// are left out, and so are columns without a name.
pub open spec fn names_lookup(relid: u32, attnums: Seq<i16>, run: NamesModel) -> (
    NamesModel,
    Option<Seq<char>>,
)
    decreases attnums.len() - run.at,
{
    if 0 <= run.at < attnums.len() {
        let attnum = attnums[run.at];
        let next = NamesModel { at: run.at + 1, name: None, names: run.names };
        if attnum <= 0 {
            names_lookup(relid, attnums, next)
        } else {
            match run.name {
                None => (run, Some(column_name_statement(relid, attnum))),
                Some(None) => names_lookup(relid, attnums, next),
                Some(Some(n)) => names_lookup(
                    relid,
                    attnums,
                    NamesModel { names: run.names.push(n), ..next },
                ),
            }
        }
    } else {
        (run, None)
    }
}

impl NamesRun {
    /// A lookup not begun.
    pub fn new() -> (r: Self)
        ensures
            r@ == (NamesModel { at: 0, name: None, names: Seq::empty() }),
    {
        let r = NamesRun { at: 0, name: None, names: Vec::new() };
        assert(r@ =~= (NamesModel { at: 0, name: None, names: Seq::empty() }));
        r
    }

    /// Notes what the statement gave that [`column_names_for_attnums`] asked for.
    pub fn learn(&mut self, name: Option<String>)
        ensures
            final(self)@ == (NamesModel { name: Some(opt_text(name)), ..old(self)@ }),
    {
        self.name = Some(name);
    }
}

/// Looks up the names of the columns with these attribute numbers, as far as what is known
/// carries it. Once no statement is asked for, `run.names` are the names.
pub fn column_names_for_attnums(relid: u32, attnums: &Vec<i16>, run: &mut NamesRun) -> (r: Option<
    String,
>)
    ensures
        names_lookup(relid, attnums@, old(run)@) == (final(run)@, opt_text(r)),
{
    let ghost start = run@;
    while run.at < attnums.len()
        invariant
            start == old(run)@,
            names_lookup(relid, attnums@, start) == names_lookup(relid, attnums@, run@),
        decreases attnums@.len() - run.at,
    {
        let attnum: i16 = attnums[run.at];
        let ghost before = run@;
        if attnum > 0 {
            match &run.name {
                None => return Some(column_name_sql(relid, attnum)),
                Some(None) => {},
                Some(Some(n)) => {
                    let found = n.clone();
                    run.names.push(found);
                    assert(texts(run.names@) =~= before.names.push(found@));
                },
            }
        }
        run.at = run.at + 1;
        run.name = None;
    }
    None
}

} // verus!
