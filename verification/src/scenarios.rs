//! End-to-end scenarios of the extension, as scripts.
//!
//! A scenario builds a table whose partitions hold disjoint value ranges, summarises it with
//! `CREATE INDEX ... USING table_range`, and then looks at two things: that the planner eliminates
//! the partitions that cannot match, and that results are the same with pruning on and off. The
//! partition key always differs from the queried column, so only the summaries can help.
//!
//! Each scenario is a list of [`Step`]s. Whoever has a server at hand executes them in order and
//! lets [`judge`] decide on what was observed.

use vstd::prelude::*;
use crate::text::{contains, count_matches, decimal, mentions, occurrences, push_decimal, same_text};

verus! {

// ---- steps -----------------------------------------------------------------------

/// One step of a scenario.
pub enum Step {
    /// Execute the statement.
    Run { sql: String },
    /// Execute the `EXPLAIN` statement: the plan mentions what is shown and nothing of what is
    /// hidden.
    Plan { sql: String, shown: Vec<&'static str>, hidden: Vec<&'static str> },
    /// Execute the `EXPLAIN` statement: the plan mentions `shown`, and `needle` this often.
    PlanCount { sql: String, shown: &'static str, needle: &'static str, times: usize },
    /// The statement counts exactly this many rows.
    Count { sql: String, expected: i64 },
    /// The statement counts this many rows or more.
    AtLeast { sql: String, expected: i64 },
    /// The statement counts as many rows with pruning off as with pruning on.
    SameCount { sql: String },
    /// The statement selects this text.
    Text { sql: String, expected: &'static str },
}

/// What a [`Step`] says, with its texts as character sequences.
#[verifier::ext_equal]
pub enum StepModel {
    Run(Seq<char>),
    Plan(Seq<char>, Seq<Seq<char>>, Seq<Seq<char>>),
    PlanCount(Seq<char>, Seq<char>, Seq<char>, int),
    Count(Seq<char>, int),
    AtLeast(Seq<char>, int),
    SameCount(Seq<char>),
    Text(Seq<char>, Seq<char>),
}

/// The character sequences of some texts.
pub open spec fn strs(v: Seq<&'static str>) -> Seq<Seq<char>> {
    Seq::new(v.len(), |i: int| v[i]@)
}

impl View for Step {
    type V = StepModel;

    open spec fn view(&self) -> StepModel {
        match *self {
            Step::Run { sql } => StepModel::Run(sql@),
            Step::Plan { sql, shown, hidden } => StepModel::Plan(sql@, strs(shown@), strs(hidden@)),
            Step::PlanCount { sql, shown, needle, times } => StepModel::PlanCount(
                sql@,
                shown@,
                needle@,
                times as int,
            ),
            Step::Count { sql, expected } => StepModel::Count(sql@, expected as int),
            Step::AtLeast { sql, expected } => StepModel::AtLeast(sql@, expected as int),
            Step::SameCount { sql } => StepModel::SameCount(sql@),
            Step::Text { sql, expected } => StepModel::Text(sql@, expected@),
        }
    }
}

/// What the steps of a script say.
pub open spec fn script(v: Seq<Step>) -> Seq<StepModel> {
    Seq::new(v.len(), |i: int| v[i]@)
}

/// What was observed when a step was executed.
pub enum Observation {
    /// The statement ran.
    Ran,
    /// The text of the plan.
    Plan(String),
    /// A count.
    Count(i64),
    /// The counts with pruning off and on.
    Counts { off: i64, on: i64 },
    /// A text.
    Text(String),
}

/// The observation is what the step expects.
pub open spec fn as_expected(step: Step, seen: Observation) -> bool {
    match (step, seen) {
        (Step::Run { .. }, Observation::Ran) => true,
        (Step::Plan { shown, hidden, .. }, Observation::Plan(plan)) => {
            &&& forall|i: int| 0 <= i < shown@.len() ==> mentions(plan@, #[trigger] shown@[i]@)
            &&& forall|i: int| 0 <= i < hidden@.len() ==> !mentions(plan@, #[trigger] hidden@[i]@)
        },
        (Step::PlanCount { shown, needle, times, .. }, Observation::Plan(plan)) => mentions(
            plan@,
            shown@,
        ) && occurrences(plan@, needle@, 0) == times,
        (Step::Count { expected, .. }, Observation::Count(n)) => n == expected,
        (Step::AtLeast { expected, .. }, Observation::Count(n)) => n >= expected,
        (Step::SameCount { .. }, Observation::Counts { off, on }) => on == off,
        (Step::Text { expected, .. }, Observation::Text(text)) => text@ == expected@,
        _ => false,
    }
}

fn mentions_all(plan: &str, names: &Vec<&'static str>) -> (r: bool)
    ensures
        r == forall|i: int| 0 <= i < names@.len() ==> mentions(plan@, #[trigger] names@[i]@),
{
    let mut i: usize = 0;
    while i < names.len()
        invariant
            0 <= i <= names@.len(),
            forall|k: int| 0 <= k < i ==> mentions(plan@, #[trigger] names@[k]@),
        decreases names@.len() - i,
    {
        if !contains(plan, names[i]) {
            assert(!mentions(plan@, names@[i as int]@));
            return false;
        }
        i += 1;
    }
    true
}

fn mentions_none(plan: &str, names: &Vec<&'static str>) -> (r: bool)
    ensures
        r == forall|i: int| 0 <= i < names@.len() ==> !mentions(plan@, #[trigger] names@[i]@),
{
    let mut i: usize = 0;
    while i < names.len()
        invariant
            0 <= i <= names@.len(),
            forall|k: int| 0 <= k < i ==> !mentions(plan@, #[trigger] names@[k]@),
        decreases names@.len() - i,
    {
        if contains(plan, names[i]) {
            assert(mentions(plan@, names@[i as int]@));
            return false;
        }
        i += 1;
    }
    true
}

/// Decides whether an observation is what the step expects.
pub fn judge(step: &Step, seen: &Observation) -> (r: bool)
    ensures
        r == as_expected(*step, *seen),
{
    match (step, seen) {
        (Step::Run { .. }, Observation::Ran) => true,
        (Step::Plan { shown, hidden, .. }, Observation::Plan(plan)) => mentions_all(plan, shown)
            && mentions_none(plan, hidden),
        (Step::PlanCount { shown, needle, times, .. }, Observation::Plan(plan)) => contains(
            plan,
            shown,
        ) && count_matches(plan, needle) == *times,
        (Step::Count { expected, .. }, Observation::Count(n)) => *n == *expected,
        (Step::AtLeast { expected, .. }, Observation::Count(n)) => *n >= *expected,
        (Step::SameCount { .. }, Observation::Counts { off, on }) => *on == *off,
        (Step::Text { expected, .. }, Observation::Text(text)) => same_text(text, expected),
        _ => false,
    }
}

// ---- statements ------------------------------------------------------------------

/// The statement that summarises columns of a table in an index named after the table.
pub open spec fn build_statement(table: Seq<char>, cols: Seq<char>) -> Seq<char> {
    "CREATE INDEX "@ + table + "_tr ON "@ + table + " USING table_range ("@ + cols + ")"@
}

/// Summarises columns of a table in an index named after the table.
pub fn e2e_build(table: &str, cols: &str) -> (sql: String)
    ensures
        sql@ == build_statement(table@, cols@),
{
    let mut sql = "CREATE INDEX ".to_string();
    sql.append(table);
    sql.append("_tr ON ");
    sql.append(table);
    sql.append(" USING table_range (");
    sql.append(cols);
    sql.append(")");
    sql
}

/// The statement that explains a query, without costs.
pub fn e2e_explain(query: &str) -> (sql: String)
    ensures
        sql@ == "EXPLAIN (COSTS OFF) "@ + query@,
{
    let mut sql = "EXPLAIN (COSTS OFF) ".to_string();
    sql.append(query);
    sql
}

/// The statement that explains the rows of a table that match a predicate.
pub open spec fn explain_statement(table: Seq<char>, pred: Seq<char>) -> Seq<char> {
    "EXPLAIN (COSTS OFF) "@ + ("SELECT * FROM "@ + table + " WHERE "@ + pred)
}

/// Explains the rows of a table that match a predicate.
pub fn e2e_explain_on(table: &str, pred: &str) -> (sql: String)
    ensures
        sql@ == explain_statement(table@, pred@),
{
    let mut query = "SELECT * FROM ".to_string();
    query.append(table);
    query.append(" WHERE ");
    query.append(pred);
    e2e_explain(&query)
}

/// The lines from the `i`-th on that a plan has a text for, each ended by a line break.
pub open spec fn plan_from(lines: Seq<Option<String>>, i: int) -> Seq<char>
    decreases lines.len() - i,
{
    if 0 <= i < lines.len() {
        (match lines[i] {
            Some(line) => line@.push('\n'),
            None => Seq::empty(),
        }) + plan_from(lines, i + 1)
    } else {
        Seq::empty()
    }
}

/// The text of a plan, from the lines that the server gave.
pub fn plan_text(lines: &Vec<Option<String>>) -> (r: String)
    ensures
        r@ == plan_from(lines@, 0),
{
    let mut out = String::new();
    let mut i: usize = 0;
    while i < lines.len()
        invariant
            0 <= i <= lines@.len(),
            plan_from(lines@, 0) =~= out@ + plan_from(lines@, i as int),
        decreases lines@.len() - i,
    {
        if let Some(line) = &lines[i] {
            out.append(line);
            out.push('\n');
        }
        i += 1;
    }
    out
}

/// Switches pruning on or off.
pub fn e2e_set_pruning(on: bool) -> (sql: String)
    ensures
        sql@ == "SET table_range.enable_pruning = "@ + (if on {
            "on"@
        } else {
            "off"@
        }),
{
    let mut sql = "SET table_range.enable_pruning = ".to_string();
    if on {
        sql.append("on");
    } else {
        sql.append("off");
    }
    sql
}

/// The statement that counts the rows of a table that match a predicate.
pub open spec fn count_statement(table: Seq<char>, pred: Seq<char>) -> Seq<char> {
    "SELECT count(*)::bigint FROM "@ + table + " WHERE "@ + pred
}

fn count_sql(table: &str, pred: &str) -> (sql: String)
    ensures
        sql@ == count_statement(table@, pred@),
{
    let mut sql = "SELECT count(*)::bigint FROM ".to_string();
    sql.append(table);
    sql.append(" WHERE ");
    sql.append(pred);
    sql
}

/// Counts the events that match a predicate.
pub fn e2e_count_where(pred: &str) -> (sql: String)
    ensures
        sql@ == count_statement("events"@, pred@),
{
    count_sql("events", pred)
}

// ---- building scripts ------------------------------------------------------------

/// The step that switches pruning on or off.
pub open spec fn pruning_step(on: bool) -> StepModel {
    StepModel::Run(
        "SET table_range.enable_pruning = "@ + (if on {
            "on"@
        } else {
            "off"@
        }),
    )
}

/// The step that explains the matching rows of a table.
pub open spec fn plan_step(
    table: Seq<char>,
    pred: Seq<char>,
    shown: Seq<&'static str>,
    hidden: Seq<&'static str>,
) -> StepModel {
    StepModel::Plan(explain_statement(table, pred), strs(shown), strs(hidden))
}

/// The step that counts the matching rows of a table.
pub open spec fn count_step(table: Seq<char>, pred: Seq<char>, expected: int) -> StepModel {
    StepModel::Count(count_statement(table, pred), expected)
}

/// The steps that compare the counts with pruning off and on, for each predicate.
pub open spec fn same_steps(table: Seq<char>, preds: Seq<&'static str>) -> Seq<StepModel> {
    Seq::new(
        preds.len(),
        |i: int| StepModel::SameCount(count_statement(table, preds[i]@)),
    )
}

fn add_step(steps: &mut Vec<Step>, step: Step)
    ensures
        script(final(steps)@) == script(old(steps)@).push(step@),
{
    steps.push(step);
    assert(script(steps@) =~= script(old(steps)@).push(step@));
}

fn add_run(steps: &mut Vec<Step>, sql: &str)
    ensures
        script(final(steps)@) == script(old(steps)@).push(StepModel::Run(sql@)),
{
    add_step(steps, Step::Run { sql: sql.to_string() });
}

fn add_pruning(steps: &mut Vec<Step>, on: bool)
    ensures
        script(final(steps)@) == script(old(steps)@).push(pruning_step(on)),
{
    add_step(steps, Step::Run { sql: e2e_set_pruning(on) });
}

fn add_plan(
    steps: &mut Vec<Step>,
    table: &str,
    pred: &str,
    shown: Vec<&'static str>,
    hidden: Vec<&'static str>,
)
    ensures
        script(final(steps)@) == script(old(steps)@).push(
            plan_step(table@, pred@, shown@, hidden@),
        ),
{
    add_step(steps, Step::Plan { sql: e2e_explain_on(table, pred), shown, hidden });
}

fn add_count(steps: &mut Vec<Step>, table: &str, pred: &str, expected: i64)
    ensures
        script(final(steps)@) == script(old(steps)@).push(
            count_step(table@, pred@, expected as int),
        ),
{
    add_step(steps, Step::Count { sql: count_sql(table, pred), expected });
}

fn add_same(steps: &mut Vec<Step>, table: &str, preds: Vec<&'static str>)
    ensures
        script(final(steps)@) == script(old(steps)@) + same_steps(table@, preds@),
{
    let ghost before = script(steps@);
    let ghost all = same_steps(table@, preds@);
    let mut i: usize = 0;
    assert(before + all.take(0) =~= before);
    while i < preds.len()
        invariant
            0 <= i <= preds@.len(),
            all == same_steps(table@, preds@),
            script(steps@) == before + all.take(i as int),
        decreases preds@.len() - i,
    {
        add_step(steps, Step::SameCount { sql: count_sql(table, preds[i]) });
        assert(all.take(i + 1) =~= all.take(i as int).push(all[i as int]));
        assert(script(steps@) =~= before + all.take(i + 1));
        i += 1;
    }
    assert(all.take(preds@.len() as int) =~= all);
}

// ---- the events table ------------------------------------------------------------

/// The steps of [`e2e_setup_events`].
pub open spec fn events_script() -> Seq<StepModel> {
    seq![
        StepModel::Run(
            "DROP TABLE IF EXISTS events CASCADE;
         CREATE TABLE events (region int, val bigint) PARTITION BY LIST (region);
         CREATE TABLE events_r1 PARTITION OF events FOR VALUES IN (1);
         CREATE TABLE events_r2 PARTITION OF events FOR VALUES IN (2);
         CREATE TABLE events_r3 PARTITION OF events FOR VALUES IN (3);
         INSERT INTO events SELECT 1, g FROM generate_series(0, 99) g;
         INSERT INTO events SELECT 2, g FROM generate_series(100, 199) g;
         INSERT INTO events SELECT 3, g FROM generate_series(200, 299) g;"@,
        ),
        StepModel::Run(build_statement("events"@, "val"@)),
    ]
}

/// Builds a table with three list partitions and disjoint values, and summarises the values:
/// 0 to 99 in `events_r1`, 100 to 199 in `events_r2`, 200 to 299 in `events_r3`.
pub fn e2e_setup_events() -> (steps: Vec<Step>)
    ensures
        script(steps@) =~~= events_script(),
{
    let mut steps: Vec<Step> = Vec::new();
    add_run(
        &mut steps,
        "DROP TABLE IF EXISTS events CASCADE;
         CREATE TABLE events (region int, val bigint) PARTITION BY LIST (region);
         CREATE TABLE events_r1 PARTITION OF events FOR VALUES IN (1);
         CREATE TABLE events_r2 PARTITION OF events FOR VALUES IN (2);
         CREATE TABLE events_r3 PARTITION OF events FOR VALUES IN (3);
         INSERT INTO events SELECT 1, g FROM generate_series(0, 99) g;
         INSERT INTO events SELECT 2, g FROM generate_series(100, 199) g;
         INSERT INTO events SELECT 3, g FROM generate_series(200, 299) g;",
    );
    add_run(&mut steps, &e2e_build("events", "val"));
    steps
}

/// A high bound leaves only the highest partition.
pub fn e2e_prunes_lower_partitions_for_high_predicate() -> (steps: Vec<Step>)
    ensures
        script(steps@) =~~= events_script()
            .push(pruning_step(true))
            .push(
                plan_step(
                    "events"@,
                    "val >= 250"@,
                    seq!["events_r3"],
                    seq!["events_r1", "events_r2"],
                ),
            ),
{
    let mut steps = e2e_setup_events();
    add_pruning(&mut steps, true);
    add_plan(&mut steps, "events", "val >= 250", vec!["events_r3"], vec!["events_r1", "events_r2"]);
    steps
}

/// A low bound leaves only the lowest partition.
pub fn e2e_prunes_upper_partitions_for_low_predicate() -> (steps: Vec<Step>)
    ensures
        script(steps@) =~~= events_script()
            .push(pruning_step(true))
            .push(
                plan_step(
                    "events"@,
                    "val < 50"@,
                    seq!["events_r1"],
                    seq!["events_r2", "events_r3"],
                ),
            ),
{
    let mut steps = e2e_setup_events();
    add_pruning(&mut steps, true);
    add_plan(&mut steps, "events", "val < 50", vec!["events_r1"], vec!["events_r2", "events_r3"]);
    steps
}

/// A bound that every partition meets leaves all of them.
pub fn e2e_keeps_all_partitions_for_wide_predicate() -> (steps: Vec<Step>)
    ensures
        script(steps@) =~~= events_script()
            .push(pruning_step(true))
            .push(
                plan_step(
                    "events"@,
                    "val >= 0"@,
                    seq!["events_r1", "events_r2", "events_r3"],
                    Seq::empty(),
                ),
            ),
{
    let mut steps = e2e_setup_events();
    add_pruning(&mut steps, true);
    add_plan(
        &mut steps,
        "events",
        "val >= 0",
        vec!["events_r1", "events_r2", "events_r3"],
        Vec::new(),
    );
    steps
}

/// Results are the same with pruning on and off.
pub fn e2e_results_identical_with_pruning_on_and_off() -> (steps: Vec<Step>)
    ensures
        script(steps@) =~~= events_script()
            + same_steps(
                "events"@,
                seq![
                    "val >= 250",
                    "val < 50",
                    "val = 150",
                    "val BETWEEN 90 AND 110",
                    "val > 1000",
                    "val <= 0",
                    "val IN (5, 150, 295)",
                ],
            ),
{
    let mut steps = e2e_setup_events();
    add_same(
        &mut steps,
        "events",
        vec![
            "val >= 250",
            "val < 50",
            "val = 150",
            "val BETWEEN 90 AND 110",
            "val > 1000",
            "val <= 0",
            "val IN (5, 150, 295)",
        ],
    );
    steps
}

/// Equality with a partition's bound leaves that partition.
pub fn e2e_boundary_equality_keeps_correct_partition() -> (steps: Vec<Step>)
    ensures
        script(steps@) =~~= events_script()
            .push(pruning_step(true))
            .push(
                plan_step(
                    "events"@,
                    "val = 100"@,
                    seq!["events_r2"],
                    seq!["events_r1", "events_r3"],
                ),
            )
            .push(count_step("events"@, "val = 100"@, 1)),
{
    let mut steps = e2e_setup_events();
    add_pruning(&mut steps, true);
    add_plan(&mut steps, "events", "val = 100", vec!["events_r2"], vec!["events_r1", "events_r3"]);
    add_count(&mut steps, "events", "val = 100", 1);
    steps
}

/// With pruning off every partition is scanned.
pub fn e2e_disabled_pruning_scans_all_partitions() -> (steps: Vec<Step>)
    ensures
        script(steps@) =~~= events_script()
            .push(pruning_step(false))
            .push(
                plan_step(
                    "events"@,
                    "val >= 250"@,
                    seq!["events_r1", "events_r2", "events_r3"],
                    Seq::empty(),
                ),
            ),
{
    let mut steps = e2e_setup_events();
    add_pruning(&mut steps, false);
    add_plan(
        &mut steps,
        "events",
        "val >= 250",
        vec!["events_r1", "events_r2", "events_r3"],
        Vec::new(),
    );
    steps
}

/// A table without partitions is summarised and queried like one.
pub fn e2e_works_on_plain_unpartitioned_table() -> (steps: Vec<Step>)
    ensures
        script(steps@) =~~= Seq::<StepModel>::empty()
            .push(StepModel::Run("DROP TABLE IF EXISTS plain_t CASCADE;
         CREATE TABLE plain_t (val bigint);
         INSERT INTO plain_t SELECT g FROM generate_series(0, 99) g;"@))
            .push(StepModel::Run(build_statement("plain_t"@, "val"@)))
            .push(pruning_step(true))
            .push(count_step("plain_t"@, "val >= 50"@, 50))
            .push(count_step("plain_t"@, "val > 1000"@, 0)),
{
    let mut steps = Vec::new();
    add_run(&mut steps, "DROP TABLE IF EXISTS plain_t CASCADE;
         CREATE TABLE plain_t (val bigint);
         INSERT INTO plain_t SELECT g FROM generate_series(0, 99) g;");
    add_run(&mut steps, &e2e_build("plain_t", "val"));
    add_pruning(&mut steps, true);
    add_count(&mut steps, "plain_t", "val >= 50", 50);
    add_count(&mut steps, "plain_t", "val > 1000", 0);
    steps
}

/// A row that is inserted far outside of its partition's range is found, and its partition is
/// no longer pruned for it.
pub fn e2e_insert_keeps_results_correct_via_staleness() -> (steps: Vec<Step>)
    ensures
        script(steps@) =~~= events_script()
            .push(pruning_step(true))
            .push(count_step("events"@, "val = 500"@, 0))
            .push(StepModel::Run("INSERT INTO events VALUES (1, 500)"@))
            .push(count_step("events"@, "val = 500"@, 1))
            .push(plan_step("events"@, "val = 500"@, seq!["events_r1"], Seq::empty())),
{
    let mut steps = e2e_setup_events();
    add_pruning(&mut steps, true);
    add_count(&mut steps, "events", "val = 500", 0);
    add_run(&mut steps, "INSERT INTO events VALUES (1, 500)");
    add_count(&mut steps, "events", "val = 500", 1);
    add_plan(&mut steps, "events", "val = 500", vec!["events_r1"], Vec::new());
    steps
}

/// After a delete the summary is wider than the rows, and results stay correct.
pub fn e2e_delete_keeps_results_correct() -> (steps: Vec<Step>)
    ensures
        script(steps@) =~~= (events_script()
            .push(pruning_step(true))
            .push(StepModel::Run("DELETE FROM events WHERE region = 2"@)))
            + same_steps("events"@, seq!["val = 150", "val >= 100 AND val < 200", "val < 50"]),
{
    let mut steps = e2e_setup_events();
    add_pruning(&mut steps, true);
    add_run(&mut steps, "DELETE FROM events WHERE region = 2");
    add_same(&mut steps, "events", vec!["val = 150", "val >= 100 AND val < 200", "val < 50"]);
    steps
}

/// The statement that adds the `i`-th of the many partitions, with a hundred values.
pub open spec fn partition_statement(i: int) -> Seq<char> {
    let lo = decimal((i * 100) as nat);
    let hi = decimal((i * 100 + 100) as nat);
    "CREATE TABLE big_p"@ + decimal(i as nat) + " PARTITION OF big FOR VALUES FROM ("@ + lo + ") TO ("@
        + hi + ");
             INSERT INTO big SELECT g FROM generate_series("@ + lo + ", "@ + hi + " - 1) g;"@
}

fn partition_sql(i: u32) -> (sql: String)
    requires
        i < 32,
    ensures
        sql@ == partition_statement(i as int),
{
    let lo: u32 = i * 100;
    let hi: u32 = lo + 100;
    let mut sql = "CREATE TABLE big_p".to_string();
    push_decimal(&mut sql, i);
    sql.append(" PARTITION OF big FOR VALUES FROM (");
    push_decimal(&mut sql, lo);
    sql.append(") TO (");
    push_decimal(&mut sql, hi);
    sql.append(");
             INSERT INTO big SELECT g FROM generate_series(");
    push_decimal(&mut sql, lo);
    sql.append(", ");
    push_decimal(&mut sql, hi);
    sql.append(" - 1) g;");
    sql
}

/// Of many partitions only the one with the value is left.
pub fn e2e_large_tree_prunes_to_single_partition() -> (steps: Vec<Step>)
    ensures
        script(steps@) =~~= seq![
            StepModel::Run(
                "DROP TABLE IF EXISTS big CASCADE;
         CREATE TABLE big (val bigint) PARTITION BY RANGE (val);"@,
            ),
        ] + Seq::new(32, |i: int| StepModel::Run(partition_statement(i))) + seq![
            StepModel::Run(build_statement("big"@, "val"@)),
            pruning_step(true),
            StepModel::PlanCount(explain_statement("big"@, "val = 1750"@), "big_p17"@, "big_p"@, 1),
            count_step("big"@, "val = 1750"@, 1),
            count_step("big"@, "val >= 3150"@, 50),
        ],
{
    let mut steps: Vec<Step> = Vec::new();
    add_run(
        &mut steps,
        "DROP TABLE IF EXISTS big CASCADE;
         CREATE TABLE big (val bigint) PARTITION BY RANGE (val);",
    );
    let ghost first = script(steps@);
    let ghost parts = Seq::new(32, |i: int| StepModel::Run(partition_statement(i)));
    let mut i: u32 = 0;
    assert(first + parts.take(0) =~= first);
    while i < 32
        invariant
            0 <= i <= 32,
            parts == Seq::new(32, |i: int| StepModel::Run(partition_statement(i))),
            script(steps@) == first + parts.take(i as int),
        decreases 32 - i,
    {
        add_step(&mut steps, Step::Run { sql: partition_sql(i) });
        assert(parts.take(i + 1) =~= parts.take(i as int).push(parts[i as int]));
        assert(script(steps@) =~= first + parts.take(i + 1));
        i += 1;
    }
    assert(parts.take(32) =~= parts);
    add_run(&mut steps, &e2e_build("big", "val"));
    add_pruning(&mut steps, true);
    add_step(
        &mut steps,
        Step::PlanCount {
            sql: e2e_explain_on("big", "val = 1750"),
            shown: "big_p17",
            needle: "big_p",
            times: 1,
        },
    );
    add_count(&mut steps, "big", "val = 1750", 1);
    add_count(&mut steps, "big", "val >= 3150", 50);
    steps
}

// ---- other types and shapes ------------------------------------------------------

/// The statement that counts how often the server offers PostGIS.
pub fn postgis_query() -> (sql: &'static str)
    ensures
        sql@ == "SELECT count(*)::bigint FROM pg_available_extensions WHERE name = 'postgis'"@,
{
    "SELECT count(*)::bigint FROM pg_available_extensions WHERE name = 'postgis'"
}

/// Whether PostGIS can be created, by the count that [`postgis_query`] gave, if it gave one.
pub fn postgis_available(count: Option<i64>) -> (r: bool)
    ensures
        r == (count matches Some(n) && n > 0),
{
    match count {
        Some(n) => n > 0,
        None => false,
    }
}

/// Partitions whose extent does not overlap the query box are pruned. Where PostGIS is not
/// available there is nothing to do.
pub fn e2e_postgis_extent_pruning(available: bool) -> (steps: Vec<Step>)
    ensures
        !available ==> steps@.len() == 0,
        available ==> script(steps@) =~~= (Seq::<StepModel>::empty()
            .push(StepModel::Run("CREATE EXTENSION IF NOT EXISTS postgis"@))
            .push(StepModel::Run("DROP TABLE IF EXISTS ev_g CASCADE;
         CREATE TABLE ev_g (region int, geom geometry) PARTITION BY LIST (region);
         CREATE TABLE ev_g_1 PARTITION OF ev_g FOR VALUES IN (1);
         CREATE TABLE ev_g_2 PARTITION OF ev_g FOR VALUES IN (2);
         CREATE TABLE ev_g_3 PARTITION OF ev_g FOR VALUES IN (3);
         INSERT INTO ev_g SELECT 1, ST_MakePoint(x, y) FROM generate_series(0,10) x, generate_series(0,10) y;
         INSERT INTO ev_g SELECT 2, ST_MakePoint(100+x, 100+y) FROM generate_series(0,10) x, generate_series(0,10) y;
         INSERT INTO ev_g SELECT 3, ST_MakePoint(200+x, 200+y) FROM generate_series(0,10) x, generate_series(0,10) y;"@))
            .push(StepModel::Run(build_statement("ev_g"@, "geom"@)))
            .push(pruning_step(true))
            .push(
                plan_step(
                    "ev_g"@,
                    "geom && ST_MakeEnvelope(200,200,205,205)"@,
                    seq!["ev_g_3"],
                    seq!["ev_g_1", "ev_g_2"],
                ),
            ))
            + same_steps(
                "ev_g"@,
                seq![
                    "geom && ST_MakeEnvelope(200,200,205,205)",
                    "geom && ST_MakeEnvelope(5,5,6,6)",
                    "geom && ST_MakeEnvelope(500,500,600,600)",
                    "geom && ST_MakeEnvelope(0,0,300,300)",
                ],
            ),
{
    let mut steps = Vec::new();
    if !available {
        return steps;
    }
    add_run(&mut steps, "CREATE EXTENSION IF NOT EXISTS postgis");
    add_run(&mut steps, "DROP TABLE IF EXISTS ev_g CASCADE;
         CREATE TABLE ev_g (region int, geom geometry) PARTITION BY LIST (region);
         CREATE TABLE ev_g_1 PARTITION OF ev_g FOR VALUES IN (1);
         CREATE TABLE ev_g_2 PARTITION OF ev_g FOR VALUES IN (2);
         CREATE TABLE ev_g_3 PARTITION OF ev_g FOR VALUES IN (3);
         INSERT INTO ev_g SELECT 1, ST_MakePoint(x, y) FROM generate_series(0,10) x, generate_series(0,10) y;
         INSERT INTO ev_g SELECT 2, ST_MakePoint(100+x, 100+y) FROM generate_series(0,10) x, generate_series(0,10) y;
         INSERT INTO ev_g SELECT 3, ST_MakePoint(200+x, 200+y) FROM generate_series(0,10) x, generate_series(0,10) y;");
    add_run(&mut steps, &e2e_build("ev_g", "geom"));
    add_pruning(&mut steps, true);
    add_plan(
        &mut steps,
        "ev_g",
        "geom && ST_MakeEnvelope(200,200,205,205)",
        vec!["ev_g_3"],
        vec!["ev_g_1", "ev_g_2"],
    );
    add_same(
        &mut steps,
        "ev_g",
        vec![
            "geom && ST_MakeEnvelope(200,200,205,205)",
            "geom && ST_MakeEnvelope(5,5,6,6)",
            "geom && ST_MakeEnvelope(500,500,600,600)",
            "geom && ST_MakeEnvelope(0,0,300,300)",
        ],
    );
    steps
}

/// Partitions whose covering range does not overlap the query range are pruned.
pub fn e2e_range_overlap_pruning() -> (steps: Vec<Step>)
    ensures
        script(steps@) =~~= (Seq::<StepModel>::empty()
            .push(StepModel::Run("DROP TABLE IF EXISTS ev_r CASCADE;
         CREATE TABLE ev_r (region int, period int8range) PARTITION BY LIST (region);
         CREATE TABLE ev_r_1 PARTITION OF ev_r FOR VALUES IN (1);
         CREATE TABLE ev_r_2 PARTITION OF ev_r FOR VALUES IN (2);
         CREATE TABLE ev_r_3 PARTITION OF ev_r FOR VALUES IN (3);
         INSERT INTO ev_r SELECT 1, int8range(g*10, g*10+10) FROM generate_series(0,9) g;
         INSERT INTO ev_r SELECT 2, int8range(100+g*10, 100+g*10+10) FROM generate_series(0,9) g;
         INSERT INTO ev_r SELECT 3, int8range(200+g*10, 200+g*10+10) FROM generate_series(0,9) g;"@))
            .push(StepModel::Run(build_statement("ev_r"@, "period"@)))
            .push(pruning_step(true))
            .push(
                plan_step(
                    "ev_r"@,
                    "period && int8range(250, 260)"@,
                    seq!["ev_r_3"],
                    seq!["ev_r_1", "ev_r_2"],
                ),
            ))
            + same_steps(
                "ev_r"@,
                seq![
                    "period && int8range(250, 260)",
                    "period && int8range(95, 105)",
                    "period && int8range(1000, 2000)",
                    "period && int8range(0, 300)",
                ],
            ),
{
    let mut steps = Vec::new();
    add_run(&mut steps, "DROP TABLE IF EXISTS ev_r CASCADE;
         CREATE TABLE ev_r (region int, period int8range) PARTITION BY LIST (region);
         CREATE TABLE ev_r_1 PARTITION OF ev_r FOR VALUES IN (1);
         CREATE TABLE ev_r_2 PARTITION OF ev_r FOR VALUES IN (2);
         CREATE TABLE ev_r_3 PARTITION OF ev_r FOR VALUES IN (3);
         INSERT INTO ev_r SELECT 1, int8range(g*10, g*10+10) FROM generate_series(0,9) g;
         INSERT INTO ev_r SELECT 2, int8range(100+g*10, 100+g*10+10) FROM generate_series(0,9) g;
         INSERT INTO ev_r SELECT 3, int8range(200+g*10, 200+g*10+10) FROM generate_series(0,9) g;");
    add_run(&mut steps, &e2e_build("ev_r", "period"));
    add_pruning(&mut steps, true);
    add_plan(
        &mut steps,
        "ev_r",
        "period && int8range(250, 260)",
        vec!["ev_r_3"],
        vec!["ev_r_1", "ev_r_2"],
    );
    add_same(
        &mut steps,
        "ev_r",
        vec![
            "period && int8range(250, 260)",
            "period && int8range(95, 105)",
            "period && int8range(1000, 2000)",
            "period && int8range(0, 300)",
        ],
    );
    steps
}

/// A disjunction prunes the partitions that every branch prunes, and no others.
pub fn e2e_or_pruning() -> (steps: Vec<Step>)
    ensures
        script(steps@) =~~= (events_script()
            .push(pruning_step(true))
            .push(
                plan_step(
                    "events"@,
                    "val < 50 OR val >= 250"@,
                    seq!["events_r1", "events_r3"],
                    seq!["events_r2"],
                ),
            )
            .push(
                plan_step(
                    "events"@,
                    "val >= 250 OR val >= 0"@,
                    seq!["events_r1", "events_r2", "events_r3"],
                    Seq::empty(),
                ),
            ))
            + same_steps(
                "events"@,
                seq![
                    "val < 50 OR val >= 250",
                    "val = 5 OR val = 295",
                    "(val >= 100 AND val < 110) OR val = 5",
                    "val > 1000 OR val < -10",
                ],
            ),
{
    let mut steps = e2e_setup_events();
    add_pruning(&mut steps, true);
    add_plan(
        &mut steps,
        "events",
        "val < 50 OR val >= 250",
        vec!["events_r1", "events_r3"],
        vec!["events_r2"],
    );
    add_plan(
        &mut steps,
        "events",
        "val >= 250 OR val >= 0",
        vec!["events_r1", "events_r2", "events_r3"],
        Vec::new(),
    );
    add_same(
        &mut steps,
        "events",
        vec![
            "val < 50 OR val >= 250",
            "val = 5 OR val = 295",
            "(val >= 100 AND val < 110) OR val = 5",
            "val > 1000 OR val < -10",
        ],
    );
    steps
}

/// A list prunes the partitions that none of its values falls into.
pub fn e2e_in_list_pruning() -> (steps: Vec<Step>)
    ensures
        script(steps@) =~~= (events_script()
            .push(pruning_step(true))
            .push(
                plan_step(
                    "events"@,
                    "val IN (5, 250)"@,
                    seq!["events_r1", "events_r3"],
                    seq!["events_r2"],
                ),
            )
            .push(
                plan_step(
                    "events"@,
                    "val IN (5, 25, 75)"@,
                    seq!["events_r1"],
                    seq!["events_r2", "events_r3"],
                ),
            ))
            + same_steps(
                "events"@,
                seq![
                    "val IN (5, 250)",
                    "val IN (5, 25, 75)",
                    "val IN (150)",
                    "val IN (1000, 2000)",
                    "val IN (5, NULL, 295)",
                ],
            ),
{
    let mut steps = e2e_setup_events();
    add_pruning(&mut steps, true);
    add_plan(
        &mut steps,
        "events",
        "val IN (5, 250)",
        vec!["events_r1", "events_r3"],
        vec!["events_r2"],
    );
    add_plan(
        &mut steps,
        "events",
        "val IN (5, 25, 75)",
        vec!["events_r1"],
        vec!["events_r2", "events_r3"],
    );
    add_same(
        &mut steps,
        "events",
        vec![
            "val IN (5, 250)",
            "val IN (5, 25, 75)",
            "val IN (150)",
            "val IN (1000, 2000)",
            "val IN (5, NULL, 295)",
        ],
    );
    steps
}

/// Timestamps prune by month.
pub fn e2e_timestamptz_pruning() -> (steps: Vec<Step>)
    ensures
        script(steps@) =~~= (Seq::<StepModel>::empty()
            .push(StepModel::Run("DROP TABLE IF EXISTS ev_ts CASCADE;
         CREATE TABLE ev_ts (region int, ts timestamptz) PARTITION BY LIST (region);
         CREATE TABLE ev_ts_1 PARTITION OF ev_ts FOR VALUES IN (1);
         CREATE TABLE ev_ts_2 PARTITION OF ev_ts FOR VALUES IN (2);
         CREATE TABLE ev_ts_3 PARTITION OF ev_ts FOR VALUES IN (3);
         INSERT INTO ev_ts SELECT 1, timestamptz '2024-01-01' + (g||' days')::interval FROM generate_series(0,27) g;
         INSERT INTO ev_ts SELECT 2, timestamptz '2024-02-01' + (g||' days')::interval FROM generate_series(0,27) g;
         INSERT INTO ev_ts SELECT 3, timestamptz '2024-03-01' + (g||' days')::interval FROM generate_series(0,27) g;"@))
            .push(StepModel::Run(build_statement("ev_ts"@, "ts"@)))
            .push(pruning_step(true))
            .push(
                plan_step(
                    "ev_ts"@,
                    "ts >= timestamptz '2024-03-01'"@,
                    seq!["ev_ts_3"],
                    seq!["ev_ts_1", "ev_ts_2"],
                ),
            ))
            + same_steps(
                "ev_ts"@,
                seq!["ts >= timestamptz '2024-02-15' AND ts < timestamptz '2024-03-10'"],
            ),
{
    let mut steps = Vec::new();
    add_run(&mut steps, "DROP TABLE IF EXISTS ev_ts CASCADE;
         CREATE TABLE ev_ts (region int, ts timestamptz) PARTITION BY LIST (region);
         CREATE TABLE ev_ts_1 PARTITION OF ev_ts FOR VALUES IN (1);
         CREATE TABLE ev_ts_2 PARTITION OF ev_ts FOR VALUES IN (2);
         CREATE TABLE ev_ts_3 PARTITION OF ev_ts FOR VALUES IN (3);
         INSERT INTO ev_ts SELECT 1, timestamptz '2024-01-01' + (g||' days')::interval FROM generate_series(0,27) g;
         INSERT INTO ev_ts SELECT 2, timestamptz '2024-02-01' + (g||' days')::interval FROM generate_series(0,27) g;
         INSERT INTO ev_ts SELECT 3, timestamptz '2024-03-01' + (g||' days')::interval FROM generate_series(0,27) g;");
    add_run(&mut steps, &e2e_build("ev_ts", "ts"));
    add_pruning(&mut steps, true);
    add_plan(
        &mut steps,
        "ev_ts",
        "ts >= timestamptz '2024-03-01'",
        vec!["ev_ts_3"],
        vec!["ev_ts_1", "ev_ts_2"],
    );
    add_same(
        &mut steps,
        "ev_ts",
        vec!["ts >= timestamptz '2024-02-15' AND ts < timestamptz '2024-03-10'"],
    );
    steps
}

/// Texts prune by their collation.
pub fn e2e_text_pruning() -> (steps: Vec<Step>)
    ensures
        script(steps@) =~~= ((Seq::<StepModel>::empty()
            .push(StepModel::Run("DROP TABLE IF EXISTS ev_txt CASCADE;
         CREATE TABLE ev_txt (region int, name text) PARTITION BY LIST (region);
         CREATE TABLE ev_txt_1 PARTITION OF ev_txt FOR VALUES IN (1);
         CREATE TABLE ev_txt_2 PARTITION OF ev_txt FOR VALUES IN (2);
         CREATE TABLE ev_txt_3 PARTITION OF ev_txt FOR VALUES IN (3);
         INSERT INTO ev_txt VALUES (1,'apple'),(1,'banana'),(1,'cherry');
         INSERT INTO ev_txt VALUES (2,'mango'),(2,'nectarine'),(2,'orange');
         INSERT INTO ev_txt VALUES (3,'watermelon'),(3,'xigua'),(3,'zucchini');"@))
            .push(StepModel::Run(build_statement("ev_txt"@, "name"@)))
            .push(pruning_step(true))
            .push(
                plan_step(
                    "ev_txt"@,
                    "name >= 'watermelon'"@,
                    seq!["ev_txt_3"],
                    seq!["ev_txt_1", "ev_txt_2"],
                ),
            ))
            + same_steps("ev_txt"@, seq!["name = 'mango'"]))
            .push(count_step("ev_txt"@, "name = 'mango'"@, 1)),
{
    let mut steps = Vec::new();
    add_run(&mut steps, "DROP TABLE IF EXISTS ev_txt CASCADE;
         CREATE TABLE ev_txt (region int, name text) PARTITION BY LIST (region);
         CREATE TABLE ev_txt_1 PARTITION OF ev_txt FOR VALUES IN (1);
         CREATE TABLE ev_txt_2 PARTITION OF ev_txt FOR VALUES IN (2);
         CREATE TABLE ev_txt_3 PARTITION OF ev_txt FOR VALUES IN (3);
         INSERT INTO ev_txt VALUES (1,'apple'),(1,'banana'),(1,'cherry');
         INSERT INTO ev_txt VALUES (2,'mango'),(2,'nectarine'),(2,'orange');
         INSERT INTO ev_txt VALUES (3,'watermelon'),(3,'xigua'),(3,'zucchini');");
    add_run(&mut steps, &e2e_build("ev_txt", "name"));
    add_pruning(&mut steps, true);
    add_plan(
        &mut steps,
        "ev_txt",
        "name >= 'watermelon'",
        vec!["ev_txt_3"],
        vec!["ev_txt_1", "ev_txt_2"],
    );
    add_same(&mut steps, "ev_txt", vec!["name = 'mango'"]);
    add_count(&mut steps, "ev_txt", "name = 'mango'", 1);
    steps
}

/// Floating-point numbers prune like any ordered type.
pub fn e2e_float_pruning() -> (steps: Vec<Step>)
    ensures
        script(steps@) =~~= Seq::<StepModel>::empty()
            .push(StepModel::Run("DROP TABLE IF EXISTS ev_f CASCADE;
         CREATE TABLE ev_f (region int, amt float8) PARTITION BY LIST (region);
         CREATE TABLE ev_f_1 PARTITION OF ev_f FOR VALUES IN (1);
         CREATE TABLE ev_f_2 PARTITION OF ev_f FOR VALUES IN (2);
         INSERT INTO ev_f SELECT 1, g * 1.5 FROM generate_series(0,49) g;
         INSERT INTO ev_f SELECT 2, 100.0 + g * 1.5 FROM generate_series(0,49) g;"@))
            .push(StepModel::Run(build_statement("ev_f"@, "amt"@)))
            .push(pruning_step(true))
            .push(plan_step("ev_f"@, "amt > 120.0"@, seq!["ev_f_2"], seq!["ev_f_1"])),
{
    let mut steps = Vec::new();
    add_run(&mut steps, "DROP TABLE IF EXISTS ev_f CASCADE;
         CREATE TABLE ev_f (region int, amt float8) PARTITION BY LIST (region);
         CREATE TABLE ev_f_1 PARTITION OF ev_f FOR VALUES IN (1);
         CREATE TABLE ev_f_2 PARTITION OF ev_f FOR VALUES IN (2);
         INSERT INTO ev_f SELECT 1, g * 1.5 FROM generate_series(0,49) g;
         INSERT INTO ev_f SELECT 2, 100.0 + g * 1.5 FROM generate_series(0,49) g;");
    add_run(&mut steps, &e2e_build("ev_f", "amt"));
    add_pruning(&mut steps, true);
    add_plan(&mut steps, "ev_f", "amt > 120.0", vec!["ev_f_2"], vec!["ev_f_1"]);
    steps
}

/// Of a conjunction over two columns, either part can prune.
pub fn e2e_multicolumn_and_semantics() -> (steps: Vec<Step>)
    ensures
        script(steps@) =~~= (Seq::<StepModel>::empty()
            .push(StepModel::Run("DROP TABLE IF EXISTS mc CASCADE;
         CREATE TABLE mc (region int, a bigint, b bigint) PARTITION BY LIST (region);
         CREATE TABLE mc_1 PARTITION OF mc FOR VALUES IN (1);
         CREATE TABLE mc_2 PARTITION OF mc FOR VALUES IN (2);
         CREATE TABLE mc_3 PARTITION OF mc FOR VALUES IN (3);
         INSERT INTO mc SELECT 1, g, g FROM generate_series(0,99) g;
         INSERT INTO mc SELECT 2, 100+g, 100+g FROM generate_series(0,99) g;
         INSERT INTO mc SELECT 3, 200+g, 200+g FROM generate_series(0,99) g;"@))
            .push(StepModel::Run(build_statement("mc"@, "a, b"@)))
            .push(pruning_step(true))
            .push(
                plan_step(
                    "mc"@,
                    "a >= 250 AND b < 50"@,
                    Seq::empty(),
                    seq!["mc_1", "mc_2", "mc_3"],
                ),
            ))
            + same_steps(
                "mc"@,
                seq![
                    "a >= 250 AND b < 50",
                    "a < 150 AND b > 50",
                    "a = 100 AND b = 100",
                    "a > 250 OR b > 250",
                ],
            ),
{
    let mut steps = Vec::new();
    add_run(&mut steps, "DROP TABLE IF EXISTS mc CASCADE;
         CREATE TABLE mc (region int, a bigint, b bigint) PARTITION BY LIST (region);
         CREATE TABLE mc_1 PARTITION OF mc FOR VALUES IN (1);
         CREATE TABLE mc_2 PARTITION OF mc FOR VALUES IN (2);
         CREATE TABLE mc_3 PARTITION OF mc FOR VALUES IN (3);
         INSERT INTO mc SELECT 1, g, g FROM generate_series(0,99) g;
         INSERT INTO mc SELECT 2, 100+g, 100+g FROM generate_series(0,99) g;
         INSERT INTO mc SELECT 3, 200+g, 200+g FROM generate_series(0,99) g;");
    add_run(&mut steps, &e2e_build("mc", "a, b"));
    add_pruning(&mut steps, true);
    add_plan(&mut steps, "mc", "a >= 250 AND b < 50", Vec::new(), vec!["mc_1", "mc_2", "mc_3"]);
    add_same(
        &mut steps,
        "mc",
        vec![
            "a >= 250 AND b < 50",
            "a < 150 AND b > 50",
            "a = 100 AND b = 100",
            "a > 250 OR b > 250",
        ],
    );
    steps
}

/// Null tests prune by the null flags: `IS NULL` where there are none, `IS NOT NULL` where all
/// are.
pub fn e2e_is_null_pruning() -> (steps: Vec<Step>)
    ensures
        script(steps@) =~~= (Seq::<StepModel>::empty()
            .push(StepModel::Run("DROP TABLE IF EXISTS nt CASCADE;
         CREATE TABLE nt (region int, val bigint) PARTITION BY LIST (region);
         CREATE TABLE nt_nonull PARTITION OF nt FOR VALUES IN (1);
         CREATE TABLE nt_allnull PARTITION OF nt FOR VALUES IN (2);
         CREATE TABLE nt_mixed PARTITION OF nt FOR VALUES IN (3);
         INSERT INTO nt SELECT 1, g FROM generate_series(1,50) g;
         INSERT INTO nt SELECT 2, NULL FROM generate_series(1,50) g;
         INSERT INTO nt SELECT 3, CASE WHEN g % 2 = 0 THEN g ELSE NULL END FROM generate_series(1,50) g;"@))
            .push(StepModel::Run(build_statement("nt"@, "val"@)))
            .push(pruning_step(true))
            .push(
                plan_step(
                    "nt"@,
                    "val IS NULL"@,
                    seq!["nt_allnull", "nt_mixed"],
                    seq!["nt_nonull"],
                ),
            )
            .push(
                plan_step(
                    "nt"@,
                    "val IS NOT NULL"@,
                    seq!["nt_nonull", "nt_mixed"],
                    seq!["nt_allnull"],
                ),
            ))
            + same_steps("nt"@, seq!["val IS NULL", "val IS NOT NULL"]),
{
    let mut steps = Vec::new();
    add_run(&mut steps, "DROP TABLE IF EXISTS nt CASCADE;
         CREATE TABLE nt (region int, val bigint) PARTITION BY LIST (region);
         CREATE TABLE nt_nonull PARTITION OF nt FOR VALUES IN (1);
         CREATE TABLE nt_allnull PARTITION OF nt FOR VALUES IN (2);
         CREATE TABLE nt_mixed PARTITION OF nt FOR VALUES IN (3);
         INSERT INTO nt SELECT 1, g FROM generate_series(1,50) g;
         INSERT INTO nt SELECT 2, NULL FROM generate_series(1,50) g;
         INSERT INTO nt SELECT 3, CASE WHEN g % 2 = 0 THEN g ELSE NULL END FROM generate_series(1,50) g;");
    add_run(&mut steps, &e2e_build("nt", "val"));
    add_pruning(&mut steps, true);
    add_plan(&mut steps, "nt", "val IS NULL", vec!["nt_allnull", "nt_mixed"], vec!["nt_nonull"]);
    add_plan(
        &mut steps,
        "nt",
        "val IS NOT NULL",
        vec!["nt_nonull", "nt_mixed"],
        vec!["nt_allnull"],
    );
    add_same(&mut steps, "nt", vec!["val IS NULL", "val IS NOT NULL"]);
    steps
}

// ---- the access method -----------------------------------------------------------

/// The steps of [`am_setup`].
pub open spec fn am_script() -> Seq<StepModel> {
    seq![
        StepModel::Run(
            "DROP TABLE IF EXISTS amt CASCADE;
         CREATE TABLE amt (region int, val bigint, created date) PARTITION BY LIST (region);
         CREATE TABLE amt_1 PARTITION OF amt FOR VALUES IN (1);
         CREATE TABLE amt_2 PARTITION OF amt FOR VALUES IN (2);
         CREATE TABLE amt_3 PARTITION OF amt FOR VALUES IN (3);
         INSERT INTO amt SELECT 1, g, date '2024-01-01' + g FROM generate_series(0,99) g;
         INSERT INTO amt SELECT 2, g, date '2024-06-01' + (g-100) FROM generate_series(100,199) g;
         INSERT INTO amt SELECT 3, g, date '2024-11-01' + (g-200) FROM generate_series(200,299) g;"@,
        ),
        pruning_step(true),
    ]
}

/// Builds a table with three list partitions and disjoint values and dates.
pub fn am_setup() -> (steps: Vec<Step>)
    ensures
        script(steps@) =~~= am_script(),
{
    let mut steps: Vec<Step> = Vec::new();
    add_run(
        &mut steps,
        "DROP TABLE IF EXISTS amt CASCADE;
         CREATE TABLE amt (region int, val bigint, created date) PARTITION BY LIST (region);
         CREATE TABLE amt_1 PARTITION OF amt FOR VALUES IN (1);
         CREATE TABLE amt_2 PARTITION OF amt FOR VALUES IN (2);
         CREATE TABLE amt_3 PARTITION OF amt FOR VALUES IN (3);
         INSERT INTO amt SELECT 1, g, date '2024-01-01' + g FROM generate_series(0,99) g;
         INSERT INTO amt SELECT 2, g, date '2024-06-01' + (g-100) FROM generate_series(100,199) g;
         INSERT INTO amt SELECT 3, g, date '2024-11-01' + (g-200) FROM generate_series(200,299) g;",
    );
    add_pruning(&mut steps, true);
    steps
}

/// Creating the index summarises the leaves, and queries prune by it.
pub fn am_create_index_builds_and_prunes() -> (steps: Vec<Step>)
    ensures
        script(steps@) =~~= am_script()
            .push(StepModel::Run("CREATE INDEX amt_tr ON amt USING table_range (val)"@))
            .push(
                StepModel::AtLeast(
                    "SELECT count(DISTINCT relid)::bigint FROM table_range_summary"@,
                    3,
                ),
            )
            .push(plan_step("amt"@, "val >= 250"@, seq!["amt_3"], seq!["amt_1", "amt_2"])),
{
    let mut steps = am_setup();
    add_run(&mut steps, "CREATE INDEX amt_tr ON amt USING table_range (val)");
    add_step(
        &mut steps,
        Step::AtLeast {
            sql: "SELECT count(DISTINCT relid)::bigint FROM table_range_summary".to_string(),
            expected: 3,
        },
    );
    add_plan(&mut steps, "amt", "val >= 250", vec!["amt_3"], vec!["amt_1", "amt_2"]);
    steps
}

/// Results under the index are the same with pruning on and off.
pub fn am_index_results_identical_on_off() -> (steps: Vec<Step>)
    ensures
        script(steps@) =~~= (am_script()
            .push(StepModel::Run("CREATE INDEX amt_tr ON amt USING table_range (val)"@)))
            + same_steps(
                "amt"@,
                seq!["val >= 250", "val < 50", "val = 150", "val IN (5, 250)", "val > 1000"],
            ),
{
    let mut steps = am_setup();
    add_run(&mut steps, "CREATE INDEX amt_tr ON amt USING table_range (val)");
    add_same(
        &mut steps,
        "amt",
        vec!["val >= 250", "val < 50", "val = 150", "val IN (5, 250)", "val > 1000"],
    );
    steps
}

/// An index over two columns prunes by the second one, too.
pub fn am_multicolumn_index_prunes() -> (steps: Vec<Step>)
    ensures
        script(steps@) =~~= am_script()
            .push(StepModel::Run("CREATE INDEX amt_tr ON amt USING table_range (val, created)"@))
            .push(
                plan_step(
                    "amt"@,
                    "created >= date '2024-11-01'"@,
                    seq!["amt_3"],
                    seq!["amt_1", "amt_2"],
                ),
            ),
{
    let mut steps = am_setup();
    add_run(&mut steps, "CREATE INDEX amt_tr ON amt USING table_range (val, created)");
    add_plan(
        &mut steps,
        "amt",
        "created >= date '2024-11-01'",
        vec!["amt_3"],
        vec!["amt_1", "amt_2"],
    );
    steps
}

/// A row inserted outside of the summarised range is found without a rebuild.
pub fn am_insert_then_correct_without_rebuild() -> (steps: Vec<Step>)
    ensures
        script(steps@) =~~= am_script()
            .push(StepModel::Run("CREATE INDEX amt_tr ON amt USING table_range (val)"@))
            .push(StepModel::Run("INSERT INTO amt VALUES (1, 500, date '2025-01-01')"@))
            .push(count_step("amt"@, "val = 500"@, 1)),
{
    let mut steps = am_setup();
    add_run(&mut steps, "CREATE INDEX amt_tr ON amt USING table_range (val)");
    add_run(&mut steps, "INSERT INTO amt VALUES (1, 500, date '2025-01-01')");
    add_count(&mut steps, "amt", "val = 500", 1);
    steps
}

/// Rows inserted in bulk outside of the summarised range are all found, and rows that were there
/// before still are.
pub fn am_bulk_insert_stays_correct_under_stale_memo() -> (steps: Vec<Step>)
    ensures
        script(steps@) =~~= am_script()
            .push(StepModel::Run("CREATE INDEX amt_tr ON amt USING table_range (val)"@))
            .push(pruning_step(true))
            .push(StepModel::Run("INSERT INTO amt SELECT 1, g FROM generate_series(1000, 1099) g"@))
            .push(count_step("amt"@, "val BETWEEN 1000 AND 1099"@, 100))
            .push(count_step("amt"@, "val = 250"@, 1)),
{
    let mut steps = am_setup();
    add_run(&mut steps, "CREATE INDEX amt_tr ON amt USING table_range (val)");
    add_pruning(&mut steps, true);
    add_run(&mut steps, "INSERT INTO amt SELECT 1, g FROM generate_series(1000, 1099) g");
    add_count(&mut steps, "amt", "val BETWEEN 1000 AND 1099", 100);
    add_count(&mut steps, "amt", "val = 250", 1);
    steps
}

/// Dropping the index removes the summaries with it, so that rows which nothing tracks any more
/// are still found.
pub fn am_drop_index_cleans_summaries_and_stays_correct() -> (steps: Vec<Step>)
    ensures
        script(steps@) =~~= am_script()
            .push(StepModel::Run("CREATE INDEX amt_tr ON amt USING table_range (val)"@))
            .push(StepModel::AtLeast("SELECT count(*)::bigint FROM table_range_summary"@, 3))
            .push(StepModel::Run("DROP INDEX amt_tr"@))
            .push(StepModel::Count("SELECT count(*)::bigint FROM table_range_summary"@, 0))
            .push(pruning_step(true))
            .push(StepModel::Run("INSERT INTO amt VALUES (1, 5000)"@))
            .push(count_step("amt"@, "val = 5000"@, 1))
            .push(count_step("amt"@, "val >= 250"@, 51)),
{
    let mut steps = am_setup();
    add_run(&mut steps, "CREATE INDEX amt_tr ON amt USING table_range (val)");
    add_step(
        &mut steps,
        Step::AtLeast {
            sql: "SELECT count(*)::bigint FROM table_range_summary".to_string(),
            expected: 3,
        },
    );
    add_run(&mut steps, "DROP INDEX amt_tr");
    add_step(
        &mut steps,
        Step::Count {
            sql: "SELECT count(*)::bigint FROM table_range_summary".to_string(),
            expected: 0,
        },
    );
    add_pruning(&mut steps, true);
    add_run(&mut steps, "INSERT INTO amt VALUES (1, 5000)");
    add_count(&mut steps, "amt", "val = 5000", 1);
    add_count(&mut steps, "amt", "val >= 250", 51);
    steps
}

/// A blob written into an index's metapage reads back.
pub fn storage_page_roundtrip() -> (steps: Vec<Step>)
    ensures
        script(steps@) =~~= Seq::<StepModel>::empty()
            .push(StepModel::Run("DROP TABLE IF EXISTS pr CASCADE; CREATE TABLE pr (val bigint);
         INSERT INTO pr VALUES (1);
         CREATE INDEX pr_tr ON pr USING table_range (val);"@))
            .push(
                StepModel::Text(
                    "SELECT table_range_test_page_roundtrip('pr_tr'::regclass::oid, 'hello-page-42')"@,
                    "hello-page-42"@,
                ),
            ),
{
    let mut steps = Vec::new();
    add_run(&mut steps, "DROP TABLE IF EXISTS pr CASCADE; CREATE TABLE pr (val bigint);
         INSERT INTO pr VALUES (1);
         CREATE INDEX pr_tr ON pr USING table_range (val);");
    add_step(
        &mut steps,
        Step::Text {
            sql: "SELECT table_range_test_page_roundtrip('pr_tr'::regclass::oid, 'hello-page-42')".to_string(),
            expected: "hello-page-42",
        },
    );
    steps
}

// ---- laws ------------------------------------------------------------------------

/// A step is judged by what it expects and by nothing else: a count by its number, two counts by
/// their being the same, a plan by the names in it, a text by its characters. An observation of
/// another kind is never as expected.
pub proof fn law_steps_are_judged_by_what_they_expect(step: Step, seen: Observation)
    ensures
        step matches Step::Run { .. } ==> (as_expected(step, seen) <==> seen is Ran),
        step matches Step::Count { expected, .. } ==> (as_expected(step, seen)
            <==> seen == Observation::Count(expected)),
        step matches Step::AtLeast { expected, .. } ==> (as_expected(step, seen) <==> (
        seen matches Observation::Count(n) && n >= expected)),
        step matches Step::SameCount { .. } ==> (as_expected(step, seen) <==> (
        seen matches Observation::Counts { off, on } && off == on)),
        step matches Step::Text { expected, .. } ==> (as_expected(step, seen) <==> (
        seen matches Observation::Text(text) && text@ == expected@)),
        step matches Step::Plan { shown, hidden, .. } ==> (as_expected(step, seen) <==> (
        seen matches Observation::Plan(plan) && (forall|i: int|
            0 <= i < shown@.len() ==> mentions(plan@, #[trigger] shown@[i]@)) && (forall|i: int|
            0 <= i < hidden@.len() ==> !mentions(plan@, #[trigger] hidden@[i]@)))),
        step matches Step::PlanCount { shown, needle, times, .. } ==> (as_expected(step, seen)
            <==> (seen matches Observation::Plan(plan) && mentions(plan@, shown@) && occurrences(
            plan@,
            needle@,
            0,
        ) == times)),
{
}

/// A plan's text is that of its lines in their order, each ended by a line break.
pub proof fn law_plans_are_their_lines(lines: Seq<Option<String>>, i: int)
    requires
        0 <= i < lines.len(),
    ensures
        plan_from(lines, lines.len() as int).len() == 0,
        lines[i] matches Some(line) ==> plan_from(lines, i) == line@ + seq!['\n'] + plan_from(
            lines,
            i + 1,
        ),
        lines[i] is None ==> plan_from(lines, i) == plan_from(lines, i + 1),
{
    if let Some(line) = lines[i] {
        assert(line@.push('\n') =~= line@ + seq!['\n']);
    } else {
        assert(plan_from(lines, i) =~= plan_from(lines, i + 1));
    }
}

/// The statements of a script are about the table and the predicate that they are given: a build
/// names the index after the table, a plan and a count are of the rows that match, and the counts
/// that are compared are those of every predicate in its order.
pub proof fn law_statements_are_about_their_table(
    table: Seq<char>,
    cols: Seq<char>,
    pred: Seq<char>,
    shown: Seq<&'static str>,
    hidden: Seq<&'static str>,
    expected: int,
    preds: Seq<&'static str>,
    i: int,
)
    ensures
        build_statement(table, cols) == "CREATE INDEX "@ + table + "_tr ON "@ + table
            + " USING table_range ("@ + cols + ")"@,
        explain_statement(table, pred) == "EXPLAIN (COSTS OFF) "@ + ("SELECT * FROM "@ + table
            + " WHERE "@ + pred),
        count_statement(table, pred) == "SELECT count(*)::bigint FROM "@ + table + " WHERE "@
            + pred,
        pruning_step(true) == StepModel::Run("SET table_range.enable_pruning = "@ + "on"@),
        pruning_step(false) == StepModel::Run("SET table_range.enable_pruning = "@ + "off"@),
        plan_step(table, pred, shown, hidden) matches StepModel::Plan(sql, kept, gone) && {
            &&& sql == explain_statement(table, pred)
            &&& kept.len() == shown.len()
            &&& gone.len() == hidden.len()
            &&& 0 <= i < shown.len() ==> kept[i] == shown[i]@
            &&& 0 <= i < hidden.len() ==> gone[i] == hidden[i]@
        },
        count_step(table, pred, expected) == StepModel::Count(
            "SELECT count(*)::bigint FROM "@ + table + " WHERE "@ + pred,
            expected,
        ),
        same_steps(table, preds).len() == preds.len(),
        0 <= i < preds.len() ==> same_steps(table, preds)[i] == StepModel::SameCount(
            "SELECT count(*)::bigint FROM "@ + table + " WHERE "@ + preds[i]@,
        ),
{
}

} // verus!
