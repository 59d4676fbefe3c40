use table_range::backend::{
    fixed_settings, found_oid, found_strategy, written_as, Answer, ArrayConst, ArrayElem, Question,
    Selection,
};
use table_range::decision::Decision;
use table_range::index_am::{
    after_insert, widen_column, widen_on_insert, Aftermath, IndexedAttr, InsertRun, WidenFacts,
    Widening,
};
use table_range::index_storage::{
    read_summary, replace_summary, write_summary, ByteOrder, ColSummary, IndexSummary, PageFormat,
};
use table_range::prune_hook::{
    array_const_texts, clause_proves_prune, commute_strategy, evaluate_relation, extract_nulltest,
    extract_qual, find_row, sql_literal, strip_relabel, BoolOp, Clause, EvalFacts, Evaluation,
    ExtractFacts, Extraction, Leaf, LeafExpr, LeafRun, ListElem, NullTestKind, Operand, QualSpec,
    Walk,
};
use table_range::scenarios::{
    e2e_boundary_equality_keeps_correct_partition, e2e_disabled_pruning_scans_all_partitions,
    e2e_in_list_pruning, e2e_keeps_all_partitions_for_wide_predicate, e2e_or_pruning,
    e2e_prunes_lower_partitions_for_high_predicate,
    e2e_prunes_upper_partitions_for_low_predicate, judge, plan_text, Observation, Step,
};

// A server with `bigint` and `integer`, whose values are their own datum words; `date`, whose words
// count days, and `timestamp`, whose words count half days; and the range type of `bigint`, whose
// `&&` is computed from the statement's text.

const INT8: u32 = 20;
const INT4: u32 = 23;
const DATE: u32 = 1082;
const TIMESTAMP: u32 = 1114;
const INT8_ARRAY: u32 = 1016;
const INT4_ARRAY: u32 = 1007;
const INT8RANGE: u32 = 3926;
const CMP: u32 = 351;
const CMP84: u32 = 2188;
const DATE_CMP: u32 = 1092;
const DATE_CMP_TIMESTAMP: u32 = 2344;
const DATE_LT: u32 = 2345;
const LT: u32 = 412;
const LE: u32 = 414;
const EQ: u32 = 410;
const GE: u32 = 415;
const GT: u32 = 413;
const NE: u32 = 411;
const OVERLAPS: u32 = 3888;
const NO_COLLATION: u32 = 0;
const OTHER_COLLATION: u32 = 950;

struct Server {
    /// The arrays that array constants point to.
    arrays: Vec<Vec<Option<i64>>>,
    /// The ranges that range constants point to.
    ranges: Vec<String>,
    /// Array elements with this value have no text.
    unrendered: Option<i64>,
    /// Procedures are looked up in vain.
    no_procs: bool,
    /// The text of this value denotes another one.
    misread: Option<i64>,
}

fn server() -> Server {
    Server { arrays: vec![], ranges: vec![], unrendered: None, no_procs: false, misread: None }
}

fn bounds(range: &str) -> (i64, i64) {
    let inner = &range[1..range.len() - 1];
    let (a, b) = inner.split_once(',').unwrap();
    (a.parse().unwrap(), b.parse().unwrap())
}

/// The texts of the literals in a statement.
fn literals(sql: &str) -> Vec<String> {
    sql.split('\'').skip(1).step_by(2).map(|s| s.to_string()).collect()
}

impl Server {
    fn answer(&self, q: &Question) -> Answer {
        match q {
            Question::Strategy { opno, typ } => Answer::Strategy(if *typ == INT8 {
                match *opno {
                    LT => found_strategy(1),
                    LE => found_strategy(2),
                    EQ => found_strategy(3),
                    GE => found_strategy(4),
                    GT => found_strategy(5),
                    _ => found_strategy(0),
                }
            } else if *typ == DATE && *opno == DATE_LT {
                found_strategy(1)
            } else {
                None
            }),
            Question::OperatorName { opno } => Answer::OperatorName(match *opno {
                OVERLAPS => Some("&&".to_string()),
                NE => Some("<>".to_string()),
                _ => None,
            }),
            Question::Render { typ, value } => Answer::Text(match *typ {
                INT8 | INT4 => Some((*value as i64).to_string()),
                DATE => Some(format!("day {value}")),
                TIMESTAMP if *value % 2 == 1 => Some(format!("day {} 12:00:00", *value / 2)),
                TIMESTAMP => Some(format!("day {} 00:00:00", *value / 2)),
                INT8RANGE => Some(self.ranges[*value as usize].clone()),
                _ => None,
            }),
            Question::SqlType { typ } => Answer::SqlType(match *typ {
                INT8 => Some("bigint".to_string()),
                INT8RANGE => Some("int8range".to_string()),
                _ => None,
            }),
            Question::ArrayElements { typ, value } => Answer::Elements(match *typ {
                INT8_ARRAY | INT4_ARRAY => Some(ArrayConst {
                    elem_type: if *typ == INT8_ARRAY { INT8 } else { INT4 },
                    elems: self.arrays[*value as usize]
                        .iter()
                        .map(|e| ArrayElem {
                            is_null: e.is_none(),
                            value: e.unwrap_or(0) as u64,
                            text: e.filter(|v| Some(*v) != self.unrendered).map(|v| v.to_string()),
                        })
                        .collect(),
                }),
                _ => None,
            }),
            Question::CompareProc { typ } => Answer::Proc(found_oid(match *typ {
                INT8 if !self.no_procs => CMP,
                DATE => DATE_CMP,
                _ => 0,
            })),
            Question::CrossProc { typ, other } => Answer::CrossProc(found_oid(match (*typ, *other) {
                (INT8, INT8) => CMP,
                (INT8, INT4) => CMP84,
                (DATE, DATE) => DATE_CMP,
                (DATE, TIMESTAMP) => DATE_CMP_TIMESTAMP,
                _ => 0,
            })),
            Question::ParseConst { typ, text } => Answer::Constant(self.parse(*typ, text)),
            Question::Parse { typ, text } => Answer::Value(self.parse(*typ, text)),
            Question::Compare { proc, left, right, .. } => {
                Answer::Comparison(self.compare(*proc, *left, *right))
            }
            Question::ReadBack { typ, proc, text, value, .. } => Answer::ReadBack(
                self.parse(*typ, text).map(|found| self.compare(*proc, found, *value)),
            ),
            Question::SelectBool { sql } => {
                let texts = literals(sql);
                let ((a, b), (c, d)) = (bounds(&texts[0]), bounds(&texts[1]));
                Answer::Truth(Some(!(a < d && c < b)))
            }
            Question::SelectText { sql } => {
                let texts = literals(sql);
                // The empty range has no bounds of its own.
                let ranges: Vec<(i64, i64)> =
                    texts.iter().filter(|t| *t != "empty").map(|t| bounds(t)).collect();
                if ranges.is_empty() {
                    return Answer::Selected(Selection::Null);
                }
                let lo = ranges.iter().map(|r| r.0).min().unwrap();
                let hi = ranges.iter().map(|r| r.1).max().unwrap();
                Answer::Selected(Selection::Text(format!("[{lo},{hi})")))
            }
        }
    }

    fn compare(&self, proc: u32, left: u64, right: u64) -> i32 {
        let (a, b) = match proc {
            CMP | CMP84 | DATE_CMP => (left as i64, right as i64),
            DATE_CMP_TIMESTAMP => (2 * left as i64, right as i64),
            _ => panic!("no such procedure"),
        };
        if a < b {
            -1
        } else if a > b {
            1
        } else {
            0
        }
    }

    fn parse(&self, typ: u32, text: &str) -> Option<u64> {
        match typ {
            INT8 => text.parse::<i64>().ok().map(|v| {
                (if Some(v) == self.misread { v + 1 } else { v }) as u64
            }),
            // The time of day is read over.
            DATE => text.strip_prefix("day ")?.split(' ').next()?.parse::<u64>().ok(),
            _ => panic!("no such type"),
        }
    }

    fn leaf(&self, expr: &LeafExpr, rows: &Vec<ColSummary>) -> bool {
        let mut run = LeafRun::new();
        loop {
            match run.advance(expr, rows) {
                Evaluation::Ask(q) => run.learn(self.answer(&q)),
                Evaluation::Verdict(b) => return b,
            }
        }
    }

    fn pruned(&self, clauses: &Vec<Clause>, rows: &Vec<ColSummary>) -> bool {
        let mut decision = Decision::new();
        let verdict = loop {
            match decision.advance(clauses, rows) {
                Evaluation::Ask(q) => decision.learn(self.answer(&q)),
                Evaluation::Verdict(b) => break b,
            }
        };
        assert_eq!(verdict, self.pruned_leaf_by_leaf(clauses, rows));
        verdict
    }

    fn pruned_leaf_by_leaf(&self, clauses: &Vec<Clause>, rows: &Vec<ColSummary>) -> bool {
        let mut known: Vec<Option<bool>> = Vec::new();
        loop {
            match evaluate_relation(clauses, rows, &known) {
                Walk::Decided(b) => return b,
                Walk::Pending(leaf) => {
                    let verdict = self.leaf(&leaf.expr, rows);
                    if known.len() <= leaf.id {
                        known.resize(leaf.id + 1, None);
                    }
                    known[leaf.id] = Some(verdict);
                }
            }
        }
    }

    fn widen_once(&self, col: &mut ColSummary, typ: u32, value: Option<u64>) -> bool {
        let mut facts = WidenFacts::new();
        loop {
            let before = col.clone();
            match widen_column(
                col,
                typ,
                NO_COLLATION,
                value.unwrap_or(0),
                value.is_none(),
                &facts,
            ) {
                Widening::Ask(q) => {
                    assert_eq!(*col, before);
                    facts.learn(self.answer(&q));
                }
                Widening::Done(changed) => return changed,
            }
        }
    }

    fn widen(&self, col: &mut ColSummary, typ: u32, value: Option<u64>) -> bool {
        let changed = self.widen_once(col, typ, value);
        // The same value changes nothing a second time.
        let after = col.clone();
        assert!(!self.widen_once(col, typ, value));
        assert_eq!(*col, after);
        assert!(!col.all_nulls || col.has_nulls);
        changed
    }
}

/// What is left of a column's summary that cannot take a value in.
fn flags(has_nulls: bool) -> ColSummary {
    ColSummary {
        attnum: 2,
        overlap: true,
        sql_type: String::new(),
        min: None,
        max: None,
        has_nulls,
        all_nulls: false,
    }
}

fn var(attno: i16) -> Operand {
    Operand::Var { attno, vartype: INT8, collation: NO_COLLATION }
}

fn konst(v: i64) -> Operand {
    Operand::Const { consttype: INT8, value: v as u64, is_null: false }
}

fn konst4(v: i64) -> Operand {
    Operand::Const { consttype: INT4, value: v as u64, is_null: false }
}

fn op(opno: u32, left: Operand, right: Operand) -> LeafExpr {
    LeafExpr::Op { opno, inputcollid: NO_COLLATION, args: vec![left, right] }
}

fn list(at: u64) -> LeafExpr {
    LeafExpr::ScalarArrayOp {
        opno: EQ,
        inputcollid: NO_COLLATION,
        use_or: true,
        args: vec![var(2), Operand::Const { consttype: INT8_ARRAY, value: at, is_null: false }],
    }
}

fn leaf(id: usize, expr: LeafExpr) -> Clause {
    Clause::Leaf(Leaf { id, expr })
}

fn cmp(id: usize, opno: u32, v: i64) -> Clause {
    leaf(id, op(opno, var(2), konst(v)))
}

/// A comparison with an `integer`, as a query's numbers are.
fn cmp4(id: usize, opno: u32, v: i64) -> Clause {
    leaf(id, op(opno, var(2), konst4(v)))
}

fn and(args: Vec<Clause>) -> Clause {
    Clause::Bool { op: BoolOp::And, args }
}

fn or(args: Vec<Clause>) -> Clause {
    Clause::Bool { op: BoolOp::Or, args }
}

fn range(min: i64, max: i64) -> ColSummary {
    ColSummary {
        attnum: 2,
        overlap: false,
        sql_type: "bigint".into(),
        min: Some(min.to_string()),
        max: Some(max.to_string()),
        has_nulls: false,
        all_nulls: false,
    }
}

fn extent(text: Option<&str>) -> ColSummary {
    ColSummary {
        attnum: 2,
        overlap: true,
        sql_type: "int8range".into(),
        min: text.map(|s| s.to_string()),
        max: None,
        has_nulls: false,
        all_nulls: false,
    }
}

fn decide(s: &Server, clause: Clause, row: ColSummary) -> bool {
    s.pruned(&vec![clause], &vec![row])
}

// ---- comparisons -----------------------------------------------------------------

#[test]
fn comparisons_prune_at_the_bounds() {
    let s = server();
    let r = || range(100, 199);
    assert!(decide(&s, cmp(0, LT, 100), r()));
    assert!(!decide(&s, cmp(0, LT, 101), r()));
    assert!(decide(&s, cmp(0, LE, 99), r()));
    assert!(!decide(&s, cmp(0, LE, 100), r()));
    assert!(decide(&s, cmp(0, EQ, 99), r()));
    assert!(!decide(&s, cmp(0, EQ, 100), r()));
    assert!(!decide(&s, cmp(0, EQ, 199), r()));
    assert!(decide(&s, cmp(0, EQ, 200), r()));
    assert!(decide(&s, cmp(0, GE, 200), r()));
    assert!(!decide(&s, cmp(0, GE, 199), r()));
    assert!(decide(&s, cmp(0, GT, 199), r()));
    assert!(!decide(&s, cmp(0, GT, 198), r()));
}

#[test]
fn constants_of_another_type_compare_as_their_own() {
    let s = server();
    for opno in [LT, LE, EQ, GE, GT] {
        for v in [0, 99, 100, 101, 199, 200] {
            assert_eq!(
                decide(&s, cmp4(0, opno, v), range(100, 199)),
                decide(&s, cmp(0, opno, v), range(100, 199))
            );
        }
    }
    let turned = |v: i64| leaf(0, op(GT, konst4(v), var(2)));
    assert!(decide(&s, turned(100), range(100, 199)));
    assert!(!decide(&s, turned(101), range(100, 199)));
}

#[test]
fn a_constant_that_the_columns_type_cannot_hold_prunes_nothing() {
    let s = server();
    let days = |day: u64| {
        let mut row = range(0, 0);
        row.sql_type = "date".into();
        row.min = Some(format!("day {day}"));
        row.max = row.min.clone();
        row
    };
    let before = |consttype: u32, value: u64| {
        leaf(
            0,
            op(
                DATE_LT,
                Operand::Var { attno: 2, vartype: DATE, collation: NO_COLLATION },
                Operand::Const { consttype, value, is_null: false },
            ),
        )
    };
    // Day 5 lies before its own noon, though noon reads as day 5.
    assert!(!decide(&s, before(TIMESTAMP, 11), days(5)));
    assert!(!decide(&s, before(TIMESTAMP, 11), days(8)));
    assert!(decide(&s, before(TIMESTAMP, 10), days(5)));
    assert!(!decide(&s, before(TIMESTAMP, 10), days(4)));
    assert!(decide(&s, before(DATE, 5), days(5)));
    assert!(!decide(&s, before(DATE, 6), days(5)));
    // The column's type does not compare with this one.
    assert!(!decide(&s, before(INT8, 5), days(5)));
    // The text of a constant may denote another value even in its own type.
    let mut blurred = server();
    blurred.misread = Some(250);
    assert!(!decide(&blurred, cmp(0, GE, 250), range(0, 99)));
    assert!(decide(&blurred, cmp(0, GE, 251), range(0, 99)));
}

#[test]
fn a_clause_under_another_collation_prunes_nothing() {
    let mut s = server();
    s.arrays.push(vec![Some(500)]);
    let compared = |inputcollid: u32| {
        let args = vec![var(2), konst(500)];
        decide(&s, leaf(0, LeafExpr::Op { opno: GE, inputcollid, args }), range(0, 99))
    };
    assert!(compared(NO_COLLATION));
    assert!(!compared(OTHER_COLLATION));
    let listed = |inputcollid: u32| {
        let array = Operand::Const { consttype: INT8_ARRAY, value: 0, is_null: false };
        let args = vec![var(2), array];
        let expr = LeafExpr::ScalarArrayOp { opno: EQ, inputcollid, use_or: true, args };
        decide(&s, leaf(0, expr), range(0, 99))
    };
    assert!(listed(NO_COLLATION));
    assert!(!listed(OTHER_COLLATION));
}

#[test]
fn the_operand_order_does_not_matter() {
    let s = server();
    for (opno, flipped) in [(LT, GT), (LE, GE), (EQ, EQ), (GE, LE), (GT, LT)] {
        for v in [0, 99, 100, 101, 150, 198, 199, 200, 300] {
            let plain = decide(&s, cmp(0, opno, v), range(100, 199));
            let turned =
                decide(&s, leaf(0, op(flipped, konst(v), var(2))), range(100, 199));
            assert_eq!(plain, turned, "operator {opno}, constant {v}");
        }
    }
}

#[test]
fn strategies_commute() {
    let commuted: Vec<i16> = (0..7).map(|s| commute_strategy(s)).collect();
    assert_eq!(commuted, vec![0, 5, 4, 3, 2, 1, 6]);
}

#[test]
fn without_usable_facts_nothing_is_pruned() {
    let s = server();
    let mut no_max = range(0, 1);
    no_max.max = None;
    assert!(!decide(&s, cmp(0, GT, 500), no_max));
    let mut unreadable = range(0, 1);
    unreadable.min = Some("zero".into());
    assert!(!decide(&s, cmp(0, GT, 500), unreadable));
    let mut unreadable = range(0, 1);
    unreadable.max = Some("one".into());
    assert!(!decide(&s, cmp(0, GT, 500), unreadable));
    let mut other_column = range(0, 1);
    other_column.attnum = 3;
    assert!(!decide(&s, cmp(0, GT, 500), other_column));
    assert!(!decide(&s, cmp(0, GT, 500), extent(Some("[0,1)"))));
    assert!(!server().pruned(&vec![cmp(0, GT, 500)], &vec![]));
    assert!(!server().pruned(&vec![], &vec![range(0, 1)]));
    let mut blind = server();
    blind.no_procs = true;
    assert!(!decide(&blind, cmp(0, GT, 500), range(0, 1)));
    assert!(decide(&s, cmp(0, GT, 500), range(0, 1)));
}

// ---- extraction ------------------------------------------------------------------

fn extracted(s: &Server, expr: &LeafExpr) -> Option<QualSpec> {
    let mut run = LeafRun::new();
    loop {
        match extract_qual(expr, &run.extract) {
            Extraction::Ask(q) => run.learn(s.answer(&q)),
            Extraction::Found(q) => return q,
        }
    }
}

#[test]
fn comparisons_are_extracted() {
    let s = server();
    let q = extracted(&s, &op(LE, konst(7), var(4)));
    assert_eq!(
        q,
        Some(QualSpec::Compare {
            attnum: 4,
            strategy: 4,
            typ: INT8,
            collation: NO_COLLATION,
            other: INT8,
            value: 7,
            const_text: "7".into(),
        })
    );
    assert_eq!(q.unwrap().attnum(), 4);
}

#[test]
fn relabelled_operands_count_as_themselves() {
    let s = server();
    let relabel = |typ: u32, o: Operand| Operand::Relabel { typ, arg: Box::new(o) };
    let inner = relabel(INT8, relabel(INT4, var(2)));
    assert!(matches!(strip_relabel(&inner), Operand::Var { attno: 2, .. }));
    // The constant's text is that of its own type, its comparison that of the type it stands for.
    assert_eq!(
        extracted(&s, &op(LT, inner, relabel(INT8, konst4(1)))),
        Some(QualSpec::Compare {
            attnum: 2,
            strategy: 1,
            typ: INT8,
            collation: NO_COLLATION,
            other: INT8,
            value: 1,
            const_text: "1".into(),
        })
    );
}

#[test]
fn other_shapes_are_not_extracted() {
    let s = server();
    assert_eq!(extracted(&s, &LeafExpr::Other), None);
    assert_eq!(extracted(&s, &op(LT, var(2), var(3))), None);
    assert_eq!(extracted(&s, &op(LT, konst(2), konst(3))), None);
    assert_eq!(extracted(&s, &op(LT, var(0), konst(3))), None);
    assert_eq!(extracted(&s, &op(LT, var(-1), konst(3))), None);
    assert_eq!(extracted(&s, &op(LT, Operand::Other, konst(3))), None);
    assert_eq!(extracted(&s, &op(NE, var(2), konst(3))), None);
    let null = Operand::Const { consttype: INT8, value: 0, is_null: true };
    assert_eq!(extracted(&s, &op(LT, var(2), null)), None);
    let one = LeafExpr::Op { opno: LT, inputcollid: 0, args: vec![var(2)] };
    assert_eq!(extracted(&s, &one), None);
    let unrendered = Operand::Const { consttype: 99, value: 0, is_null: false };
    assert_eq!(extracted(&s, &op(LT, var(2), unrendered)), None);
}

#[test]
fn null_tests_are_extracted() {
    assert_eq!(
        extract_nulltest(NullTestKind::IsNull, false, &var(3)),
        Some(QualSpec::Null { attnum: 3, is_null: true })
    );
    assert_eq!(
        extract_nulltest(NullTestKind::IsNotNull, false, &var(3)),
        Some(QualSpec::Null { attnum: 3, is_null: false })
    );
    assert_eq!(extract_nulltest(NullTestKind::Other, false, &var(3)), None);
    assert_eq!(extract_nulltest(NullTestKind::IsNull, false, &konst(3)), None);
    assert_eq!(extract_nulltest(NullTestKind::IsNull, false, &var(0)), None);
    // A row of nulls is not null, but each of its fields is.
    assert_eq!(extract_nulltest(NullTestKind::IsNull, true, &var(3)), None);
    assert_eq!(extract_nulltest(NullTestKind::IsNotNull, true, &var(3)), None);
}

#[test]
fn lists_are_extracted_for_any_and_equality_only() {
    let mut s = server();
    s.arrays.push(vec![Some(5), None]);
    assert_eq!(
        extracted(&s, &list(0)),
        Some(QualSpec::InList {
            attnum: 2,
            typ: INT8,
            collation: NO_COLLATION,
            elem_type: INT8,
            elems: vec![Some(ListElem { value: 5, text: "5".into() }), None],
        })
    );
    let array = || Operand::Const { consttype: INT8_ARRAY, value: 0, is_null: false };
    let with = |opno: u32, use_or: bool, left: Operand, right: Operand| {
        LeafExpr::ScalarArrayOp { opno, inputcollid: 0, use_or, args: vec![left, right] }
    };
    assert_eq!(extracted(&s, &with(EQ, false, var(2), array())), None);
    assert_eq!(extracted(&s, &with(LT, true, var(2), array())), None);
    assert_eq!(extracted(&s, &with(NE, true, var(2), array())), None);
    assert_eq!(extracted(&s, &with(EQ, true, array(), var(2))), None);
    let no_array = Operand::Const { consttype: 99, value: 0, is_null: false };
    assert_eq!(extracted(&s, &with(EQ, true, var(2), no_array)), None);
}

#[test]
fn an_element_without_a_text_could_match() {
    let elem = |is_null: bool, text: Option<&str>| ArrayElem {
        is_null,
        value: 1,
        text: text.map(|t| t.to_string()),
    };
    assert_eq!(
        array_const_texts(&vec![elem(false, Some("1")), elem(true, None)]),
        Some(vec![Some(ListElem { value: 1, text: "1".to_string() }), None])
    );
    assert_eq!(array_const_texts(&vec![elem(false, Some("1")), elem(false, None)]), None);
    let mut s = server();
    s.arrays.push(vec![Some(1000), Some(50)]);
    s.unrendered = Some(50);
    assert!(!decide(&s, leaf(0, list(0)), range(0, 99)));
}

// ---- lists, nulls, overlaps ------------------------------------------------------

#[test]
fn lists_prune_where_no_value_is_in_range() {
    let mut s = server();
    s.arrays = vec![
        vec![Some(5), Some(250)],
        vec![Some(5), None, Some(295)],
        vec![None],
        vec![],
        vec![Some(99), Some(200)],
        vec![Some(0), Some(100)],
    ];
    let prunes = |at: u64| decide(&s, leaf(0, list(at)), range(100, 199));
    assert!(prunes(0));
    assert!(prunes(1));
    assert!(prunes(2));
    assert!(prunes(3));
    assert!(prunes(4));
    assert!(!prunes(5));
    assert!(!decide(&s, leaf(0, list(0)), extent(Some("[0,1)"))));
    // An element whose text denotes another value could match.
    s.misread = Some(250);
    assert!(!decide(&s, leaf(0, list(0)), range(100, 199)));
    assert!(decide(&s, leaf(0, list(4)), range(100, 199)));
}

#[test]
fn lists_of_another_type_prune_alike() {
    let mut s = server();
    s.arrays = vec![vec![Some(5), Some(250)], vec![Some(150)]];
    let of = |consttype: u32, at: u64| {
        let args = vec![var(2), Operand::Const { consttype, value: at, is_null: false }];
        LeafExpr::ScalarArrayOp { opno: EQ, inputcollid: NO_COLLATION, use_or: true, args }
    };
    assert!(decide(&s, leaf(0, of(INT4_ARRAY, 0)), range(100, 199)));
    assert!(!decide(&s, leaf(0, of(INT4_ARRAY, 1)), range(100, 199)));
}

#[test]
fn null_tests_prune_by_the_flags() {
    let s = server();
    let test = |kind: NullTestKind, has: bool, all: bool| {
        let mut row = range(0, 9);
        row.has_nulls = has;
        row.all_nulls = all;
        let expr = LeafExpr::NullTest { kind, arg_is_row: false, arg: var(2) };
        let by_field = LeafExpr::NullTest { kind, arg_is_row: true, arg: var(2) };
        assert!(!decide(&s, leaf(0, by_field), row.clone()));
        decide(&s, leaf(0, expr), row)
    };
    assert!(test(NullTestKind::IsNull, false, false));
    assert!(!test(NullTestKind::IsNull, true, false));
    assert!(!test(NullTestKind::IsNull, true, true));
    assert!(!test(NullTestKind::IsNotNull, false, false));
    assert!(!test(NullTestKind::IsNotNull, true, false));
    assert!(test(NullTestKind::IsNotNull, true, true));
}

fn overlap(at: u64) -> LeafExpr {
    LeafExpr::Op {
        opno: OVERLAPS,
        inputcollid: 0,
        args: vec![
            Operand::Var { attno: 2, vartype: INT8RANGE, collation: NO_COLLATION },
            Operand::Const { consttype: INT8RANGE, value: at, is_null: false },
        ],
    }
}

#[test]
fn overlaps_prune_where_the_extent_is_disjoint() {
    let mut s = server();
    s.ranges = vec!["[250,260)".into(), "[95,105)".into()];
    assert!(decide(&s, leaf(0, overlap(0)), extent(Some("[0,100)"))));
    assert!(!decide(&s, leaf(0, overlap(0)), extent(Some("[200,300)"))));
    assert!(!decide(&s, leaf(0, overlap(1)), extent(Some("[0,100)"))));
    assert!(!decide(&s, leaf(0, overlap(0)), extent(None)));
    let mut untyped = extent(Some("[0,100)"));
    untyped.sql_type = String::new();
    assert!(!decide(&s, leaf(0, overlap(0)), untyped));
    assert!(!decide(&s, leaf(0, overlap(0)), range(0, 1)));
}

#[test]
fn the_overlap_test_is_one_statement() {
    let q = QualSpec::Overlap {
        attnum: 2,
        const_text: "it's".into(),
        const_type: "gis.box".into(),
    };
    let mut facts = EvalFacts::new();
    assert_eq!(
        q.proves_prune(&extent(Some("[0,100)")), &mut facts),
        Evaluation::Ask(Question::SelectBool {
            sql: "SELECT NOT (CAST('[0,100)' AS int8range) && CAST('it''s' AS gis.box))".into()
        })
    );
    facts.disjoint = Some(None);
    assert_eq!(q.proves_prune(&extent(Some("x")), &mut facts), Evaluation::Verdict(false));
    facts.disjoint = Some(Some(true));
    assert_eq!(q.proves_prune(&extent(Some("x")), &mut facts), Evaluation::Verdict(true));
    assert_eq!(sql_literal("a'b"), "'a''b'");
}

#[test]
fn the_first_summary_of_a_column_counts() {
    let rows = vec![range(0, 9), range(100, 199)];
    assert_eq!(find_row(&rows, 2), Some(0));
    assert_eq!(find_row(&rows, 5), None);
    assert!(server().pruned(&vec![cmp(0, EQ, 150)], &rows));
}

// ---- boolean structure -----------------------------------------------------------

#[test]
fn conjunctions_and_disjunctions_compose() {
    let s = server();
    let r = || range(100, 199);
    let out = |id: usize| cmp(id, GT, 500);
    let inside = |id: usize| cmp(id, GT, 50);
    assert!(decide(&s, and(vec![inside(0), out(1)]), r()));
    assert!(!decide(&s, and(vec![inside(0), inside(1)]), r()));
    assert!(!decide(&s, and(vec![]), r()));
    assert!(decide(&s, or(vec![out(0), out(1)]), r()));
    assert!(!decide(&s, or(vec![out(0), inside(1)]), r()));
    assert!(!decide(&s, or(vec![]), r()));
    assert!(decide(&s, or(vec![and(vec![inside(0), out(1)]), out(2)]), r()));
    assert!(!decide(&s, Clause::Bool { op: BoolOp::Not, args: vec![inside(0)] }, r()));
    assert!(!decide(&s, Clause::Bool { op: BoolOp::Not, args: vec![out(0)] }, r()));
    assert!(s.pruned(&vec![inside(0), out(1)], &vec![r()]));
}

#[test]
fn nesting_is_followed_however_deep() {
    let s = server();
    let nested = |n: usize, v: i64| {
        let mut clause = cmp(0, GT, v);
        for i in 0..n {
            clause = if i % 2 == 0 { and(vec![clause]) } else { or(vec![clause]) };
        }
        clause
    };
    for n in [0, 1, 32, 33, 34, 200] {
        assert!(decide(&s, nested(n, 500), range(0, 99)));
        assert!(!decide(&s, nested(n, 50), range(0, 99)));
    }
}

#[test]
fn a_walk_waits_for_the_leaves_it_needs() {
    let clause = or(vec![cmp(0, GT, 500), cmp(1, LT, 5)]);
    let pending = |known: Vec<Option<bool>>| match clause_proves_prune(&clause, &known) {
        Walk::Pending(leaf) => Err(leaf.id),
        Walk::Decided(b) => Ok(b),
    };
    assert_eq!(pending(vec![]), Err(0));
    assert_eq!(pending(vec![Some(true)]), Err(1));
    assert_eq!(pending(vec![Some(false)]), Ok(false));
    assert_eq!(pending(vec![Some(true), Some(true)]), Ok(true));
}

// ---- results ---------------------------------------------------------------------

fn truth(clause: &Clause, row: Option<i64>, s: &Server) -> bool {
    match clause {
        Clause::Bool { op: BoolOp::And, args } => args.iter().all(|c| truth(c, row, s)),
        Clause::Bool { op: BoolOp::Or, args } => args.iter().any(|c| truth(c, row, s)),
        Clause::Bool { op: BoolOp::Not, .. } => panic!("not used here"),
        Clause::Leaf(leaf) => match &leaf.expr {
            LeafExpr::Op { opno, args, .. } => match (row, &args[1]) {
                (Some(v), Operand::Const { value, .. }) => {
                    let k = *value as i64;
                    match *opno {
                        LT => v < k,
                        LE => v <= k,
                        EQ => v == k,
                        GE => v >= k,
                        _ => v > k,
                    }
                }
                _ => false,
            },
            LeafExpr::NullTest { kind, .. } => (*kind == NullTestKind::IsNull) == row.is_none(),
            LeafExpr::ScalarArrayOp { args, .. } => match (row, &args[1]) {
                (Some(v), Operand::Const { value, .. }) => {
                    s.arrays[*value as usize].contains(&Some(v))
                }
                _ => false,
            },
            LeafExpr::Other => panic!("not used here"),
        },
    }
}

#[test]
fn results_are_the_same_with_and_without_pruning() {
    let mut s = server();
    s.arrays = vec![vec![Some(5), Some(150), Some(295)], vec![Some(5), None, Some(1000)]];
    let data: Vec<Vec<Option<i64>>> = vec![
        (0..100).map(Some).collect(),
        (100..200).map(Some).chain([None]).collect(),
        (200..300).map(Some).collect(),
        vec![None, None],
        vec![],
    ];
    let mut parts: Vec<ColSummary> = vec![range(0, 99), range(100, 199), range(200, 299)];
    parts[1].has_nulls = true;
    let mut empty = range(0, 0);
    empty.min = None;
    empty.max = None;
    let mut nulls = empty.clone();
    nulls.has_nulls = true;
    nulls.all_nulls = true;
    parts.push(nulls);
    parts.push(empty);
    let null_test = |kind: NullTestKind| {
        leaf(0, LeafExpr::NullTest { kind, arg_is_row: false, arg: var(2) })
    };
    let mut clauses: Vec<Clause> = vec![
        and(vec![cmp(0, GE, 90), cmp(1, LE, 110)]),
        or(vec![cmp(0, LT, 50), cmp(1, GE, 250)]),
        or(vec![and(vec![cmp(0, GE, 100), cmp(1, LT, 110)]), cmp(2, EQ, 5)]),
        leaf(0, list(0)),
        leaf(0, list(1)),
        null_test(NullTestKind::IsNull),
        null_test(NullTestKind::IsNotNull),
    ];
    for opno in [LT, LE, EQ, GE, GT] {
        for v in [-1, 0, 99, 100, 199, 200, 299, 300] {
            clauses.push(cmp(0, opno, v));
        }
    }
    let mut pruned = 0;
    for clause in clauses {
        for (rows, summary) in data.iter().zip(&parts) {
            let matching = rows.iter().filter(|r| truth(&clause, **r, &s)).count();
            let expected = vec![clone_of(&clause)];
            if s.pruned(&expected, &vec![summary.clone()]) {
                pruned += 1;
                assert_eq!(matching, 0);
            }
        }
    }
    assert!(pruned > 60);
}

fn clone_of(c: &Clause) -> Clause {
    match c {
        Clause::Bool { op, args } => {
            Clause::Bool { op: *op, args: args.iter().map(clone_of).collect() }
        }
        Clause::Leaf(l) => Clause::Leaf(Leaf { id: l.id, expr: clone_expr(&l.expr) }),
    }
}

fn clone_expr(e: &LeafExpr) -> LeafExpr {
    let ops = |args: &Vec<Operand>| args.iter().map(clone_operand).collect::<Vec<_>>();
    match e {
        LeafExpr::Op { opno, inputcollid, args } => {
            LeafExpr::Op { opno: *opno, inputcollid: *inputcollid, args: ops(args) }
        }
        LeafExpr::NullTest { kind, arg_is_row, arg } => LeafExpr::NullTest {
            kind: *kind,
            arg_is_row: *arg_is_row,
            arg: clone_operand(arg),
        },
        LeafExpr::ScalarArrayOp { opno, inputcollid, use_or, args } => LeafExpr::ScalarArrayOp {
            opno: *opno,
            inputcollid: *inputcollid,
            use_or: *use_or,
            args: ops(args),
        },
        LeafExpr::Other => LeafExpr::Other,
    }
}

fn clone_operand(o: &Operand) -> Operand {
    match o {
        Operand::Var { attno, vartype, collation } => {
            Operand::Var { attno: *attno, vartype: *vartype, collation: *collation }
        }
        Operand::Const { consttype, value, is_null } => {
            Operand::Const { consttype: *consttype, value: *value, is_null: *is_null }
        }
        Operand::Relabel { typ, arg } => {
            Operand::Relabel { typ: *typ, arg: Box::new(clone_operand(arg)) }
        }
        Operand::Other => Operand::Other,
    }
}

// ---- scenarios -------------------------------------------------------------------

/// Plays a scenario over the events table: plans are made from the summaries.
fn play(steps: Vec<Step>) {
    let mut s = server();
    s.arrays = vec![vec![Some(5), Some(250)], vec![Some(5), Some(25), Some(75)]];
    let parts = [("events_r1", 0), ("events_r2", 100), ("events_r3", 200)];
    let mut pruning = true;
    let mut plans = 0;
    for step in steps {
        match &step {
            Step::Run { sql } => {
                if sql.starts_with("SET table_range.enable_pruning = ") {
                    pruning = sql.ends_with("on");
                }
                assert!(judge(&step, &Observation::Ran));
            }
            Step::Plan { sql, .. } => {
                let pred = sql.split(" WHERE ").nth(1).unwrap();
                let mut lines: Vec<Option<String>> = vec![Some("Append".into()), None];
                for (name, lo) in parts {
                    let rows = vec![range(lo, lo + 99)];
                    if !pruning || !s.pruned(&vec![predicate(pred)], &rows) {
                        lines.push(Some(format!("  ->  Seq Scan on {name}")));
                    }
                }
                plans += 1;
                assert!(judge(&step, &Observation::Plan(plan_text(&lines))), "{sql}");
                assert!(!judge(&step, &Observation::Plan("Result".into())));
                assert!(!judge(&step, &Observation::Ran));
            }
            Step::Count { expected, .. } => {
                assert!(judge(&step, &Observation::Count(*expected)));
                assert!(!judge(&step, &Observation::Count(*expected + 1)));
            }
            Step::SameCount { .. } => {
                assert!(judge(&step, &Observation::Counts { off: 3, on: 3 }));
                assert!(!judge(&step, &Observation::Counts { off: 3, on: 2 }));
            }
            _ => panic!("no such step here"),
        }
    }
    assert!(plans > 0);
}

fn predicate(pred: &str) -> Clause {
    match pred {
        "val >= 250" => cmp4(0, GE, 250),
        "val < 50" => cmp4(0, LT, 50),
        "val >= 0" => cmp4(0, GE, 0),
        "val = 100" => cmp4(0, EQ, 100),
        "val < 50 OR val >= 250" => or(vec![cmp4(0, LT, 50), cmp4(1, GE, 250)]),
        "val >= 250 OR val >= 0" => or(vec![cmp4(0, GE, 250), cmp4(1, GE, 0)]),
        "val IN (5, 250)" => leaf(0, list(0)),
        "val IN (5, 25, 75)" => leaf(0, list(1)),
        other => panic!("no such predicate here: {other}"),
    }
}

#[test]
fn scenarios_over_the_events_table_hold() {
    play(e2e_prunes_lower_partitions_for_high_predicate());
    play(e2e_prunes_upper_partitions_for_low_predicate());
    play(e2e_keeps_all_partitions_for_wide_predicate());
    play(e2e_boundary_equality_keeps_correct_partition());
    play(e2e_disabled_pruning_scans_all_partitions());
    play(e2e_or_pruning());
    play(e2e_in_list_pruning());
}

// ---- widening --------------------------------------------------------------------

#[test]
fn values_widen_a_range() {
    let s = server();
    let mut col = range(100, 199);
    assert!(!s.widen(&mut col, INT8, Some(150)));
    assert!(!s.widen(&mut col, INT8, Some(100)));
    assert!(!s.widen(&mut col, INT8, Some(199)));
    assert_eq!(col, range(100, 199));
    assert!(s.widen(&mut col, INT8, Some(500)));
    assert_eq!(col, range(100, 500));
    assert!(s.widen(&mut col, INT8, Some(-7i64 as u64)));
    assert_eq!(col, range(-7, 500));
}

#[test]
fn nulls_set_the_flag_once() {
    let s = server();
    let mut col = range(0, 9);
    assert!(s.widen(&mut col, INT8, None));
    assert!(col.has_nulls);
    assert!(!s.widen(&mut col, INT8, None));
}

#[test]
fn the_first_value_becomes_both_bounds() {
    let s = server();
    let mut col = range(0, 9);
    col.min = None;
    col.max = None;
    col.has_nulls = true;
    col.all_nulls = true;
    assert!(s.widen(&mut col, INT8, Some(42)));
    let mut expected = range(42, 42);
    expected.has_nulls = true;
    assert_eq!(col, expected);
}

#[test]
fn a_value_that_cannot_be_taken_in_leaves_only_the_flags() {
    let mut s = server();
    s.ranges = vec!["[5,6)".into()];
    let lost = |s: &Server, mut col: ColSummary, typ: u32, value: u64| {
        let expected = flags(col.has_nulls);
        assert!(s.widen(&mut col, typ, Some(value)));
        assert_eq!(col, expected);
    };
    let empty = || {
        let mut col = range(0, 9);
        col.min = None;
        col.max = None;
        col.has_nulls = true;
        col.all_nulls = true;
        col
    };
    // No text for the value.
    lost(&s, range(0, 9), 99, 500);
    lost(&s, empty(), 99, 500);
    // A text that denotes another value is no bound.
    s.misread = Some(500);
    lost(&s, range(0, 9), INT8, 500);
    lost(&s, empty(), INT8, 500);
    let mut col = range(0, 9);
    assert!(s.widen(&mut col, INT8, Some(501)));
    assert_eq!(col, range(0, 501));
    // A bound that does not convert.
    col.max = Some("nine".into());
    lost(&s, col, INT8, 5);
    let mut col = range(0, 9);
    col.min = Some("zero".into());
    lost(&s, col, INT8, 5);
    // The flags still prune, and follow what is inserted later.
    let mut col = flags(false);
    let tests = |col: &ColSummary| {
        let of = |kind: NullTestKind| LeafExpr::NullTest { kind, arg_is_row: false, arg: var(2) };
        [
            decide(&s, leaf(0, of(NullTestKind::IsNull)), col.clone()),
            decide(&s, leaf(0, of(NullTestKind::IsNotNull)), col.clone()),
            decide(&s, cmp(0, GT, 500), col.clone()),
            decide(&s, leaf(0, overlap(0)), col.clone()),
        ]
    };
    assert_eq!(tests(&col), [true, false, false, false]);
    assert!(!s.widen(&mut col, INT8, Some(7)));
    assert!(s.widen(&mut col, INT8, None));
    assert_eq!(col, flags(true));
    assert_eq!(tests(&col), [false, false, false, false]);
}

#[test]
fn without_a_procedure_the_first_value_becomes_both_bounds() {
    let mut s = server();
    s.no_procs = true;
    let mut col = range(0, 9);
    col.min = None;
    col.max = None;
    col.has_nulls = true;
    col.all_nulls = true;
    assert!(s.widen(&mut col, INT8, Some(42)));
    let mut expected = range(42, 42);
    expected.has_nulls = true;
    assert_eq!(col, expected);
    // Nothing is compared with that range, here or in a clause.
    assert!(!s.widen(&mut col, INT8, Some(500)));
    assert_eq!(col, expected);
    assert!(!decide(&s, cmp(0, GT, 400), col));
}

#[test]
fn a_value_without_an_extent_changes_nothing() {
    let mut s = server();
    s.ranges = vec!["empty".into(), "[5,6)".into()];
    let mut col = extent(None);
    assert!(!s.widen(&mut col, INT8RANGE, Some(0)));
    assert_eq!(col, extent(None));
    // It only takes back that all are null.
    col.has_nulls = true;
    col.all_nulls = true;
    assert!(s.widen(&mut col, INT8RANGE, Some(0)));
    assert!(!col.all_nulls);
    assert!(s.widen(&mut col, INT8RANGE, Some(1)));
    assert!(!s.widen(&mut col, INT8RANGE, Some(0)));
    assert_eq!(col.min, Some("[5,6)".to_string()));
}

#[test]
fn values_widen_an_extent() {
    let mut s = server();
    s.ranges = vec!["[250,260)".into(), "[0,10)".into()];
    let mut col = extent(None);
    assert!(s.widen(&mut col, INT8RANGE, Some(0)));
    assert_eq!(col.min, Some("[250,260)".to_string()));
    assert!(s.widen(&mut col, INT8RANGE, Some(1)));
    assert_eq!(col.min, Some("[0,260)".to_string()));
    assert!(!s.widen(&mut col, INT8RANGE, Some(0)));
    assert_eq!(col.max, None);
}

#[test]
fn extents_are_merged_by_statement() {
    let ask = |sql_type: &str, old: Option<&str>| {
        let mut col = extent(old);
        col.sql_type = sql_type.to_string();
        let mut facts = WidenFacts::new();
        facts.learn(Answer::Text(Some("n'w".into())));
        match widen_column(&mut col, INT8RANGE, 0, 1, false, &facts) {
            Widening::Ask(Question::SelectText { sql }) => sql,
            _ => panic!("expected a statement"),
        }
    };
    assert_eq!(ask("int8range", None), "SELECT CAST('n''w' AS int8range)::text");
    assert_eq!(
        ask("int8range", Some("old")),
        "SELECT range_merge(CAST('old' AS int8range), CAST('n''w' AS int8range))::text"
    );
    assert_eq!(
        ask("geometry", None),
        "SELECT ST_Extent(g)::geometry::text FROM (VALUES (CAST('n''w' AS geometry))) v(g)"
    );
    assert_eq!(
        ask("gis.geometry", Some("old")),
        "SELECT ST_Extent(g)::geometry::text FROM (VALUES (CAST('old' AS gis.geometry)), \
         (CAST('n''w' AS gis.geometry))) v(g)"
    );
}

#[test]
fn a_value_that_cannot_be_merged_leaves_only_the_flags() {
    for answers in [
        vec![Answer::Text(None)],
        vec![Answer::Text(Some("[5,6)".into())), Answer::Selected(Selection::Failed)],
    ] {
        let mut col = extent(Some("[0,1)"));
        col.has_nulls = true;
        let mut facts = WidenFacts::new();
        for answer in answers {
            facts.learn(answer);
        }
        assert_eq!(widen_column(&mut col, INT8RANGE, 0, 1, false, &facts), Widening::Done(true));
        assert_eq!(col, flags(true));
        assert_eq!(widen_column(&mut col, INT8RANGE, 0, 1, false, &facts), Widening::Done(false));
    }
}

#[test]
fn an_insert_that_failed_leaves_no_summary() {
    let outcome = |erase: bool, renew_plans: bool| Aftermath { erase, renew_plans };
    assert_eq!(after_insert(None, true), outcome(true, false));
    assert_eq!(after_insert(None, false), outcome(true, true));
    assert_eq!(after_insert(Some(true), true), outcome(false, false));
    assert_eq!(after_insert(Some(true), false), outcome(false, true));
    assert_eq!(after_insert(Some(false), false), outcome(false, false));
}

fn insert_once(s: &Server, summary: &mut IndexSummary, attrs: &Vec<IndexedAttr>) -> bool {
    let mut run = InsertRun::new();
    loop {
        match widen_on_insert(summary, attrs, &mut run) {
            Widening::Ask(q) => run.facts.learn(s.answer(&q)),
            Widening::Done(changed) => return changed,
        }
    }
}

fn insert(s: &Server, summary: &mut IndexSummary, attrs: &Vec<IndexedAttr>) -> bool {
    let changed = insert_once(s, summary, attrs);
    // The same row changes nothing a second time.
    let after = summary.clone();
    assert!(!insert_once(s, summary, attrs));
    assert_eq!(*summary, after);
    changed
}

fn attr(attnum: i16, value: Option<i64>) -> IndexedAttr {
    IndexedAttr {
        attnum,
        typ: INT8,
        collation: NO_COLLATION,
        value: value.unwrap_or(0) as u64,
        isnull: value.is_none(),
    }
}

#[test]
fn an_inserted_row_widens_every_column_it_touches() {
    let s = server();
    let mut third = range(0, 9);
    third.attnum = 3;
    let mut summary = IndexSummary { cols: vec![range(0, 99), third.clone()] };
    // The expression column, numbered zero, has no summary.
    let inside = vec![attr(2, Some(50)), attr(0, Some(7)), attr(3, Some(5))];
    assert!(!insert(&s, &mut summary, &inside));
    assert!(insert(&s, &mut summary, &vec![attr(2, Some(50)), attr(0, None), attr(3, None)]));
    third.has_nulls = true;
    assert_eq!(summary, IndexSummary { cols: vec![range(0, 99), third.clone()] });
    assert!(insert(&s, &mut summary, &vec![attr(2, Some(500)), attr(3, Some(5))]));
    assert_eq!(summary, IndexSummary { cols: vec![range(0, 500), third] });
    assert!(!insert(&s, &mut summary, &vec![]));
}

#[test]
fn a_column_that_cannot_take_its_value_in_keeps_its_flags() {
    let mut s = server();
    s.misread = Some(500);
    let mut third = range(0, 9);
    third.attnum = 3;
    let row = vec![attr(2, Some(500)), attr(3, Some(20))];
    let mut summary = IndexSummary { cols: vec![range(0, 99), third.clone()] };
    assert!(s.pruned(&vec![cmp(0, EQ, 501)], &summary.cols));
    assert!(insert(&s, &mut summary, &row));
    third.max = Some("20".into());
    assert_eq!(summary, IndexSummary { cols: vec![flags(false), third] });
    assert!(!s.pruned(&vec![cmp(0, EQ, 501)], &summary.cols));
    // What a value inside the range would be read as does not matter.
    let mut summary = IndexSummary { cols: vec![range(0, 999)] };
    assert!(!insert(&s, &mut summary, &row));
    assert_eq!(summary, IndexSummary { cols: vec![range(0, 999)] });
}

#[test]
fn a_summary_without_room_leaves_none_behind() {
    let s = server();
    let format = PageFormat { order: ByteOrder::Little, block_size: 1024 };
    let mut col = range(0, 9);
    let mut page = vec![0u8; 1000];
    let small = write_summary(format, &IndexSummary { cols: vec![col.clone()] }).unwrap();
    page[..small.len()].copy_from_slice(&small);
    assert!(s.pruned(&vec![cmp(0, EQ, 500)], &read_summary(format, Some(&page)).unwrap().cols));
    col.max = Some("9".repeat(950));
    let large = IndexSummary { cols: vec![col] };
    assert!(write_summary(format, &large).is_err());
    let bytes = replace_summary(format, &large);
    page[..bytes.len()].copy_from_slice(&bytes);
    assert_eq!(read_summary(format, Some(&page)), None);
}

#[test]
fn inserted_rows_are_not_pruned() {
    let s = server();
    let mut summary = IndexSummary { cols: vec![range(0, 99)] };
    let find = |summary: &IndexSummary, v: i64| !s.pruned(&vec![cmp(0, EQ, v)], &summary.cols);
    assert!(!find(&summary, 500));
    assert!(insert(&s, &mut summary, &vec![attr(2, Some(500))]));
    assert!(find(&summary, 500));
    for v in 1000..1100 {
        assert!(insert(&s, &mut summary, &vec![attr(2, Some(v))]));
    }
    for v in 1000..1100 {
        assert!(find(&summary, v));
    }
    assert!(!find(&summary, 1100));
}

#[test]
fn a_summary_wider_than_its_rows_loses_nothing() {
    let s = server();
    // Rows 100 to 199 were deleted, and an insert of 500 was rolled back.
    let mut summary = IndexSummary { cols: vec![range(0, 199)] };
    assert!(insert(&s, &mut summary, &vec![attr(2, Some(500))]));
    assert_eq!(summary.cols, vec![range(0, 500)]);
    for v in 0..100 {
        assert!(!s.pruned(&vec![cmp(0, EQ, v)], &summary.cols));
    }
    assert!(!s.pruned(&vec![cmp(0, EQ, 150)], &summary.cols));
    assert!(s.pruned(&vec![cmp(0, GT, 500)], &summary.cols));
}

#[test]
fn widened_summaries_are_found_on_the_page() {
    let s = server();
    let format = PageFormat { order: ByteOrder::Little, block_size: 8192 };
    let mut summary = IndexSummary { cols: vec![range(0, 99)] };
    let mut page = vec![0u8; 8168];
    let before = write_summary(format, &summary).unwrap();
    page[..before.len()].copy_from_slice(&before);
    assert!(insert(&s, &mut summary, &vec![attr(2, Some(12345678))]));
    let after = replace_summary(format, &summary);
    page[..after.len()].copy_from_slice(&after);
    let read = read_summary(format, Some(&page)).unwrap();
    assert_eq!(read, summary);
    assert!(!s.pruned(&vec![cmp(0, EQ, 12345678)], &read.cols));
}

#[test]
fn texts_have_fixed_settings() {
    assert_eq!(
        fixed_settings(),
        vec![
            ("DateStyle", "ISO, MDY"),
            ("IntervalStyle", "postgres"),
            ("extra_float_digits", "3"),
            ("lc_monetary", "C"),
            ("array_nulls", "on"),
            ("standard_conforming_strings", "on"),
        ]
    );
}

#[test]
fn names_of_objects_are_written_as_numbers() {
    for typ in [24, 2202, 2203, 2204, 2205, 2206, 3734, 3769, 4089, 4096, 4191] {
        assert_eq!(written_as(typ), 26);
    }
    assert_eq!(written_as(26), 26);
    assert_eq!(written_as(INT8), INT8);
}

#[test]
fn a_question_without_an_answer_is_asked_again() {
    let mut s = server();
    s.arrays = vec![vec![None, Some(5), Some(250)]];
    let rows = vec![range(100, 199)];
    let clauses = vec![leaf(0, list(0)), cmp(1, GT, 500)];
    let mut decision = Decision::new();
    loop {
        let first = decision.advance(&clauses, &rows);
        assert_eq!(decision.advance(&clauses, &rows), first);
        match first {
            Evaluation::Ask(q) => decision.learn(s.answer(&q)),
            Evaluation::Verdict(b) => {
                assert!(b);
                break;
            }
        }
    }
}

#[test]
fn facts_start_out_unknown() {
    let facts = ExtractFacts::new();
    assert!(facts.strategy.is_none() && facts.text.is_none() && facts.elems.is_none());
    assert_eq!(found_oid(0), None);
    assert_eq!(found_oid(5), Some(5));
    assert_eq!(found_strategy(0), None);
    assert_eq!(found_strategy(65537), Some(1));
}
