use std::rc::Rc;
use table_range::backend::{Answer, Question};
use table_range::index_storage::{ColSummary, IndexSummary};
use table_range::plan_state::{
    has_storage, pruning_notice, summary_columns, summary_index, IndexInfo, PlanState, RelKind,
    RelationInfo,
};
use table_range::summary_cache::SummaryCache;

fn summary(max: &str) -> Rc<Vec<ColSummary>> {
    Rc::new(vec![ColSummary {
        attnum: 1,
        overlap: false,
        sql_type: "bigint".into(),
        min: Some("0".into()),
        max: Some(max.into()),
        has_nulls: false,
        all_nulls: false,
    }])
}

fn proc_of(typ: u32) -> Question {
    Question::CompareProc { typ }
}

fn strategy(opno: u32, typ: u32) -> Question {
    Question::Strategy { opno, typ }
}

fn cross(typ: u32, other: u32) -> Question {
    Question::CrossProc { typ, other }
}

fn constant(typ: u32, text: &str) -> Question {
    Question::ParseConst { typ, text: text.into() }
}

#[test]
fn the_cache_gives_back_what_was_put() {
    let mut cache = SummaryCache::new();
    assert_eq!(cache.get(10), None);
    cache.put(10, summary("99"));
    cache.put(11, summary("199"));
    assert_eq!(cache.get(10), Some(summary("99")));
    assert_eq!(cache.get(11), Some(summary("199")));
    cache.put(10, summary("500"));
    assert_eq!(cache.get(10), Some(summary("500")));
}

#[test]
fn an_invalidation_drops_one_index_or_all() {
    let mut cache = SummaryCache::new();
    cache.put(10, summary("99"));
    cache.put(11, summary("199"));
    cache.relcache_callback(10);
    assert_eq!(cache.get(10), None);
    assert_eq!(cache.get(11), Some(summary("199")));
    cache.put(10, summary("99"));
    cache.relcache_callback(0);
    assert_eq!(cache.get(10), None);
    assert_eq!(cache.get(11), None);
}

#[test]
fn an_insert_sends_once_per_index_and_subtransaction() {
    let mut cache = SummaryCache::new();
    assert!(cache.note_widened(10, 700, 700));
    assert!(!cache.note_widened(10, 700, 700));
    assert!(cache.note_widened(11, 700, 700));
    assert!(!cache.note_widened(11, 700, 700));
    // The next transaction starts over.
    assert!(cache.note_widened(10, 701, 701));
    assert!(!cache.note_widened(10, 701, 701));
    // Without a transaction identifier every insert sends, and nothing is noted.
    assert!(cache.note_widened(10, 0, 0));
    assert!(cache.note_widened(10, 0, 0));
    assert!(!cache.note_widened(10, 701, 701));
}

#[test]
fn a_rolled_back_savepoint_takes_no_invalidation_along() {
    let mut cache = SummaryCache::new();
    // The first insert is in a savepoint; its invalidation is gone with the rollback.
    assert!(cache.note_widened(10, 700, 702));
    assert!(!cache.note_widened(10, 700, 702));
    assert!(cache.note_widened(10, 700, 700));
    // A later savepoint sends again, whatever the transaction sent before.
    assert!(cache.note_widened(10, 700, 703));
    assert!(cache.note_widened(10, 700, 700));
    assert!(!cache.note_widened(10, 700, 700));
}

#[test]
fn an_index_is_not_served_in_the_transaction_that_inserts_through_it() {
    let mut cache = SummaryCache::new();
    cache.keep(10, 0, summary("99"));
    assert_eq!(cache.lookup(10, 700), Some(summary("99")));
    // First insert: the invalidation is delivered at the next command boundary.
    assert!(cache.note_widened(10, 700, 700));
    cache.relcache_callback(10);
    // A plan in the same transaction reads the page and must not leave a copy behind: the second
    // insert sends nothing.
    cache.keep(10, 700, summary("500"));
    assert!(!cache.note_widened(10, 700, 700));
    assert_eq!(cache.lookup(10, 700), None);
    assert_eq!(cache.get(10), None);
    // Other indexes and later transactions are served.
    cache.keep(11, 700, summary("199"));
    assert_eq!(cache.lookup(11, 700), Some(summary("199")));
    cache.keep(10, 701, summary("600"));
    assert_eq!(cache.lookup(10, 701), Some(summary("600")));
}

#[test]
fn a_savepoint_is_not_served_what_its_transaction_inserted_through() {
    let mut cache = SummaryCache::new();
    assert!(cache.note_widened(10, 700, 700));
    cache.relcache_callback(10);
    // A plan inside of a savepoint of the transaction leaves no copy either: after the savepoint
    // the transaction's next insert sends nothing.
    cache.keep(10, 700, summary("500"));
    assert_eq!(cache.lookup(10, 700), None);
    assert!(!cache.note_widened(10, 700, 700));
    assert_eq!(cache.get(10), None);
}

#[test]
fn a_widening_that_was_rolled_back_elsewhere_does_no_harm() {
    let mut writer = SummaryCache::new();
    let mut reader = SummaryCache::new();
    // The page says 99; the reader keeps that.
    reader.keep(10, 0, summary("99"));
    // An insert of 500 widens the page and is rolled back: its invalidation never goes out.
    assert!(writer.note_widened(10, 700, 700));
    // The next insert of 500 finds the page wide enough, and sends all the same.
    assert!(writer.note_widened(10, 701, 701));
    reader.relcache_callback(10);
    assert_eq!(reader.lookup(10, 0), None);
    reader.keep(10, 0, summary("500"));
    assert_eq!(reader.lookup(10, 0), Some(summary("500")));
}

#[test]
fn a_new_plan_sees_the_widened_summary() {
    let mut plan = PlanState::new();
    let mut cache = SummaryCache::new();
    plan.enter();
    plan.note_summary(1, summary("99"));
    cache.keep(10, 0, summary("99"));
    plan.leave();
    assert!(cache.note_widened(10, 700, 700));
    plan.enter();
    // Neither the earlier plan nor the cache gives the old summary: the page is read.
    assert_eq!(plan.summary(1), None);
    assert_eq!(cache.lookup(10, 700), None);
    plan.leave();
    cache.relcache_callback(10);
    assert_eq!(cache.lookup(10, 0), None);
}

#[test]
fn planning_remembers_until_the_outermost_invocation_ends() {
    let mut plan = PlanState::new();
    assert_eq!(plan.depth(), 0);
    plan.enter();
    plan.note_am_oid(5000);
    plan.note_summary(1, summary("99"));
    plan.remember(&proc_of(20), &Answer::Proc(Some(351)));
    plan.remember(&proc_of(21), &Answer::Proc(None));
    plan.remember(&strategy(413, 20), &Answer::Strategy(Some(5)));
    plan.remember(&strategy(20, 413), &Answer::Strategy(None));
    plan.remember(&cross(20, 23), &Answer::CrossProc(Some(2188)));
    plan.remember(&cross(23, 20), &Answer::CrossProc(None));
    plan.note_input_function(20, 460, 0);
    plan.remember(&constant(20, "250"), &Answer::Constant(Some(250)));
    plan.remember(&constant(20, "x"), &Answer::Constant(None));
    plan.remember(&Question::SqlType { typ: 20 }, &Answer::SqlType(Some("bigint".into())));
    // A statement run during planning enters and leaves the planner.
    plan.enter();
    assert_eq!(plan.depth(), 2);
    plan.leave();
    assert_eq!(plan.am_oid(), Some(5000));
    assert_eq!(plan.summary(1), Some(summary("99")));
    assert_eq!(plan.summary(2), None);
    assert_eq!(plan.remembered(&proc_of(20)), Some(Answer::Proc(Some(351))));
    assert_eq!(plan.remembered(&proc_of(21)), Some(Answer::Proc(None)));
    assert_eq!(plan.remembered(&proc_of(22)), None);
    assert_eq!(plan.remembered(&strategy(413, 20)), Some(Answer::Strategy(Some(5))));
    assert_eq!(plan.remembered(&strategy(20, 413)), Some(Answer::Strategy(None)));
    assert_eq!(plan.remembered(&strategy(413, 21)), None);
    assert_eq!(plan.remembered(&cross(20, 23)), Some(Answer::CrossProc(Some(2188))));
    assert_eq!(plan.remembered(&cross(23, 20)), Some(Answer::CrossProc(None)));
    assert_eq!(plan.remembered(&cross(20, 20)), None);
    assert_eq!(plan.input_function(20), Some((460, 0)));
    assert_eq!(plan.input_function(21), None);
    assert_eq!(plan.remembered(&constant(20, "250")), Some(Answer::Constant(Some(250))));
    assert_eq!(plan.remembered(&constant(21, "250")), None);
    assert_eq!(plan.remembered(&constant(20, "x")), None);
    assert_eq!(plan.remembered(&Question::SqlType { typ: 20 }), None);
    // The texts of a summary are parsed anew.
    assert_eq!(plan.remembered(&Question::Parse { typ: 20, text: "250".into() }), None);
    plan.leave();
    assert_eq!(plan.depth(), 0);
    assert_eq!(plan.am_oid(), None);
    assert_eq!(plan.summary(1), None);
    assert_eq!(plan.remembered(&proc_of(20)), None);
    assert_eq!(plan.remembered(&strategy(413, 20)), None);
    assert_eq!(plan.remembered(&cross(20, 23)), None);
    assert_eq!(plan.input_function(20), None);
    assert_eq!(plan.remembered(&constant(20, "250")), None);
}

#[test]
fn a_constant_noted_again_replaces_its_value() {
    let mut plan = PlanState::new();
    plan.remember(&constant(20, "1"), &Answer::Constant(Some(1)));
    plan.remember(&constant(20, "2"), &Answer::Constant(Some(2)));
    plan.remember(&constant(20, "1"), &Answer::Constant(Some(7)));
    assert_eq!(plan.remembered(&constant(20, "1")), Some(Answer::Constant(Some(7))));
    assert_eq!(plan.remembered(&constant(20, "2")), Some(Answer::Constant(Some(2))));
}

#[test]
fn an_outermost_invocation_begins_empty() {
    let mut plan = PlanState::new();
    plan.note_summary(1, summary("99"));
    plan.enter();
    assert_eq!(plan.summary(1), None);
}

#[test]
fn only_tables_are_evaluated() {
    let mut plan = PlanState::new();
    let table = RelationInfo { kind: RelKind::OtherMember, is_table: true, relid: 42 };
    assert_eq!(plan.relation_to_evaluate(true, Some(table)), Some(42));
    let base = RelationInfo { kind: RelKind::Base, ..table };
    assert_eq!(plan.relation_to_evaluate(true, Some(base)), Some(42));
    assert_eq!(plan.relation_to_evaluate(false, Some(table)), None);
    assert_eq!(plan.relation_to_evaluate(true, None), None);
    let join = RelationInfo { kind: RelKind::Other, ..table };
    assert_eq!(plan.relation_to_evaluate(true, Some(join)), None);
    let subquery = RelationInfo { is_table: false, ..table };
    assert_eq!(plan.relation_to_evaluate(true, Some(subquery)), None);
    let nameless = RelationInfo { relid: 0, ..table };
    assert_eq!(plan.relation_to_evaluate(true, Some(nameless)), None);
    plan.set_in_hook(true);
    assert_eq!(plan.relation_to_evaluate(true, Some(table)), None);
    plan.set_in_hook(false);
    assert_eq!(plan.relation_to_evaluate(true, Some(table)), Some(42));
}

#[test]
fn pruning_is_logged_only_when_asked() {
    assert_eq!(
        pruning_notice(true, true, 4294967295),
        Some("table_range: pruning partition relid=4294967295".to_string())
    );
    assert_eq!(
        pruning_notice(true, true, 7),
        Some("table_range: pruning partition relid=7".to_string())
    );
    assert_eq!(pruning_notice(true, false, 7), None);
    assert_eq!(pruning_notice(false, true, 7), None);
}

#[test]
fn the_first_index_of_the_access_method_counts() {
    let indexes = vec![
        IndexInfo { oid: 1, am: 403 },
        IndexInfo { oid: 2, am: 5000 },
        IndexInfo { oid: 3, am: 5000 },
    ];
    assert_eq!(summary_index(5000, &indexes), Some(2));
    assert_eq!(summary_index(6000, &indexes), None);
    assert_eq!(summary_index(0, &vec![IndexInfo { oid: 1, am: 0 }]), None);
    assert_eq!(summary_index(5000, &vec![]), None);
}

#[test]
fn the_index_of_a_partitioned_table_has_no_storage() {
    assert!(has_storage(b'i'));
    assert!(!has_storage(b'I'));
}

#[test]
fn an_index_without_a_summary_has_no_columns() {
    assert!(summary_columns(None).is_empty());
    let cols = summary("99");
    let found = summary_columns(Some(IndexSummary { cols: (*cols).clone() }));
    assert_eq!(found, *cols);
}
