use table_range::scenarios::{
    am_bulk_insert_stays_correct_under_stale_memo, am_create_index_builds_and_prunes,
    am_drop_index_cleans_summaries_and_stays_correct, am_index_results_identical_on_off,
    am_insert_then_correct_without_rebuild, am_multicolumn_index_prunes, am_setup, e2e_build,
    e2e_count_where, e2e_delete_keeps_results_correct, e2e_explain_on, e2e_float_pruning,
    e2e_insert_keeps_results_correct_via_staleness, e2e_is_null_pruning,
    e2e_large_tree_prunes_to_single_partition, e2e_multicolumn_and_semantics,
    e2e_postgis_extent_pruning, e2e_range_overlap_pruning,
    e2e_results_identical_with_pruning_on_and_off, e2e_set_pruning, e2e_setup_events,
    e2e_text_pruning, e2e_timestamptz_pruning, e2e_works_on_plain_unpartitioned_table, judge,
    plan_text, postgis_available, postgis_query, storage_page_roundtrip, Observation, Step,
};

fn sql(step: &Step) -> &str {
    match step {
        Step::Run { sql }
        | Step::Plan { sql, .. }
        | Step::PlanCount { sql, .. }
        | Step::Count { sql, .. }
        | Step::AtLeast { sql, .. }
        | Step::SameCount { sql }
        | Step::Text { sql, .. } => sql,
    }
}

#[test]
fn statements_are_exact() {
    assert_eq!(
        e2e_build("events", "val"),
        "CREATE INDEX events_tr ON events USING table_range (val)"
    );
    assert_eq!(
        e2e_explain_on("big", "val = 1750"),
        "EXPLAIN (COSTS OFF) SELECT * FROM big WHERE val = 1750"
    );
    assert_eq!(e2e_set_pruning(true), "SET table_range.enable_pruning = on");
    assert_eq!(e2e_set_pruning(false), "SET table_range.enable_pruning = off");
    assert_eq!(
        e2e_count_where("val = 100"),
        "SELECT count(*)::bigint FROM events WHERE val = 100"
    );
}

#[test]
fn plans_are_joined_line_by_line() {
    assert_eq!(plan_text(&vec![]), "");
    assert_eq!(plan_text(&vec![Some("a".into()), None, Some("b".into())]), "a\nb\n");
}

#[test]
fn the_events_table_is_set_up_and_summarised() {
    let steps = e2e_setup_events();
    assert_eq!(steps.len(), 2);
    assert!(sql(&steps[0]).starts_with("DROP TABLE IF EXISTS events CASCADE;"));
    assert!(sql(&steps[0]).contains("INSERT INTO events SELECT 3, g FROM generate_series(200, 299) g;"));
    assert_eq!(sql(&steps[1]), "CREATE INDEX events_tr ON events USING table_range (val)");
}

#[test]
fn the_large_tree_has_all_its_partitions() {
    let steps = e2e_large_tree_prunes_to_single_partition();
    assert_eq!(steps.len(), 38);
    assert!(sql(&steps[1]).starts_with("CREATE TABLE big_p0 PARTITION OF big FOR VALUES FROM (0) TO (100);"));
    assert!(sql(&steps[32]).starts_with("CREATE TABLE big_p31 PARTITION OF big FOR VALUES FROM (3100) TO (3200);"));
    assert!(sql(&steps[32]).ends_with("INSERT INTO big SELECT g FROM generate_series(3100, 3200 - 1) g;"));
    let plan = &steps[35];
    assert!(judge(plan, &Observation::Plan("Seq Scan on big_p17 big\n".into())));
    assert!(!judge(plan, &Observation::Plan("Seq Scan on big_p17\nSeq Scan on big_p18\n".into())));
    assert!(!judge(plan, &Observation::Plan("Seq Scan on big_p18\n".into())));
}

#[test]
fn postgis_is_skipped_where_it_is_missing() {
    assert_eq!(
        postgis_query(),
        "SELECT count(*)::bigint FROM pg_available_extensions WHERE name = 'postgis'"
    );
    assert!(!postgis_available(None));
    assert!(!postgis_available(Some(0)));
    assert!(postgis_available(Some(1)));
    assert!(e2e_postgis_extent_pruning(false).is_empty());
    let steps = e2e_postgis_extent_pruning(true);
    assert_eq!(steps.len(), 9);
    assert_eq!(sql(&steps[0]), "CREATE EXTENSION IF NOT EXISTS postgis");
}

#[test]
fn every_script_has_its_steps() {
    assert_eq!(e2e_results_identical_with_pruning_on_and_off().len(), 9);
    assert_eq!(e2e_works_on_plain_unpartitioned_table().len(), 5);
    assert_eq!(e2e_insert_keeps_results_correct_via_staleness().len(), 7);
    assert_eq!(e2e_delete_keeps_results_correct().len(), 7);
    assert_eq!(e2e_range_overlap_pruning().len(), 8);
    assert_eq!(e2e_timestamptz_pruning().len(), 5);
    assert_eq!(e2e_text_pruning().len(), 6);
    assert_eq!(e2e_float_pruning().len(), 4);
    assert_eq!(e2e_multicolumn_and_semantics().len(), 8);
    assert_eq!(e2e_is_null_pruning().len(), 7);
    assert_eq!(am_setup().len(), 2);
    assert_eq!(am_create_index_builds_and_prunes().len(), 5);
    assert_eq!(am_index_results_identical_on_off().len(), 8);
    assert_eq!(am_multicolumn_index_prunes().len(), 4);
    assert_eq!(am_insert_then_correct_without_rebuild().len(), 5);
    assert_eq!(am_bulk_insert_stays_correct_under_stale_memo().len(), 7);
    assert_eq!(am_drop_index_cleans_summaries_and_stays_correct().len(), 10);
}

#[test]
fn a_page_roundtrip_is_judged_by_its_text() {
    let steps = storage_page_roundtrip();
    assert_eq!(steps.len(), 2);
    assert!(judge(&steps[1], &Observation::Text("hello-page-42".into())));
    assert!(!judge(&steps[1], &Observation::Text("hello-page-43".into())));
}

#[test]
fn counts_are_judged() {
    let least = Step::AtLeast { sql: String::new(), expected: 3 };
    assert!(judge(&least, &Observation::Count(3)));
    assert!(!judge(&least, &Observation::Count(2)));
    let plan = Step::Plan { sql: String::new(), shown: vec!["a"], hidden: vec!["b"] };
    assert!(judge(&plan, &Observation::Plan("xax".into())));
    assert!(!judge(&plan, &Observation::Plan("xabx".into())));
    assert!(!judge(&plan, &Observation::Plan("x".into())));
}
