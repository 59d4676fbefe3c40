use table_range::index_am::{index_attnums, is_geometry};
use table_range::index_storage::{ColSummary, IndexSummary};
use table_range::summary_build::{
    build_column, build_one_leaf, column_kind, column_names_for_attnums, quote_ident,
    quote_literal, stats_sql, summarise, BuildAnswer, BuildQuestion, BuildRun, ColumnFacts,
    ColumnKind, ColumnStep, NamesRun, StatsRow, TypeRow,
};
use table_range::text::{contains, count_matches, ends_with, push_decimal, push_signed, same_text};

fn type_row(name: &str, kind: &str) -> Option<TypeRow> {
    Some(TypeRow { typename: Some(name.into()), typtype: Some(kind.into()) })
}

fn stats(total: i64, nonnull: i64, first: Option<&str>, second: Option<&str>) -> Option<StatsRow> {
    Some(StatsRow {
        total: Some(total),
        nonnull: Some(nonnull),
        first: first.map(|s| s.to_string()),
        second: second.map(|s| s.to_string()),
    })
}

#[test]
fn quotes_are_doubled() {
    assert_eq!(quote_literal("it's"), "'it''s'");
    assert_eq!(quote_literal(""), "''");
    assert_eq!(quote_literal("''"), "''''''");
    assert_eq!(quote_ident("we\"ird"), "\"we\"\"ird\"");
    assert_eq!(quote_ident("it's"), "\"it's\"");
}

#[test]
fn numbers_are_written_in_decimal() {
    let mut s = String::new();
    push_decimal(&mut s, 0);
    push_decimal(&mut s, 1234567890);
    push_decimal(&mut s, 4294967295);
    assert_eq!(s, "012345678904294967295");
    let mut s = String::new();
    push_signed(&mut s, -32768);
    push_signed(&mut s, 32767);
    assert_eq!(s, "-3276832767");
}

#[test]
fn texts_are_searched() {
    assert!(contains("Seq Scan on events_r3", "events_r3"));
    assert!(!contains("Seq Scan on events_r3", "events_r1"));
    assert!(contains("x", ""));
    assert!(!contains("", "x"));
    assert!(ends_with("public.geometry", ".geometry"));
    assert!(!ends_with("geometry", ".geometry"));
    assert_eq!(count_matches("big_p1 big_p17", "big_p"), 2);
    assert_eq!(count_matches("aaaa", "aa"), 2);
    assert_eq!(count_matches("abc", ""), 0);
    assert!(same_text("é", "é"));
    assert!(!same_text("é", "e"));
}

#[test]
fn types_are_classified() {
    assert_eq!(column_kind(&type_row("bigint", "b")), (ColumnKind::MinMax, "bigint".to_string()));
    assert_eq!(
        column_kind(&type_row("int8range", "r")),
        (ColumnKind::Range, "int8range".to_string())
    );
    assert_eq!(
        column_kind(&type_row("geometry", "b")),
        (ColumnKind::Geometry, "geometry".to_string())
    );
    assert_eq!(
        column_kind(&type_row("gis.geometry", "b")),
        (ColumnKind::Geometry, "gis.geometry".to_string())
    );
    assert_eq!(column_kind(&None), (ColumnKind::MinMax, String::new()));
    let nameless = Some(TypeRow { typename: None, typtype: Some("r".into()) });
    assert_eq!(column_kind(&nameless), (ColumnKind::MinMax, String::new()));
    let kindless = Some(TypeRow { typename: Some("geometry".into()), typtype: None });
    assert_eq!(column_kind(&kindless).0, ColumnKind::Geometry);
    assert!(is_geometry("geometry"));
    assert!(!is_geometry("mygeometry"));
}

#[test]
fn each_kind_has_its_expressions() {
    let pair = |a: &str, b: &str| (a.to_string(), b.to_string());
    assert_eq!(ColumnKind::MinMax.exprs("\"v\""), pair("min(\"v\")::text", "max(\"v\")::text"));
    assert_eq!(
        ColumnKind::Range.exprs("\"v\""),
        pair("range_merge(range_agg(\"v\"))::text", "NULL::text")
    );
    assert_eq!(
        ColumnKind::Geometry.exprs("\"v\""),
        pair("ST_Extent(\"v\")::geometry::text", "NULL::text")
    );
    assert!(!ColumnKind::MinMax.overlap());
    assert!(ColumnKind::Range.overlap());
    assert!(ColumnKind::Geometry.overlap());
}

#[test]
fn the_scan_counts_and_bounds() {
    assert_eq!(
        stats_sql(ColumnKind::MinMax, "val", "public.events_r1"),
        "SELECT count(*)::bigint, count(\"val\")::bigint, min(\"val\")::text, max(\"val\")::text \
         FROM public.events_r1"
    );
}

#[test]
fn null_flags_follow_from_the_counts() {
    let of = |s: &Option<StatsRow>| summarise(3, ColumnKind::MinMax, "bigint".into(), s);
    let some = of(&stats(50, 25, Some("2"), Some("50")));
    assert!(some.has_nulls && !some.all_nulls);
    assert_eq!((some.min, some.max), (Some("2".to_string()), Some("50".to_string())));
    let none = of(&stats(50, 50, Some("1"), Some("50")));
    assert!(!none.has_nulls && !none.all_nulls);
    let all = of(&stats(50, 0, None, None));
    assert!(all.has_nulls && all.all_nulls);
    let empty = of(&stats(0, 0, None, None));
    assert!(!empty.has_nulls && !empty.all_nulls);
    let missing = of(&None);
    assert!(!missing.has_nulls && !missing.all_nulls && missing.min.is_none());
}

#[test]
fn values_without_a_range_leave_only_the_flags() {
    let of = |kind: ColumnKind, row: &Option<StatsRow>| {
        summarise(3, kind, "pg_catalog.int8".into(), row)
    };
    let flags = |has_nulls: bool| ColSummary {
        attnum: 3,
        overlap: true,
        sql_type: String::new(),
        min: None,
        max: None,
        has_nulls,
        all_nulls: false,
    };
    assert_eq!(of(ColumnKind::MinMax, &stats(5, 5, None, None)), flags(false));
    assert_eq!(of(ColumnKind::MinMax, &stats(6, 5, Some("1"), None)), flags(true));
    assert_eq!(of(ColumnKind::MinMax, &stats(6, 5, None, Some("9"))), flags(true));
    // An extent has one text, and none where every value is empty.
    let extent = of(ColumnKind::Geometry, &stats(5, 5, None, None));
    assert_eq!((extent.overlap, extent.sql_type.as_str()), (true, "pg_catalog.int8"));
}

#[test]
fn a_column_is_looked_up_then_scanned() {
    let mut facts = ColumnFacts::new();
    let ask = |facts: &ColumnFacts| match build_column(77, "t", "v'", facts) {
        ColumnStep::Ask(q) => q,
        _ => panic!("expected a statement"),
    };
    assert_eq!(
        ask(&facts),
        BuildQuestion::Attnum(
            "SELECT attnum FROM pg_attribute WHERE attrelid = 77::oid AND attname = 'v''' AND \
             attnum > 0 AND NOT attisdropped"
                .to_string()
        )
    );
    facts.attnum = Some(Some(2));
    assert_eq!(
        ask(&facts),
        BuildQuestion::Kind(
            "SELECT format('%I.%I', n.nspname, t.typname) AS typename, t.typtype::text FROM \
             pg_attribute a JOIN pg_type t ON t.oid = a.atttypid JOIN pg_namespace n ON n.oid = \
             t.typnamespace WHERE a.attrelid = 77::oid AND a.attname = 'v''' AND NOT \
             a.attisdropped"
                .to_string()
        )
    );
    facts.kind = Some(type_row("int8range", "r"));
    assert_eq!(
        ask(&facts),
        BuildQuestion::Stats(
            "SELECT count(*)::bigint, count(\"v'\")::bigint, \
             range_merge(range_agg(\"v'\"))::text, NULL::text FROM t"
                .to_string()
        )
    );
    facts.stats = Some(stats(10, 10, Some("[0,100)"), None));
    match build_column(77, "t", "v'", &facts) {
        ColumnStep::Built(c) => assert_eq!(
            c,
            ColSummary {
                attnum: 2,
                overlap: true,
                sql_type: "int8range".into(),
                min: Some("[0,100)".into()),
                max: None,
                has_nulls: false,
                all_nulls: false,
            }
        ),
        _ => panic!("expected a summary"),
    }
}

#[test]
fn a_leaf_is_summarised_column_by_column() {
    let columns = vec!["val".to_string(), "gone".to_string(), "geom".to_string()];
    let mut run = BuildRun::new();
    let mut asked: Vec<BuildQuestion> = Vec::new();
    while let Some(q) = build_one_leaf(9, &columns, &mut run) {
        let n = asked.len();
        let answer = match &q {
            BuildQuestion::Name(sql) => {
                assert_eq!(sql, "SELECT 9::oid::regclass::text");
                BuildAnswer::Name(Some("leaf".into()))
            }
            BuildQuestion::Attnum(sql) => BuildAnswer::Attnum(if contains(sql, "'gone'") {
                None
            } else {
                Some(n as i16)
            }),
            BuildQuestion::Kind(sql) => BuildAnswer::Kind(if contains(sql, "'val'") {
                type_row("bigint", "b")
            } else {
                type_row("geometry", "b")
            }),
            BuildQuestion::Stats(sql) => BuildAnswer::Stats(if contains(sql, "\"val\"") {
                stats(3, 2, Some("1"), Some("5"))
            } else {
                stats(3, 3, Some("BOX"), None)
            }),
        };
        asked.push(q);
        run.learn(answer);
    }
    assert_eq!(asked.len(), 8);
    assert_eq!(
        run.summary,
        IndexSummary {
            cols: vec![
                ColSummary {
                    attnum: 1,
                    overlap: false,
                    sql_type: "bigint".into(),
                    min: Some("1".into()),
                    max: Some("5".into()),
                    has_nulls: true,
                    all_nulls: false,
                },
                ColSummary {
                    attnum: 5,
                    overlap: true,
                    sql_type: "geometry".into(),
                    min: Some("BOX".into()),
                    max: None,
                    has_nulls: false,
                    all_nulls: false,
                },
            ],
        }
    );
}

#[test]
fn a_leaf_without_a_name_has_an_empty_summary() {
    let mut run = BuildRun::new();
    assert!(build_one_leaf(9, &vec!["val".to_string()], &mut run).is_some());
    run.learn(BuildAnswer::Name(None));
    assert_eq!(build_one_leaf(9, &vec!["val".to_string()], &mut run), None);
    assert_eq!(run.summary, IndexSummary::default());
}

#[test]
fn column_names_skip_expressions_and_missing_columns() {
    let attnums: Vec<i16> = vec![2, 0, -1, 3, 4];
    let mut run = NamesRun::new();
    let mut asked: Vec<String> = Vec::new();
    while let Some(sql) = column_names_for_attnums(16384, &attnums, &mut run) {
        run.learn(if contains(&sql, "attnum = 3 ") { None } else { Some(format!("c{}", asked.len())) });
        asked.push(sql);
    }
    assert_eq!(
        asked[0],
        "SELECT attname::text FROM pg_attribute WHERE attrelid = 16384::oid AND attnum = 2 AND \
         NOT attisdropped"
    );
    assert_eq!(asked.len(), 3);
    assert_eq!(run.names, vec!["c0".to_string(), "c2".to_string()]);
}

#[test]
fn index_attributes_are_the_first_ones() {
    let numbers: Vec<i16> = vec![3, 1, 7, 0];
    assert_eq!(index_attnums(2, &numbers), vec![3, 1]);
    assert_eq!(index_attnums(0, &numbers), Vec::<i16>::new());
    assert_eq!(index_attnums(-1, &numbers), Vec::<i16>::new());
    assert_eq!(index_attnums(4, &numbers), numbers);
}
