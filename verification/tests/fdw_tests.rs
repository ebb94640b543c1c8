//! The foreign-table row protocol: scans, key-column injection, and the
//! mutation path.

use pg_extend::pg_datum::PgDatum;
use pg_extend::pg_error::{Level, LogSink};
use pg_extend::pg_fdw::{
    inject_key_columns, name_to_string, ForeignData, ForeignWrapper, MemRow, MemTable,
    OptionMap, Query, TargetEntry, Tuple, TupleSlot,
};

fn row(names_and_values: &[(&str, u64)]) -> MemRow {
    let mut fields = Tuple::new();
    for (name, value) in names_and_values {
        fields.insert(String::from(*name), PgDatum(Some(*value)));
    }
    MemRow { fields }
}

fn three_row_table() -> ForeignWrapper<MemTable> {
    let rows = vec![
        row(&[("key", 1), ("value", 10)]),
        row(&[("key", 2), ("value", 20)]),
        row(&[("key", 3), ("value", 30)]),
    ];
    ForeignWrapper { state: MemTable { rows } }
}

fn attrs(names: &[&str]) -> Vec<String> {
    names.iter().map(|n| String::from(*n)).collect()
}

#[test]
fn test_tuple_lookup_is_name_keyed() {
    let mut t = Tuple::new();
    t.insert(String::from("b"), PgDatum(Some(2)));
    t.insert(String::from("a"), PgDatum(Some(1)));
    assert_eq!(t.get("a"), Some(PgDatum(Some(1))));
    assert_eq!(t.get("b"), Some(PgDatum(Some(2))));
    assert_eq!(t.get("c"), None);
    // Reinserting a name overrides the earlier entry.
    t.insert(String::from("a"), PgDatum(Some(9)));
    assert_eq!(t.get("a"), Some(PgDatum(Some(9))));
}

#[test]
fn test_scan_yields_each_row_then_clears() {
    let mut w = three_row_table();
    let cols = attrs(&["key", "value"]);
    let mut sink = LogSink::new();
    for expected_key in [1u64, 2, 3] {
        match w.iterate_foreign_scan(&cols, &mut sink) {
            TupleSlot::Stored(vals) => {
                assert_eq!(vals.len(), 2);
                assert_eq!(vals[0], PgDatum(Some(expected_key)));
                assert_eq!(vals[1], PgDatum(Some(expected_key * 10)));
            }
            TupleSlot::Cleared => panic!("cleared too early"),
        }
    }
    assert!(matches!(w.iterate_foreign_scan(&cols, &mut sink), TupleSlot::Cleared));
    assert!(sink.records.is_empty());
}

#[test]
fn test_two_scans_after_reconstruction_are_identical() {
    let cols = attrs(&["key", "value"]);
    let mut sink = LogSink::new();

    let mut first = three_row_table();
    let slots1 = first.run_scan(&cols, &mut sink);

    let mut second = three_row_table();
    let slots2 = second.run_scan(&cols, &mut sink);

    // Exactly N populated slots and one cleared slot, identically.
    assert_eq!(slots1.len(), 4);
    assert_eq!(slots2.len(), 4);
    for (a, b) in slots1.iter().zip(slots2.iter()) {
        match (a, b) {
            (TupleSlot::Stored(x), TupleSlot::Stored(y)) => assert_eq!(x, y),
            (TupleSlot::Cleared, TupleSlot::Cleared) => {}
            _ => panic!("the two scans disagree"),
        }
    }
    assert!(matches!(slots1[3], TupleSlot::Cleared));
}

#[test]
fn test_missing_column_is_logged_and_left_null() {
    let mut w = three_row_table();
    let cols = attrs(&["key", "missing"]);
    let mut sink = LogSink::new();
    match w.iterate_foreign_scan(&cols, &mut sink) {
        TupleSlot::Stored(vals) => {
            assert_eq!(vals[0], PgDatum(Some(1)));
            assert_eq!(vals[1], PgDatum(None));
        }
        TupleSlot::Cleared => panic!("expected a row"),
    }
    assert_eq!(sink.records.len(), 1);
    assert_eq!(sink.records[0].level, Level::Warning);
}

#[test]
fn test_rescan_does_not_reset_position() {
    let mut w = three_row_table();
    let cols = attrs(&["key"]);
    let mut sink = LogSink::new();
    let _ = w.iterate_foreign_scan(&cols, &mut sink);
    w.rescan_foreign_scan();
    match w.iterate_foreign_scan(&cols, &mut sink) {
        TupleSlot::Stored(vals) => assert_eq!(vals[0], PgDatum(Some(2))),
        TupleSlot::Cleared => panic!("expected a row"),
    }
}

#[test]
fn test_key_column_injection() {
    // Declared index columns {"key"}; an UPDATE statement naming only
    // "value" in its SET list.
    let mut parsetree = Query {
        result_relation: 1,
        target_list: vec![TargetEntry {
            name: String::from("value"),
            resno: 1,
            col_idx: 2,
            junk: false,
        }],
    };
    let table_cols = attrs(&["key", "value"]);
    let keys = Some(vec![String::from("key")]);
    let mut sink = LogSink::new();
    let r = inject_key_columns(&mut parsetree, &table_cols, &keys, &mut sink);
    assert!(r.is_ok());
    assert_eq!(parsetree.target_list.len(), 2);
    let injected = &parsetree.target_list[1];
    assert_eq!(injected.name, "key");
    assert!(injected.junk);
    assert_eq!(injected.col_idx, 1);
    assert_eq!(injected.resno, 2);
}

#[test]
fn test_injection_skips_keys_already_projected() {
    let mut parsetree = Query {
        result_relation: 1,
        target_list: vec![TargetEntry {
            name: String::from("key"),
            resno: 1,
            col_idx: 1,
            junk: false,
        }],
    };
    let table_cols = attrs(&["key", "value"]);
    let keys = Some(vec![String::from("key")]);
    let mut sink = LogSink::new();
    let r = inject_key_columns(&mut parsetree, &table_cols, &keys, &mut sink);
    assert!(r.is_ok());
    assert_eq!(parsetree.target_list.len(), 1);
}

#[test]
fn test_injection_of_unknown_key_aborts() {
    let mut parsetree = Query { result_relation: 1, target_list: vec![] };
    let table_cols = attrs(&["value"]);
    let keys = Some(vec![String::from("key")]);
    let mut sink = LogSink::new();
    let r = inject_key_columns(&mut parsetree, &table_cols, &keys, &mut sink);
    assert!(r.is_err());
    assert_eq!(sink.records.last().unwrap().level, Level::Error);
}

#[test]
fn test_update_tuple_always_contains_key() {
    // The pipeline: inject the declared key column, let the host populate
    // the plan slot per target entry, assemble the tuple, and update.
    let mut parsetree = Query {
        result_relation: 1,
        target_list: vec![TargetEntry {
            name: String::from("value"),
            resno: 1,
            col_idx: 2,
            junk: false,
        }],
    };
    let table_cols = attrs(&["key", "value"]);
    let keys = Some(vec![String::from("key")]);
    let mut sink = LogSink::new();
    inject_key_columns(&mut parsetree, &table_cols, &keys, &mut sink).unwrap();

    // One plan-slot column per target entry, in target-list order.
    let plan_cols: Vec<String> =
        parsetree.target_list.iter().map(|e| e.name.clone()).collect();
    let values = vec![99u64, 1u64];
    let isnull = vec![false, false];
    let indices =
        ForeignWrapper::<MemTable>::tts_to_hashmap(&plan_cols, &values, &isnull, 2);
    assert_eq!(indices.get("key"), Some(PgDatum(Some(1))));

    let w = three_row_table();
    let mut new_row = Tuple::new();
    new_row.insert(String::from("value"), PgDatum(Some(99)));
    let updated = w.exec_foreign_update(&new_row, &indices, &mut sink).unwrap();
    assert!(updated.is_some());
}

#[test]
fn test_insert_and_delete_paths() {
    let w = three_row_table();
    let mut sink = LogSink::new();
    let mut new_row = Tuple::new();
    new_row.insert(String::from("key"), PgDatum(Some(4)));
    let inserted = w.exec_foreign_insert(&new_row, &mut sink).unwrap();
    assert!(inserted.is_some());

    let mut indices = Tuple::new();
    indices.insert(String::from("key"), PgDatum(Some(4)));
    let deleted = w.exec_foreign_delete(&indices, &mut sink).unwrap();
    assert!(deleted.is_some());
    assert!(sink.records.is_empty());
}

#[test]
fn test_index_columns_declared() {
    let cols = MemTable::index_columns(OptionMap::new(), OptionMap::new(), String::from("t"));
    assert_eq!(cols, Some(vec![String::from("key")]));
}

#[test]
fn test_begin_yields_fresh_empty_session() {
    let w = ForeignWrapper::<MemTable>::begin_foreign_scan(
        OptionMap::new(),
        OptionMap::new(),
        String::from("mytable"),
    );
    assert!(w.state.rows.is_empty());
}

#[test]
fn test_planning_estimates() {
    let rows = ForeignWrapper::<MemTable>::get_foreign_rel_size();
    assert_eq!(rows, 0);
    let costs = ForeignWrapper::<MemTable>::get_foreign_paths(rows);
    assert_eq!((costs.rows, costs.startup_cost, costs.total_cost), (0, 10, 0));
}

#[test]
fn test_routine_table_slots() {
    let r = ForeignWrapper::<MemTable>::into_datum();
    assert!(r.get_foreign_rel_size && r.get_foreign_paths && r.get_foreign_plan);
    assert!(r.begin_foreign_scan && r.iterate_foreign_scan && r.rescan_foreign_scan);
    assert!(r.end_foreign_scan && r.add_foreign_update_targets && r.begin_foreign_modify);
    assert!(r.exec_foreign_insert && r.exec_foreign_update && r.exec_foreign_delete);
    assert!(r.import_foreign_schema);
    assert!(!r.plan_foreign_modify && !r.end_foreign_modify && !r.analyze_foreign_table);
}

#[test]
fn test_name_to_string_stops_at_nul() {
    let mut sink = LogSink::new();
    let mut attname = b"mycolumn".to_vec();
    attname.extend_from_slice(&[0u8; 56]);
    let name = name_to_string(&mut sink, &attname).unwrap();
    assert_eq!(name, "mycolumn");
    assert!(sink.records.is_empty());

    let bad = vec![0xFFu8, 0xFE, 0x00];
    let r = name_to_string(&mut sink, &bad);
    assert!(r.is_err());
    assert_eq!(sink.records.last().unwrap().level, Level::Error);
}

#[test]
fn test_schema_import_default_is_none() {
    let r = ForeignWrapper::<MemTable>::import_foreign_schema(
        OptionMap::new(),
        String::from("server"),
        String::from("remote"),
        String::from("local"),
    );
    assert!(r.is_none());
}
