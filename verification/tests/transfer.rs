use stem::transfer::{import_merge_sql, import_success_message, points_to_copy, IMPORT_MERGE_TAIL};

#[test]
fn points_already_in_destination_are_not_copied() {
    let selected = vec![(0, 100), (2, 200), (0, 300), (1, 400)];
    assert_eq!(points_to_copy(&selected, 0), vec![(2, 200), (1, 400)]);
    assert_eq!(points_to_copy(&selected, 5), selected);
    assert!(points_to_copy(&vec![], 0).is_empty());
}

#[test]
fn merge_statement_names_the_import() {
    let sql = import_merge_sql("/tmp/x.db");
    assert!(sql.starts_with("ATTACH '/tmp/x.db' as toMerge;"));
    assert!(sql.ends_with("DETACH toMerge;"));
    assert_eq!(sql, format!("ATTACH '/tmp/x.db{}", IMPORT_MERGE_TAIL));
    assert!(sql.contains("INSERT OR IGNORE INTO location"));
}

#[test]
fn import_report_counts_duplicates() {
    assert_eq!(
        import_success_message(10, 100, 107),
        "Successfully imported 7 records. (3 duplicates ignored.)"
    );
    assert_eq!(import_success_message(0, 5, 5), "Successfully imported 0 records. (0 duplicates ignored.)");
}
