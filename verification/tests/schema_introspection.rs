use riversd::schema_introspection::{
    check_fields_against_columns, format_introspection_errors, levenshtein, SchemaMismatch,
};

#[test]
fn all_fields_match() {
    let fields = vec!["id".into(), "name".into(), "qty".into()];
    let columns = vec!["id".into(), "name".into(), "qty".into()];
    let mismatches = check_fields_against_columns("dv", &fields, &columns);
    assert!(mismatches.is_empty());
}

#[test]
fn one_field_missing_with_suggestion() {
    let fields = vec!["id".into(), "namee".into()];
    let columns = vec!["id".into(), "name".into()];
    let mismatches = check_fields_against_columns("dv", &fields, &columns);
    assert_eq!(mismatches.len(), 1);
    assert_eq!(mismatches[0].field_name, "namee");
    assert_eq!(mismatches[0].suggestion, Some("name".to_string()));
}

#[test]
fn no_suggestion_for_distant_field() {
    let fields = vec!["zzzzz".into()];
    let columns = vec!["id".into(), "name".into()];
    let mismatches = check_fields_against_columns("dv", &fields, &columns);
    assert_eq!(mismatches.len(), 1);
    assert!(mismatches[0].suggestion.is_none());
}

#[test]
fn multiple_mismatches_collected() {
    let fields = vec!["idd".into(), "namee".into(), "qtyz".into()];
    let columns = vec!["id".into(), "name".into(), "qty".into()];
    let mismatches = check_fields_against_columns("dv", &fields, &columns);
    assert_eq!(mismatches.len(), 3);
}

#[test]
fn error_format_single() {
    let mismatches = vec![SchemaMismatch {
        dataview_name: "orders".into(),
        field_name: "qtyz".into(),
        available_columns: vec!["id".into(), "qty".into()],
        suggestion: Some("qty".into()),
    }];
    let msg = format_introspection_errors(&mismatches);
    assert!(msg.contains("orders"));
    assert!(msg.contains("qtyz"));
    assert!(msg.contains("qty"));
}

#[test]
fn error_format_multiple() {
    let mismatches = vec![
        SchemaMismatch {
            dataview_name: "orders".into(),
            field_name: "qtyz".into(),
            available_columns: vec!["qty".into()],
            suggestion: Some("qty".into()),
        },
        SchemaMismatch {
            dataview_name: "orders".into(),
            field_name: "idd".into(),
            available_columns: vec!["id".into()],
            suggestion: Some("id".into()),
        },
    ];
    let msg = format_introspection_errors(&mismatches);
    assert!(msg.contains("2 mismatches"));
}

#[test]
fn levenshtein_known_distances() {
    assert_eq!(levenshtein("kitten", "sitting"), 3);
    assert_eq!(levenshtein("", "abc"), 3);
    assert_eq!(levenshtein("same", "same"), 0);
    assert_eq!(levenshtein("flaw", "lawn"), 2);
}

#[test]
fn mismatch_text_exact() {
    let m = SchemaMismatch {
        dataview_name: "orders".into(),
        field_name: "qtyz".into(),
        available_columns: vec!["id".into(), "qty".into()],
        suggestion: Some("qty".into()),
    };
    assert_eq!(
        m.to_text(),
        "DataView 'orders' field 'qtyz' not found — available: id, qty — did you mean 'qty'?"
    );
}
