use introspection::builder::{start, step, Action, BuildState, Event, StepOutcome};
use introspection::catalog::{
    columns_from_rows, database_name_from_rows, filter_relations, schema_oid_from_rows,
    ColumnRow, RelationRow,
};
use introspection::error::IntrospectionError;
use introspection::model::{Column, Database, Introspection, Relation, Schema};
use introspection::selector::select_schemas;

fn names(v: &Vec<String>) -> Vec<&str> {
    v.iter().map(|s| s.as_str()).collect()
}

#[test]
fn selector_splits_on_commas() {
    let r = select_schemas(&Some("public,app".to_string()));
    assert_eq!(names(&r), vec!["public", "app"]);
}

#[test]
fn selector_keeps_pieces_verbatim() {
    let r = select_schemas(&Some(" a ,,b".to_string()));
    assert_eq!(names(&r), vec![" a ", "", "b"]);
}

#[test]
fn selector_keeps_duplicates() {
    let r = select_schemas(&Some("app,app".to_string()));
    assert_eq!(names(&r), vec!["app", "app"]);
}

#[test]
fn selector_empty_comment_is_one_empty_name() {
    let r = select_schemas(&Some(String::new()));
    assert_eq!(names(&r), vec![""]);
}

#[test]
fn selector_defaults_to_public() {
    let r = select_schemas(&None);
    assert_eq!(names(&r), vec!["public"]);
}

fn column_row(num: i32, name: &str, type_id: i32) -> ColumnRow {
    ColumnRow { num, name: name.to_string(), type_id }
}

#[test]
fn columns_are_sorted_and_system_attributes_dropped() {
    let rows = vec![
        column_row(3, "c", 23),
        column_row(-2, "xmin", 28),
        column_row(1, "a", 25),
        column_row(0, "ctid", 27),
        column_row(2, "b", 16),
    ];
    let cols = columns_from_rows(&rows);
    let got: Vec<(&str, i32)> = cols.iter().map(|c| (c.name.as_str(), c.type_id)).collect();
    assert_eq!(got, vec![("a", 25), ("b", 16), ("c", 23)]);
}

#[test]
fn columns_sort_is_stable_for_equal_numbers() {
    let rows = vec![column_row(1, "first", 10), column_row(1, "second", 11)];
    let cols = columns_from_rows(&rows);
    let got: Vec<&str> = cols.iter().map(|c| c.name.as_str()).collect();
    assert_eq!(got, vec!["first", "second"]);
}

fn relation_row(oid: i32, name: &str, kind: char) -> RelationRow {
    RelationRow { oid, name: name.to_string(), kind }
}

#[test]
fn relation_kinds_other_than_table_and_view_are_dropped() {
    let rows = vec![
        relation_row(1, "t", 'r'),
        relation_row(2, "seq", 'S'),
        relation_row(3, "v", 'v'),
        relation_row(4, "idx", 'i'),
        relation_row(5, "mat", 'm'),
    ];
    let kept = filter_relations(&rows);
    let got: Vec<(&str, char)> = kept.iter().map(|r| (r.name.as_str(), r.kind)).collect();
    assert_eq!(got, vec![("t", 'r'), ("v", 'v')]);
}

#[test]
fn database_name_needs_exactly_one_row() {
    assert_eq!(
        database_name_from_rows(vec![]),
        Err(IntrospectionError::CardinalityError)
    );
    assert_eq!(
        database_name_from_rows(vec!["a".to_string(), "b".to_string()]),
        Err(IntrospectionError::CardinalityError)
    );
    assert_eq!(database_name_from_rows(vec!["db".to_string()]), Ok("db".to_string()));
}

#[test]
fn schema_oid_resolution_cardinality() {
    assert_eq!(
        schema_oid_from_rows(&vec![]),
        Err(IntrospectionError::NotFoundError)
    );
    assert_eq!(
        schema_oid_from_rows(&vec![5, 6]),
        Err(IntrospectionError::CardinalityError)
    );
    assert_eq!(schema_oid_from_rows(&vec![7]), Ok(7));
}

fn proceed(outcome: StepOutcome) -> (BuildState, Action) {
    match outcome {
        StepOutcome::Proceed { state, action } => (state, action),
        StepOutcome::Complete { .. } => panic!("build completed early"),
        StepOutcome::Failed { error } => panic!("build failed early: {:?}", error),
    }
}

#[test]
fn full_build_keeps_selector_order_over_catalog_order() {
    // `app`'s catalog data carries smaller object ids than `public`'s,
    // as if it were physically stored first; the selector still puts
    // `public` first.
    let (state, action) = start();
    assert!(matches!(action, Action::FetchDatabaseName));

    let out = step(state, Event::DatabaseNameRows(vec!["db".to_string()]));
    let (state, action) = proceed(out);
    match &action {
        Action::FetchComment { database } => assert_eq!(database, "db"),
        other => panic!("unexpected action {:?}", other),
    }

    let out = step(state, Event::CommentRow(Some("public,app".to_string())));
    let (state, action) = proceed(out);
    match &action {
        Action::FetchSchemaOid { schema } => assert_eq!(schema, "public"),
        other => panic!("unexpected action {:?}", other),
    }

    let out = step(state, Event::SchemaOidRows(vec![2200]));
    let (state, action) = proceed(out);
    assert!(matches!(action, Action::FetchRelations { schema_oid: 2200 }));

    let out = step(
        state,
        Event::RelationRows(vec![
            relation_row(900, "users", 'r'),
            relation_row(901, "users_id_seq", 'S'),
        ]),
    );
    let (state, action) = proceed(out);
    assert!(matches!(action, Action::FetchColumns { relation_oid: 900 }));

    let out = step(
        state,
        Event::ColumnRows(vec![
            column_row(2, "name", 25),
            column_row(1, "id", 23),
            column_row(-1, "tableoid", 26),
        ]),
    );
    let (state, action) = proceed(out);
    match &action {
        Action::FetchSchemaOid { schema } => assert_eq!(schema, "app"),
        other => panic!("unexpected action {:?}", other),
    }

    let out = step(state, Event::SchemaOidRows(vec![16384]));
    let (state, action) = proceed(out);
    assert!(matches!(action, Action::FetchRelations { schema_oid: 16384 }));

    let out = step(state, Event::RelationRows(vec![relation_row(100, "events", 'v')]));
    let (state, action) = proceed(out);
    assert!(matches!(action, Action::FetchColumns { relation_oid: 100 }));

    let out = step(state, Event::ColumnRows(vec![]));
    let result = match out {
        StepOutcome::Complete { result } => result,
        other => panic!("expected completion, got {:?}", other),
    };

    let schemas = &result.database.schemas;
    let schema_names: Vec<&str> = schemas.iter().map(|s| s.name.as_str()).collect();
    assert_eq!(schema_names, vec!["public", "app"]);

    assert_eq!(schemas[0].relations.len(), 1);
    assert_eq!(schemas[0].relations[0].name, "users");
    let cols: Vec<(&str, i32)> = schemas[0].relations[0]
        .columns
        .iter()
        .map(|c| (c.name.as_str(), c.type_id))
        .collect();
    assert_eq!(cols, vec![("id", 23), ("name", 25)]);

    assert_eq!(schemas[1].relations.len(), 1);
    assert_eq!(schemas[1].relations[0].name, "events");
    assert!(schemas[1].relations[0].columns.is_empty());

    let flat_rels = result.relations();
    let flat: Vec<&str> = flat_rels.iter().map(|r| r.name.as_str()).collect();
    assert_eq!(flat, vec!["users", "events"]);
}

#[test]
fn unresolved_schema_fails_with_not_found() {
    // `public` resolves and is fully walked; `app` then fails to
    // resolve, and the whole build reports NotFoundError.
    let (state, _) = start();
    let out = step(state, Event::DatabaseNameRows(vec!["db".to_string()]));
    let (state, _) = proceed(out);
    let out = step(state, Event::CommentRow(Some("public,app".to_string())));
    let (state, _) = proceed(out);
    let out = step(state, Event::SchemaOidRows(vec![2200]));
    let (state, _) = proceed(out);
    let out = step(state, Event::RelationRows(vec![relation_row(1, "t", 'r')]));
    let (state, _) = proceed(out);
    let out = step(state, Event::ColumnRows(vec![column_row(1, "id", 23)]));
    let (state, _) = proceed(out);

    let out = step(state, Event::SchemaOidRows(vec![]));
    match out {
        StepOutcome::Failed { error } => assert_eq!(error, IntrospectionError::NotFoundError),
        other => panic!("expected failure, got {:?}", other),
    }
}

#[test]
fn ambiguous_database_name_is_a_cardinality_error() {
    let (state, _) = start();
    let out = step(
        state,
        Event::DatabaseNameRows(vec!["db".to_string(), "other".to_string()]),
    );
    match out {
        StepOutcome::Failed { error } => assert_eq!(error, IntrospectionError::CardinalityError),
        other => panic!("expected failure, got {:?}", other),
    }
}

#[test]
fn ambiguous_schema_oid_is_a_cardinality_error() {
    let (state, _) = start();
    let out = step(state, Event::DatabaseNameRows(vec!["db".to_string()]));
    let (state, _) = proceed(out);
    let out = step(state, Event::CommentRow(None));
    let (state, _) = proceed(out);
    let out = step(state, Event::SchemaOidRows(vec![1, 2]));
    match out {
        StepOutcome::Failed { error } => assert_eq!(error, IntrospectionError::CardinalityError),
        other => panic!("expected failure, got {:?}", other),
    }
}

#[test]
fn query_failure_is_fatal_at_any_point() {
    let (state, _) = start();
    let out = step(state, Event::QueryFailed);
    match out {
        StepOutcome::Failed { error } => assert_eq!(error, IntrospectionError::CatalogQueryError),
        other => panic!("expected failure, got {:?}", other),
    }
}

#[test]
fn answer_to_a_different_question_fails_the_build() {
    // An event that does not answer the pending action counts as a
    // failed round-trip.
    let (state, _) = start();
    let out = step(state, Event::ColumnRows(vec![column_row(1, "id", 23)]));
    match out {
        StepOutcome::Failed { error } => assert_eq!(error, IntrospectionError::CatalogQueryError),
        other => panic!("expected failure, got {:?}", other),
    }
}

#[test]
fn schema_with_no_kept_relations_is_empty_and_build_completes() {
    let (state, _) = start();
    let out = step(state, Event::DatabaseNameRows(vec!["db".to_string()]));
    let (state, _) = proceed(out);
    let out = step(state, Event::CommentRow(None));
    let (state, _) = proceed(out);
    let out = step(state, Event::SchemaOidRows(vec![2200]));
    let (state, _) = proceed(out);
    // Only a sequence and an index: nothing survives the kind filter.
    let out = step(
        state,
        Event::RelationRows(vec![relation_row(1, "s", 'S'), relation_row(2, "i", 'i')]),
    );
    let result = match out {
        StepOutcome::Complete { result } => result,
        other => panic!("expected completion, got {:?}", other),
    };
    assert_eq!(result.database.schemas.len(), 1);
    assert_eq!(result.database.schemas[0].name, "public");
    assert!(result.database.schemas[0].relations.is_empty());
    assert!(result.relations().is_empty());
}

fn named_relation(name: &str) -> Relation {
    Relation { name: name.to_string(), columns: vec![Column { name: "id".to_string(), type_id: 23 }] }
}

#[test]
fn flatten_relations_concatenates_in_schema_order() {
    let s1 = Schema {
        name: "s1".to_string(),
        relations: vec![named_relation("A"), named_relation("B")],
    };
    let s2 = Schema { name: "s2".to_string(), relations: vec![named_relation("C")] };
    let database = Database::new("db".to_string(), vec![s1, s2]);
    let db_rels = database.relations();
    let flat: Vec<&str> = db_rels.iter().map(|r| r.name.as_str()).collect();
    assert_eq!(flat, vec!["A", "B", "C"]);

    let introspection = Introspection { database };
    let intro_rels = introspection.relations();
    let flat2: Vec<&str> = intro_rels.iter().map(|r| r.name.as_str()).collect();
    assert_eq!(flat2, vec!["A", "B", "C"]);
}
