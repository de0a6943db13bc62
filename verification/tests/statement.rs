use load_painter::statement::{provision_plan, Binding, Statement};

#[test]
fn namespace_statements_have_their_fixed_text() {
    assert_eq!(Statement::DropNamespace.sql(), "DROP DATABASE IF EXISTS test");
    assert_eq!(Statement::CreateNamespace.sql(), "CREATE DATABASE test");
    assert_eq!(Statement::SelectNamespace.sql(), "USE test");
}

#[test]
fn table_statements_name_their_table() {
    assert_eq!(
        Statement::CreateTable { table: 0 }.sql(),
        "CREATE TABLE draw0 (id int not null, val int not null)"
    );
    assert_eq!(
        Statement::InsertRows { table: 7, rows: 1 }.sql(),
        "INSERT INTO draw7 (id, val) VALUES (:id, :val)"
    );
    assert_eq!(
        Statement::IncrementRows { table: 128, rows: 1 }.sql(),
        "UPDATE draw128 SET val = val + 1 WHERE id = :id"
    );
}

#[test]
fn table_numbers_are_written_in_decimal() {
    let name = |table: usize| {
        let text = Statement::IncrementRows { table, rows: 1 }.sql();
        text.strip_prefix("UPDATE ").unwrap().strip_suffix(" SET val = val + 1 WHERE id = :id")
            .unwrap().to_string()
    };
    assert_eq!(name(0), "draw0");
    assert_eq!(name(9), "draw9");
    assert_eq!(name(10), "draw10");
    assert_eq!(name(99), "draw99");
    assert_eq!(name(100), "draw100");
    assert_eq!(name(255), "draw255");
    assert_eq!(name(1_000_000), "draw1000000");
    assert_eq!(name(4_294_967_294), "draw4294967294");
    assert_eq!(name(usize::MAX), format!("draw{}", usize::MAX));
    for table in 0..2000usize {
        assert_eq!(name(table), format!("draw{}", table));
    }
}

#[test]
fn text_does_not_depend_on_the_number_of_rows() {
    assert_eq!(
        Statement::InsertRows { table: 3, rows: 0 }.sql(),
        Statement::InsertRows { table: 3, rows: 9 }.sql()
    );
    assert_eq!(
        Statement::IncrementRows { table: 3, rows: 0 }.sql(),
        Statement::IncrementRows { table: 3, rows: 9 }.sql()
    );
}

#[test]
fn statements_that_are_no_batch_bind_nothing() {
    assert!(Statement::DropNamespace.bindings().is_empty());
    assert!(Statement::CreateNamespace.bindings().is_empty());
    assert!(Statement::SelectNamespace.bindings().is_empty());
    assert!(Statement::CreateTable { table: 4 }.bindings().is_empty());
}

#[test]
fn insertion_binds_id_and_val_to_the_row_number() {
    assert_eq!(
        Statement::InsertRows { table: 0, rows: 3 }.bindings(),
        vec![
            Binding { id: 0, val: Some(0) },
            Binding { id: 1, val: Some(1) },
            Binding { id: 2, val: Some(2) },
        ]
    );
    assert_eq!(
        Statement::InsertRows { table: 5, rows: 1 }.bindings(),
        vec![Binding { id: 0, val: Some(0) }]
    );
    assert!(Statement::InsertRows { table: 5, rows: 0 }.bindings().is_empty());
}

#[test]
fn increment_binds_only_the_id() {
    assert_eq!(
        Statement::IncrementRows { table: 0, rows: 2 }.bindings(),
        vec![Binding { id: 0, val: None }, Binding { id: 1, val: None }]
    );
    assert_eq!(
        Statement::IncrementRows { table: 9, rows: 1 }.bindings(),
        vec![Binding { id: 0, val: None }]
    );
    assert!(Statement::IncrementRows { table: 9, rows: 0 }.bindings().is_empty());
}

#[test]
fn provisioning_resets_the_namespace_then_makes_each_table() {
    assert_eq!(
        provision_plan(2, 1),
        vec![
            Statement::DropNamespace,
            Statement::CreateNamespace,
            Statement::SelectNamespace,
            Statement::CreateTable { table: 0 },
            Statement::InsertRows { table: 0, rows: 1 },
            Statement::CreateTable { table: 1 },
            Statement::InsertRows { table: 1, rows: 1 },
        ]
    );
}

#[test]
fn provisioning_no_table_still_resets_the_namespace() {
    assert_eq!(
        provision_plan(0, 5),
        vec![Statement::DropNamespace, Statement::CreateNamespace, Statement::SelectNamespace]
    );
}

#[test]
fn provisioning_has_two_statements_for_each_table() {
    let plan = provision_plan(300, 4);
    assert_eq!(plan.len(), 3 + 2 * 300);
    for table in 0..300usize {
        assert_eq!(plan[3 + 2 * table], Statement::CreateTable { table });
        assert_eq!(plan[4 + 2 * table], Statement::InsertRows { table, rows: 4 });
    }
}

#[test]
fn only_insertions_and_increments_are_batches() {
    assert!(!Statement::DropNamespace.is_batch());
    assert!(!Statement::CreateNamespace.is_batch());
    assert!(!Statement::SelectNamespace.is_batch());
    assert!(!Statement::CreateTable { table: 1 }.is_batch());
    assert!(Statement::InsertRows { table: 1, rows: 1 }.is_batch());
    assert!(Statement::IncrementRows { table: 1, rows: 1 }.is_batch());
    assert!(Statement::InsertRows { table: 1, rows: 0 }.is_batch());
    assert!(Statement::IncrementRows { table: 1, rows: 0 }.is_batch());
}
