use turbosql::render::{
    extract_columns, makesql_ddl, makesql_delete, makesql_insert, makesql_scoped_select,
    makesql_select, makesql_soft_delete, makesql_update, sql_type_for, Column, FieldDecl,
    RenderError, Table,
};

fn field(name: &str, rust_type: &str, skip: bool) -> FieldDecl {
    FieldDecl { name: name.to_string(), rust_type: rust_type.to_string(), skip }
}

fn column(name: &str, sql_type: &str) -> Column {
    Column { name: name.to_string(), rust_type: String::new(), sql_type: sql_type.to_string() }
}

fn person() -> Table {
    Table::new(
        "person".to_string(),
        vec![
            column("id", "BIGINT UNSIGNED NOT NULL AUTO_INCREMENT PRIMARY KEY"),
            column("name", "TEXT"),
            column("age", "INT"),
            column("deleted_at", "TIMESTAMP"),
        ],
    )
    .ok()
    .unwrap()
}

#[test]
fn test_extract_columns() {
    let fields_named = vec![
        field("id", "Option < u64 >", false),
        field("name", "Option < String >", false),
        field("age", "Option < u32 >", false),
        field("awesomeness", "Option < f64 >", false),
        field("skipped", "Option < bool >", true),
    ];

    let columns = extract_columns(&fields_named).ok().unwrap();

    assert_eq!(columns.len(), 4);

    assert_eq!(columns[0].name, "id");
    assert_eq!(columns[0].rust_type, "Option < u64 >");
    assert_eq!(columns[0].sql_type, "BIGINT UNSIGNED NOT NULL AUTO_INCREMENT PRIMARY KEY");

    assert_eq!(columns[1].name, "name");
    assert_eq!(columns[1].rust_type, "Option < String >");
    assert_eq!(columns[1].sql_type, "LONGTEXT CHARACTER SET utf8mb4 COLLATE utf8mb4_unicode_ci");

    assert_eq!(columns[2].name, "age");
    assert_eq!(columns[2].rust_type, "Option < u32 >");
    assert_eq!(columns[2].sql_type, "INT");

    assert_eq!(columns[3].name, "awesomeness");
    assert_eq!(columns[3].rust_type, "Option < f64 >");
    assert_eq!(columns[3].sql_type, "DOUBLE");

    assert!(!columns.iter().any(|c| c.name == "skipped"));
}

#[test]
fn byte_array_field_is_blob() {
    let columns = extract_columns(&vec![
        field("id", "Option < u64 >", false),
        field("digest", "Option < [u8 ; 32] >", false),
    ])
    .ok()
    .unwrap();
    assert_eq!(columns[1].sql_type, "BLOB");
}

#[test]
fn unknown_option_type_is_json_text() {
    assert_eq!(sql_type_for("tags", "Option < Vec < String > >", false), Some("TEXT".to_string()));
    assert_eq!(sql_type_for("data", "Option < Vec < u8 > >", false), Some("BLOB".to_string()));
    assert_eq!(sql_type_for("id", "Option < i64 >", false), Some("BIGINT".to_string()));
    assert_eq!(sql_type_for("when", "Option < DateTime < FixedOffset > >", false), Some("TIMESTAMP".to_string()));
    assert_eq!(sql_type_for("digest", "Option < [u8 ; 4] >", true), Some("BLOB".to_string()));
    assert_eq!(sql_type_for("digest", "Option < [u8 ; 4] >", false), Some("TEXT".to_string()));
}

#[test]
fn type_outside_option_is_refused() {
    assert_eq!(sql_type_for("count", "u32", false), None);
    let r = extract_columns(&vec![
        field("id", "Option < u64 >", false),
        field("count", "u32", false),
        field("other", "i8", false),
    ]);
    match r {
        Err(RenderError::NotOptional { field }) => assert_eq!(field, "count"),
        other => panic!("unexpected {:?}", other),
    }
}

#[test]
fn skipped_field_outside_option_is_ignored() {
    let columns = extract_columns(&vec![
        field("id", "Option < u64 >", false),
        field("count", "u32", true),
    ])
    .ok()
    .unwrap();
    assert_eq!(columns.len(), 1);
}

#[test]
fn missing_primary_key_is_refused() {
    let r = extract_columns(&vec![field("name", "Option < String >", false)]);
    assert!(matches!(r, Err(RenderError::MissingPrimaryKey)));
    let r = extract_columns(&vec![
        field("name", "Option < String >", false),
        field("id", "Option < i64 >", false),
    ]);
    assert!(matches!(r, Err(RenderError::MissingPrimaryKey)));
}

#[test]
fn table_needs_id_first() {
    let r = Table::new("t".to_string(), vec![column("name", "TEXT"), column("id", "INT")]);
    assert!(matches!(r, Err(RenderError::FirstColumnNotId)));
    let r = Table::new("t".to_string(), vec![]);
    assert!(matches!(r, Err(RenderError::FirstColumnNotId)));
}

#[test]
fn select_statements() {
    let t = person();
    assert_eq!(t.table_name(), "person");
    assert_eq!(makesql_select(&t), "SELECT `person`.* FROM `person`");
    assert_eq!(
        makesql_scoped_select(&t),
        "SELECT `person`.* FROM `person` WHERE `person`.deleted_at is null"
    );
}

#[test]
fn insert_statement_skips_id_and_deleted_at() {
    assert_eq!(
        makesql_insert(&person()),
        "INSERT INTO `person` (`name`, `age`) VALUES (?, ?)"
    );
}

#[test]
fn update_statement_skips_id() {
    assert_eq!(
        makesql_update(&person()),
        "UPDATE person SET name=?, age=?, deleted_at=? WHERE id=?"
    );
}

#[test]
fn delete_statements() {
    let t = person();
    assert_eq!(makesql_delete(&t), "DELETE FROM person WHERE id=?");
    assert_eq!(
        makesql_soft_delete(&t),
        "UPDATE person SET deleted_at = now() WHERE deleted_at is null and id=?"
    );
}

#[test]
fn ddl_statement() {
    let t = Table::new(
        "person".to_string(),
        vec![column("id", "BIGINT"), column("name", "TEXT")],
    )
    .ok()
    .unwrap();
    assert_eq!(
        makesql_ddl(&t),
        "CREATE TABLE `person` (\n\t`id` BIGINT,\n\t`name` TEXT,\n\tKEY `idx_person_deleted_at` (`deleted_at`)\n) ENGINE=InnoDB DEFAULT CHARSET=utf8mb4 COLLATE=utf8mb4_unicode_ci;"
    );
}
