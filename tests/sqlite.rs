use rusqlite::Connection;
use turbosql::migrations::{Ledger, CREATE_LEDGER, INSERT_LEDGER, SELECT_LEDGER};

fn apply(conn: &Connection, target: &[&str]) -> Result<Vec<String>, String> {
    let rows: Vec<String> = conn
        .prepare(SELECT_LEDGER)
        .unwrap()
        .query_map([], |row| row.get(0))
        .unwrap()
        .map(|r| r.unwrap())
        .collect();
    let mut ledger = Ledger::from_rows(rows);
    let target: Vec<String> = target.iter().map(|s| s.to_string()).collect();
    let run = ledger.reconcile(&target).map_err(|_| "refused".to_string())?;
    for m in &run {
        conn.execute(m, []).unwrap();
        conn.execute(INSERT_LEDGER, [m]).unwrap();
    }
    Ok(run)
}

fn columns(conn: &Connection, table: &str) -> Vec<String> {
    conn.prepare(&format!("PRAGMA table_info({})", table))
        .unwrap()
        .query_map([], |row| row.get(1))
        .unwrap()
        .map(|r| r.unwrap())
        .collect()
}

#[test]
fn migrations_shape_the_table() {
    let conn = Connection::open_in_memory().unwrap();
    conn.execute_batch(CREATE_LEDGER).unwrap();
    let first = ["CREATE TABLE t (id INTEGER PRIMARY KEY)", "ALTER TABLE t ADD COLUMN name TEXT"];
    assert_eq!(apply(&conn, &first).unwrap().len(), 2);
    assert_eq!(columns(&conn, "t"), vec!["id", "name"]);

    let second = [first[0], first[1], "ALTER TABLE t ADD COLUMN age INTEGER"];
    assert_eq!(apply(&conn, &second).unwrap(), vec![second[2].to_string()]);
    assert_eq!(columns(&conn, "t"), vec!["id", "name", "age"]);

    let changed = [first[0], "ALTER TABLE t ADD COLUMN title TEXT"];
    assert!(apply(&conn, &changed).is_err());
    assert_eq!(columns(&conn, "t"), vec!["id", "name", "age"]);
}
