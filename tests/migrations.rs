use turbosql::migrations::{filter_comments, is_comment, plan_migrations, Ledger, MigrationError};

fn strings(v: &[&str]) -> Vec<String> {
    v.iter().map(|s| s.to_string()).collect()
}

const CREATE_T: &str = "CREATE TABLE t (id INTEGER PRIMARY KEY)";
const ADD_NAME: &str = "ALTER TABLE t ADD COLUMN name TEXT";
const ADD_AGE: &str = "ALTER TABLE t ADD COLUMN age INTEGER";

#[test]
fn empty_ledger_applies_every_statement() {
    let target = strings(&[CREATE_T, ADD_NAME]);
    let mut ledger = Ledger::new();
    let run = ledger.reconcile(&target).ok().unwrap();
    assert_eq!(run, target);
    assert_eq!(ledger.rows(), &target);
    assert_eq!(ledger.applied(), target);
}

#[test]
fn appended_statement_alone_is_applied() {
    let mut ledger = Ledger::from_rows(strings(&[CREATE_T, ADD_NAME]));
    let target = strings(&[CREATE_T, ADD_NAME, ADD_AGE]);
    let run = ledger.reconcile(&target).ok().unwrap();
    assert_eq!(run, strings(&[ADD_AGE]));
    assert_eq!(ledger.rows(), &target);
}

#[test]
fn changed_statement_is_divergence() {
    let mut ledger = Ledger::from_rows(strings(&[CREATE_T, ADD_NAME]));
    let target = strings(&[CREATE_T, "ALTER TABLE t ADD COLUMN title TEXT"]);
    match ledger.reconcile(&target) {
        Err(MigrationError::Divergence { index, applied, declared }) => {
            assert_eq!(index, 1);
            assert_eq!(applied, ADD_NAME);
            assert_eq!(declared, "ALTER TABLE t ADD COLUMN title TEXT");
        }
        _ => panic!("expected a divergence"),
    }
    assert_eq!(ledger.rows(), &strings(&[CREATE_T, ADD_NAME]));
}

#[test]
fn prefix_ledger_reaches_target() {
    let target = strings(&["A", "B", "C", "D"]);
    for n in 0..=target.len() {
        let mut ledger = Ledger::from_rows(target[..n].to_vec());
        let run = ledger.reconcile(&target).ok().unwrap();
        assert_eq!(run, target[n..].to_vec());
        assert_eq!(ledger.applied(), target);
    }
}

#[test]
fn second_reconcile_runs_nothing() {
    let target = strings(&[CREATE_T, ADD_NAME]);
    let mut ledger = Ledger::new();
    ledger.reconcile(&target).ok().unwrap();
    let run = ledger.reconcile(&target).ok().unwrap();
    assert!(run.is_empty());
    assert_eq!(ledger.rows(), &target);
}

#[test]
fn ledger_ahead_of_target_is_refused() {
    let mut ledger = Ledger::from_rows(strings(&[CREATE_T, ADD_NAME, ADD_AGE]));
    let r = ledger.reconcile(&strings(&[CREATE_T, ADD_NAME]));
    assert!(matches!(
        r,
        Err(MigrationError::AheadOfTarget { applied_count: 3, declared_count: 2 })
    ));
    assert_eq!(ledger.rows().len(), 3);
}

#[test]
fn divergence_reported_before_length() {
    let r = plan_migrations(&strings(&["A", "X", "C"]), &strings(&["A", "B"]));
    assert!(matches!(r, Err(MigrationError::Divergence { index: 1, .. })));
}

#[test]
fn comments_are_never_run_or_counted() {
    let target = strings(&["-- the first table", CREATE_T, "--", ADD_NAME]);
    let mut ledger = Ledger::from_rows(strings(&["-- note", CREATE_T]));
    let run = ledger.reconcile(&target).ok().unwrap();
    assert_eq!(run, strings(&[ADD_NAME]));
    assert_eq!(ledger.applied(), strings(&[CREATE_T, ADD_NAME]));
    assert_eq!(ledger.rows(), &strings(&["-- note", CREATE_T, ADD_NAME]));
}

#[test]
fn comment_marker() {
    assert!(is_comment("-- x"));
    assert!(is_comment("--"));
    assert!(!is_comment("-x"));
    assert!(!is_comment(""));
    assert!(!is_comment(" -- x"));
    assert_eq!(filter_comments(&strings(&["--a", "b", "--c", "d"])), strings(&["b", "d"]));
}
