use mer_driver::{parse_migration_name, plan_migrations, record_statement, Migration, MigrationPattern};

fn pattern() -> MigrationPattern {
    MigrationPattern::new().unwrap()
}

#[test]
fn migration_names() {
    let p = pattern();
    assert_eq!(parse_migration_name(&p, "01-init.sql"), Some((1, "init".to_string())));
    assert_eq!(parse_migration_name(&p, "12-add_models2.sql"), Some((12, "add_models2".to_string())));
    assert_eq!(parse_migration_name(&p, "01-caf\u{e9}.sql"), Some((1, "caf\u{e9}".to_string())));
    assert_eq!(parse_migration_name(&p, "1-init.sql"), None);
    assert_eq!(parse_migration_name(&p, "01-.sql"), None);
    assert_eq!(parse_migration_name(&p, "01-in-it.sql"), None);
    assert_eq!(parse_migration_name(&p, "01-init.sqlx"), None);
    assert_eq!(parse_migration_name(&p, "ab-init.sql"), None);
    // digits that are not ASCII match the pattern but give no number
    assert_eq!(parse_migration_name(&p, "\u{661}\u{662}-x.sql"), None);
}

#[test]
fn plan_skips_applied_and_sorts() {
    let p = pattern();
    let names: Vec<String> = ["03-c.sql", "README.md", "01-a.sql", "02-b.sql", "02-bb.sql"]
        .iter()
        .map(|s| s.to_string())
        .collect();
    let plan = plan_migrations(&p, &names, 1);
    assert_eq!(
        plan,
        vec![
            Migration { number: 2, name: "b".to_string(), file: 3 },
            Migration { number: 2, name: "bb".to_string(), file: 4 },
            Migration { number: 3, name: "c".to_string(), file: 0 },
        ]
    );
    assert_eq!(plan_migrations(&p, &names, 3), vec![]);
    assert_eq!(plan_migrations(&p, &names, -1).len(), 4);
}

#[test]
fn record_statement_text() {
    assert_eq!(
        record_statement(7, "init"),
        "INSERT INTO Migrations (num, operation, timestamp) VALUES (7, 'init', time::now());"
    );
    assert_eq!(
        record_statement(42, "x"),
        "INSERT INTO Migrations (num, operation, timestamp) VALUES (42, 'x', time::now());"
    );
}
