use ideas::migrations::{
    checksum_hex, embedded_migrations, migration_entries, plan_migrations, revert_target,
    runs_outside_transaction, AppliedMigration, CatalogEntry, MigrationStep,
};
use ideas::schema::{
    ADD_IDEA_PROBLEM_DOWN_SQL, ADD_IDEA_PROBLEM_UP_SQL, ADD_INPROGRESS_STATUS_DOWN_SQL,
    ADD_INPROGRESS_STATUS_UP_SQL, INIT_DOWN_SQL, INIT_UP_SQL,
};

fn entry(version: i64, is_down: bool, checksum: &[u8]) -> CatalogEntry {
    CatalogEntry {
        version,
        is_down,
        checksum: checksum.to_vec(),
    }
}

fn applied(version: i64, checksum: &[u8]) -> AppliedMigration {
    AppliedMigration {
        version,
        checksum: checksum.to_vec(),
    }
}

#[test]
fn checksum_is_lower_case_hex() {
    assert_eq!(checksum_hex(&[]), "");
    assert_eq!(checksum_hex(&[0x00, 0x0f, 0xa5, 0xff]), "000fa5ff");
}

#[test]
fn dirty_database_is_refused() {
    let catalog = vec![entry(1, false, b"a")];
    assert_eq!(plan_migrations(&catalog, &Vec::new(), Some(7)).err(), Some(7));
}

#[test]
fn plan_skips_applied_and_applies_pending() {
    let catalog = vec![
        entry(1, false, b"one"),
        entry(1, true, b"one-down"),
        entry(2, false, b"two"),
        entry(2, true, b"two-down"),
        entry(3, false, b"three"),
        entry(4, false, b"four"),
    ];
    let stored = vec![applied(1, b"one"), applied(3, b"changed"), applied(9, b"gone")];
    let plan = plan_migrations(&catalog, &stored, None).ok().expect("not dirty");
    assert_eq!(
        plan.steps,
        vec![
            MigrationStep::Skip { index: 0, version: 1, checksum_differs: false },
            MigrationStep::Apply { index: 2, version: 2, older_than_applied: true },
            MigrationStep::Skip { index: 4, version: 3, checksum_differs: true },
            MigrationStep::Apply { index: 5, version: 4, older_than_applied: true },
        ]
    );
    assert_eq!(plan.unknown_applied, vec![9]);

    let fresh = plan_migrations(&catalog, &Vec::new(), None).ok().expect("not dirty");
    assert_eq!(fresh.steps.len(), 4);
    assert!(fresh.unknown_applied.is_empty());
    assert_eq!(
        fresh.steps[3],
        MigrationStep::Apply { index: 5, version: 4, older_than_applied: false }
    );
}

#[test]
fn revert_goes_back_one_migration() {
    assert_eq!(revert_target(&vec![]), -1);
    assert_eq!(revert_target(&vec![5]), -1);
    assert_eq!(revert_target(&vec![5, 6, 7]), 6);
}

#[test]
fn shipped_migrations_in_order() {
    let shipped = embedded_migrations();
    assert_eq!(shipped.len(), 5);
    assert_eq!(shipped[0].version, 20260507120000);
    assert_eq!(shipped[0].description, "init");
    assert_eq!(shipped[4].description, "add_idea_problem");
    assert!(shipped.windows(2).all(|w| w[0].version < w[1].version));
}

#[test]
fn no_transaction_marker() {
    assert!(runs_outside_transaction("-- no-transaction\nPRAGMA foreign_keys = OFF;"));
    assert!(!runs_outside_transaction("CREATE TABLE t (x);"));
    assert!(!runs_outside_transaction(" -- no-transaction"));
}

#[test]
fn shipped_migrations_carry_their_scripts() {
    let shipped = embedded_migrations();
    assert_eq!(shipped[0].up_sql, INIT_UP_SQL);
    assert_eq!(shipped[0].down_sql, INIT_DOWN_SQL);
    assert_eq!(shipped[4].up_sql, ADD_IDEA_PROBLEM_UP_SQL);
    assert_eq!(shipped[4].down_sql, ADD_IDEA_PROBLEM_DOWN_SQL);
    assert!(shipped[0].up_sql.contains("CREATE TABLE users"));
    assert!(shipped[0].down_sql.contains("DROP TABLE IF EXISTS users"));
}

#[test]
fn migrator_entries_pair_up_and_down() {
    let entries = migration_entries();
    assert_eq!(entries.len(), 10);
    for (k, info) in embedded_migrations().iter().enumerate() {
        let up = &entries[2 * k];
        let down = &entries[2 * k + 1];
        assert_eq!((up.version, up.description, up.is_down, up.sql), (info.version, info.description, false, info.up_sql));
        assert_eq!((down.version, down.description, down.is_down, down.sql), (info.version, info.description, true, info.down_sql));
    }
    assert_eq!(entries[2].sql, ADD_INPROGRESS_STATUS_UP_SQL);
    assert!(entries[2].no_transaction);
    assert_eq!(entries[3].sql, ADD_INPROGRESS_STATUS_DOWN_SQL);
    assert!(entries[3].no_transaction);
    assert!(!entries[0].no_transaction);
    assert!(!entries[1].no_transaction);
}
