use movine::adaptor::memory::MemoryAdaptor;
use movine::adaptor::DbAdaptor;
use movine::errors::Error;
use movine::migration::{Migration, MigrationBuilder};
use movine::plan_builder::Step;

fn local(name: &str, up: &str, down: Option<&str>) -> Migration {
    let mut b = MigrationBuilder::new().compound_name(name).hash("hash-of-up").up_sql(up);
    if let Some(d) = down {
        b = b.down_sql(d);
    }
    b.build().unwrap()
}

#[test]
fn init_is_idempotent() {
    let mut db = MemoryAdaptor::new();
    assert!(db.init().is_ok());
    assert!(db.initialized);
    let m = local("a", "table_a", Some("table_a"));
    db.run_up_migration(&m).unwrap();
    // a second init never errors and never disturbs what is already there
    assert!(db.init().is_ok());
    assert!(db.initialized);
    assert_eq!(db.log.len(), 1);
    assert_eq!(db.tables, vec!["table_a".to_string()]);
}

#[test]
fn up_without_store_rolls_back_schema() {
    // the forward statement would succeed, but the bookkeeping insert
    // cannot: the whole step must leave no trace
    let mut db = MemoryAdaptor::new();
    let m = local("a", "table_a", Some("table_a"));
    assert_eq!(db.run_up_migration(&m), Err(Error::DatabaseError));
    assert!(db.tables.is_empty());
    assert!(db.log.is_empty());
}

#[test]
fn failing_up_statement_leaves_no_record() {
    // the forward statement fails: no bookkeeping record may exist
    let mut db = MemoryAdaptor::new();
    db.init().unwrap();
    let m = local("a", "", Some("table_a"));
    assert_eq!(db.run_up_migration(&m), Err(Error::DatabaseError));
    assert!(db.tables.is_empty());
    assert!(db.log.is_empty());
}

#[test]
fn apply_then_revert_round_trips() {
    let mut db = MemoryAdaptor::new();
    db.init().unwrap();
    let m = local("a", "table_a", Some("table_a"));
    db.run_up_migration(&m).unwrap();
    assert_eq!(db.tables, vec!["table_a".to_string()]);
    assert_eq!(db.log.len(), 1);
    db.run_down_migration(&m).unwrap();
    assert!(db.tables.is_empty());
    assert!(db.log.is_empty());
}

#[test]
fn up_migration_requires_hash_and_up_sql() {
    let mut db = MemoryAdaptor::new();
    db.init().unwrap();
    let no_hash =
        MigrationBuilder::new().compound_name("a").up_sql("table_a").build().unwrap();
    assert_eq!(db.run_up_migration(&no_hash), Err(Error::BadMigration));
    let no_up = MigrationBuilder::new()
        .compound_name("a")
        .hash("h")
        .down_sql("table_a")
        .build()
        .unwrap();
    assert_eq!(db.run_up_migration(&no_up), Err(Error::BadMigration));
    assert!(db.tables.is_empty());
    assert!(db.log.is_empty());
}

#[test]
fn down_migration_requires_down_sql() {
    let mut db = MemoryAdaptor::new();
    db.init().unwrap();
    let m = local("a", "table_a", None);
    db.run_up_migration(&m).unwrap();
    assert_eq!(db.run_down_migration(&m), Err(Error::BadMigration));
    assert_eq!(db.tables, vec!["table_a".to_string()]);
    assert_eq!(db.log.len(), 1);
}

#[test]
fn irreversible_down_step_is_skipped() {
    let mut db = MemoryAdaptor::new();
    db.init().unwrap();
    let m = local("a", "table_a", None);
    let plan: Vec<(Step, &Migration)> = vec![(Step::Down, &m)];
    // no error, and no database mutation at all
    assert!(db.run_migration_plan(&plan).is_ok());
    assert!(db.tables.is_empty());
    assert!(db.log.is_empty());
}

#[test]
fn plan_side_effects_follow_list_order() {
    let mut db = MemoryAdaptor::new();
    db.init().unwrap();
    let a = local("a", "table_a", Some("table_a"));
    let b = local("b", "table_b", Some("table_b"));
    let plan: Vec<(Step, &Migration)> =
        vec![(Step::Up, &a), (Step::Up, &b), (Step::Down, &a)];
    assert!(db.run_migration_plan(&plan).is_ok());
    // up(a), up(b), then down(a): only b's effects remain
    assert_eq!(db.tables, vec!["table_b".to_string()]);
    assert_eq!(db.log.len(), 1);
    assert_eq!(db.log[0].name, "b");
}

#[test]
fn plan_halts_at_first_failure() {
    let mut db = MemoryAdaptor::new();
    db.init().unwrap();
    let a = local("a", "table_a", Some("table_a"));
    let bad = local("b", "", Some("table_b"));
    let c = local("c", "table_c", Some("table_c"));
    let plan: Vec<(Step, &Migration)> =
        vec![(Step::Up, &a), (Step::Up, &bad), (Step::Up, &c)];
    assert_eq!(db.run_migration_plan(&plan), Err(Error::DatabaseError));
    // a stays committed, b left nothing, c never ran
    assert_eq!(db.tables, vec!["table_a".to_string()]);
    assert_eq!(db.log.len(), 1);
    assert_eq!(db.log[0].name, "a");
}

#[test]
fn history_is_reconstructed_newest_first() {
    let mut db = MemoryAdaptor::new();
    db.init().unwrap();
    let x = local("x", "table_x", Some("table_x"));
    let y = local("y", "table_y", None);
    db.run_up_migration(&x).unwrap();
    db.run_up_migration(&y).unwrap();
    let history = db.load_migrations().unwrap();
    assert_eq!(history.len(), 2);
    assert_eq!(history[0].name, "y");
    assert_eq!(history[1].name, "x");
    for m in &history {
        assert!(m.up_sql.is_none());
        assert_eq!(m.hash.as_deref(), Some("hash-of-up"));
    }
    // x recorded its reverse SQL; y is irreversible, recorded as ""
    assert_eq!(history[1].down_sql.as_deref(), Some("table_x"));
    assert_eq!(history[0].down_sql.as_deref(), Some(""));
}

#[test]
fn load_migrations_fails_without_store() {
    let mut db = MemoryAdaptor::new();
    assert!(matches!(db.load_migrations(), Err(Error::DatabaseError)));
}

#[test]
fn builder_validates_field_combinations() {
    // no name at all
    assert!(matches!(
        MigrationBuilder::new().up_sql("table_a").build(),
        Err(Error::BadMigration)
    ));
    // a name alone fits no origin
    assert!(matches!(
        MigrationBuilder::new().compound_name("a").build(),
        Err(Error::BadMigration)
    ));
    // a history row needs both hash and reverse SQL
    assert!(matches!(
        MigrationBuilder::new().compound_name("a").hash("h").build(),
        Err(Error::BadMigration)
    ));
    // a local definition carries forward SQL
    let m = MigrationBuilder::new().name("a").up_sql("table_a").build().unwrap();
    assert_eq!(m.name, "a");
    assert!(m.is_reversable() == false);
    // a recorded row carries hash and reverse SQL
    let h = MigrationBuilder::new().compound_name("a").hash("h").down_sql("d").build().unwrap();
    assert!(h.is_reversable());
}

#[test]
fn boxed_adaptor_forwards_every_call() {
    let mut db: Box<MemoryAdaptor> = Box::new(MemoryAdaptor::new());
    db.init().unwrap();
    let a = local("a", "table_a", Some("table_a"));
    let plan: Vec<(Step, &Migration)> = vec![(Step::Up, &a)];
    db.run_migration_plan(&plan).unwrap();
    let history = db.load_migrations().unwrap();
    assert_eq!(history.len(), 1);
    assert_eq!(history[0].name, "a");
    db.run_down_migration(&a).unwrap();
    assert!(db.load_migrations().unwrap().is_empty());
}

#[test]
fn adaptor_works_behind_dynamic_dispatch() {
    let mut db: Box<dyn DbAdaptor> = Box::new(MemoryAdaptor::new());
    db.init().unwrap();
    let a = local("a", "table_a", Some("table_a"));
    let plan: Vec<(Step, &Migration)> = vec![(Step::Up, &a)];
    db.run_migration_plan(&plan).unwrap();
    assert_eq!(db.load_migrations().unwrap().len(), 1);
}

#[test]
fn revert_deletes_every_row_with_the_name() {
    let mut db = MemoryAdaptor::new();
    db.init().unwrap();
    let a1 = local("a", "table_a", Some("table_a"));
    let a2 = local("a", "table_a2", Some("table_a2"));
    db.run_up_migration(&a1).unwrap();
    db.run_up_migration(&a2).unwrap();
    assert_eq!(db.log.len(), 2);
    db.run_down_migration(&a2).unwrap();
    assert!(db.log.is_empty());
    assert_eq!(db.tables, vec!["table_a".to_string()]);
}
