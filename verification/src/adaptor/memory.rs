use vstd::prelude::*;

use crate::adaptor::{
    history_migration, init_applied, remove_name, up_record, DbAdaptor, DbView, RecordView,
};
use crate::adaptor::{lemma_remove_name_absent, lemma_remove_name_snoc};
use crate::errors::Error;
use crate::migration::{Migration, MigrationBuilder, MigrationView};

verus! {

/// One row of the in-memory bookkeeping table: the same logical columns
/// as any other backend records (name, hash, reverse SQL).
pub struct Record {
    pub name: String,
    pub hash: String,
    pub down_sql: String,
}

impl View for Record {
    type V = RecordView;

    open spec fn view(&self) -> RecordView {
        RecordView { name: self.name@, hash: self.hash@, down_sql: self.down_sql@ }
    }
}

/// A statement the in-memory engine accepts: any non-empty text. The
/// empty statement fails, which is how a plan injects a failing step.
pub open spec fn valid_stmt(stmt: Seq<char>) -> bool {
    stmt.len() > 0
}

/// Executes one statement against the schema. The engine's statement
/// language is deliberately minimal: a statement names one schema object;
/// executing it creates the object when absent and drops it when present,
/// so every statement is its own reverse.
pub open spec fn toggle(schema: Seq<Seq<char>>, stmt: Seq<char>) -> Seq<Seq<char>> {
    match schema.index_of_first(stmt) {
        Option::Some(i) => schema.remove(i),
        Option::None => schema.push(stmt),
    }
}

/// Running a statement twice from a state where its object is absent
/// first creates and then drops the object: the schema round-trips.
pub proof fn lemma_toggle_undo(schema: Seq<Seq<char>>, stmt: Seq<char>)
    requires
        !schema.contains(stmt),
    ensures
        toggle(toggle(schema, stmt), stmt) == schema,
{
    schema.index_of_first_ensures(stmt);
    let pushed = schema.push(stmt);
    assert(pushed[schema.len() as int] == stmt);
    assert(pushed.contains(stmt));
    pushed.index_of_first_ensures(stmt);
    let i = pushed.index_of_first(stmt)->0;
    if i < schema.len() {
        assert(pushed[i] == schema[i]);
        assert(schema.contains(stmt));
    }
    assert(i == schema.len());
    assert(pushed.remove(schema.len() as int) =~= schema);
}

/// What a successful forward application does to the database: the
/// forward statement runs against the schema and the migration's row is
/// appended to the bookkeeping log, as one atomic unit.
pub open spec fn apply_up(db: DbView, m: MigrationView) -> DbView {
    DbView {
        initialized: db.initialized,
        schema: toggle(db.schema, m.up_sql->0),
        log: db.log.push(up_record(m)),
    }
}

/// What a successful revert does: the reverse statement runs against the
/// schema and every bookkeeping row with the migration's name is deleted,
/// as one atomic unit.
pub open spec fn apply_down(db: DbView, m: MigrationView) -> DbView {
    DbView {
        initialized: db.initialized,
        schema: toggle(db.schema, m.down_sql->0),
        log: remove_name(db.log, m.name),
    }
}

/// Applying a migration and then reverting it restores the database to
/// its pre-apply state exactly, and removes its bookkeeping row, provided
/// the forward statement created its object (the object was absent), the
/// reverse statement is the forward one (every statement of this engine
/// is its own reverse), and no row already carried the migration's name.
pub proof fn lemma_round_trip(db: DbView, m: MigrationView)
    requires
        m.up_sql is Some,
        m.down_sql is Some,
        m.down_sql->0 == m.up_sql->0,
        !db.schema.contains(m.up_sql->0),
        forall|i: int| 0 <= i < db.log.len() ==> (#[trigger] db.log[i]).name != m.name,
    ensures
        apply_down(apply_up(db, m), m) == db,
{
    lemma_toggle_undo(db.schema, m.up_sql->0);
    lemma_remove_name_snoc(db.log, up_record(m), m.name);
    lemma_remove_name_absent(db.log, m.name);
    assert(apply_down(apply_up(db, m), m) =~= db);
}

/// The views of the schema objects a backend holds.
pub open spec fn schema_view(tables: Seq<String>) -> Seq<Seq<char>> {
    tables.map_values(|t: String| t@)
}

/// The views of the bookkeeping rows a backend holds.
pub open spec fn log_view(log: Seq<Record>) -> Seq<RecordView> {
    log.map_values(|r: Record| r@)
}

/// An in-memory database backend. It keeps the full observable state as
/// plain values — whether the bookkeeping store exists, which schema
/// objects exist, and the bookkeeping rows in apply order — and follows
/// the same probe/create, transactional-apply and delete-on-revert
/// protocol as a live backend, so every engine guarantee can be checked
/// against it.
pub struct MemoryAdaptor {
    pub initialized: bool,
    pub tables: Vec<String>,
    pub log: Vec<Record>,
}

impl MemoryAdaptor {
    /// A fresh database: no bookkeeping store, no schema objects, no log.
    pub fn new() -> (r: MemoryAdaptor)
        ensures
            r.db() == (DbView { initialized: false, schema: Seq::<Seq<char>>::empty(), log: Seq::<
                RecordView,
            >::empty() }),
    {
        let r = MemoryAdaptor { initialized: false, tables: Vec::new(), log: Vec::new() };
        proof {
            assert(schema_view(r.tables@) =~= Seq::<Seq<char>>::empty());
            assert(log_view(r.log@) =~= Seq::<RecordView>::empty());
        }
        r
    }
}

/// Runs one statement against the in-memory schema: drops the named
/// object if present, creates it otherwise.
fn toggle_statement(tables: &mut Vec<String>, stmt: &String)
    ensures
        schema_view(final(tables)@) == toggle(schema_view(old(tables)@), stmt@),
{
    let ghost schema = schema_view(old(tables)@);
    let n = tables.len();
    let mut j: usize = 0;
    while j < n
        invariant
            0 <= j <= n,
            n == tables@.len(),
            tables@ == old(tables)@,
            schema == schema_view(tables@),
            forall|k: int| 0 <= k < j ==> schema[k] != stmt@,
        decreases n - j,
    {
        let hit = tables[j] == *stmt;
        if hit {
            proof {
                assert(schema[j as int] == stmt@);
                assert(schema.contains(stmt@));
                schema.index_of_first_ensures(stmt@);
                let i = schema.index_of_first(stmt@)->0;
                if i < j {
                    assert(schema[i] == stmt@);
                }
                assert(i == j);
            }
            tables.remove(j);
            proof {
                assert(schema_view(tables@) =~= schema.remove(j as int));
            }
            return ;
        }
        j = j + 1;
    }
    proof {
        assert(forall|k: int| 0 <= k < schema.len() ==> schema[k] != stmt@);
        schema.index_of_first_ensures(stmt@);
    }
    tables.push(stmt.clone());
    proof {
        assert(schema_view(tables@) =~= schema.push(stmt@));
    }
}

/// Deletes every bookkeeping row carrying `name`.
fn delete_rows(log: &mut Vec<Record>, name: &String)
    ensures
        log_view(final(log)@) == remove_name(log_view(old(log)@), name@),
{
    let ghost full = log_view(old(log)@);
    let mut kept: Vec<Record> = Vec::new();
    proof {
        assert(full.skip(0) =~= full);
        assert(log_view(kept@) =~= Seq::<RecordView>::empty());
        assert(Seq::<RecordView>::empty() + remove_name(full, name@) =~= remove_name(full, name@));
    }
    let n = log.len();
    let mut i: usize = 0;
    while i < n
        invariant
            0 <= i <= n,
            n == log@.len(),
            log@ == old(log)@,
            full == log_view(log@),
            remove_name(full, name@) == log_view(kept@) + remove_name(full.skip(i as int), name@),
        decreases n - i,
    {
        proof {
            assert(full.skip(i as int)[0] == full[i as int]);
            assert(full.skip(i as int).drop_first() =~= full.skip(i as int + 1));
        }
        let row = &log[i];
        let same = row.name == *name;
        if !same {
            let copy = Record {
                name: row.name.clone(),
                hash: row.hash.clone(),
                down_sql: row.down_sql.clone(),
            };
            proof {
                assert(copy@ == full[i as int]);
                assert(log_view(kept@).push(copy@) =~= log_view(kept@.push(copy)));
                assert(log_view(kept@) + (seq![full[i as int]] + remove_name(
                    full.skip(i as int + 1),
                    name@,
                )) =~= log_view(kept@).push(full[i as int]) + remove_name(
                    full.skip(i as int + 1),
                    name@,
                ));
            }
            kept.push(copy);
        }
        i = i + 1;
    }
    proof {
        assert(full.skip(n as int) =~= Seq::<RecordView>::empty());
        assert(log_view(kept@) + Seq::<RecordView>::empty() =~= log_view(kept@));
    }
    *log = kept;
}

impl DbAdaptor for MemoryAdaptor {
    open spec fn db(&self) -> DbView {
        DbView {
            initialized: self.initialized,
            schema: schema_view(self.tables@),
            log: log_view(self.log@),
        }
    }

    /// Probes for the bookkeeping store and creates it only when the
    /// probe says it is missing; creation is guarded, so running it
    /// again is harmless. Never fails, never touches schema or log.
    fn init(&mut self) -> (r: Result<(), Error>)
        ensures
            r is Ok,
            final(self).db() == init_applied(old(self).db()),
    {
        let exists = self.initialized;
        if !exists {
            self.initialized = true;
        }
        Ok(())
    }

    /// Reads the bookkeeping rows newest first and rebuilds a migration
    /// from each. Fails exactly when the bookkeeping store is missing.
    fn load_migrations(&mut self) -> (r: Result<Vec<Migration>, Error>)
        ensures
            r is Ok <==> old(self).db().initialized,
            r is Err ==> r == Result::<Vec<Migration>, Error>::Err(Error::DatabaseError),
    {
        if !self.initialized {
            return Err(Error::DatabaseError);
        }
        let ghost rows = log_view(self.log@);
        let mut out: Vec<Migration> = Vec::new();
        let n = self.log.len();
        let mut i: usize = n;
        while i > 0
            invariant
                0 <= i <= n,
                n == self.log@.len(),
                *self == *old(self),
                rows == log_view(self.log@),
                out@.len() == n - i,
                forall|j: int| 0 <= j < out@.len() ==> #[trigger] out@[j]@ == history_migration(
                    rows[n - 1 - j],
                ),
            decreases i,
        {
            i = i - 1;
            let row = &self.log[i];
            let built = MigrationBuilder::new().compound_name(row.name.as_str()).hash(
                row.hash.as_str(),
            ).down_sql(row.down_sql.as_str()).build();
            let m = match built {
                Ok(m) => m,
                Err(e) => {
                    return Err(e);
                },
            };
            proof {
                assert(m@ == history_migration(rows[i as int]));
            }
            out.push(m);
        }
        Ok(out)
    }

    /// Applies one migration forward, transactionally: the forward
    /// statement and the bookkeeping insert commit together or not at
    /// all. Missing hash or forward SQL is refused as `BadMigration`;
    /// a missing reverse SQL is recorded as the empty string. The
    /// statement fails when it is invalid, and the bookkeeping insert
    /// fails when the store does not exist; either failure rolls the
    /// whole step back.
    fn run_up_migration(&mut self, migration: &Migration) -> (r: Result<(), Error>)
        ensures
            r is Ok <==> {
                &&& migration@.hash is Some
                &&& migration@.up_sql is Some
                &&& valid_stmt(migration@.up_sql->0)
                &&& old(self).db().initialized
            },
            r is Ok ==> final(self).db() == apply_up(old(self).db(), migration@),
            migration@.hash is Some && migration@.up_sql is Some && !(valid_stmt(
                migration@.up_sql->0,
            ) && old(self).db().initialized) ==> r == Result::<(), Error>::Err(
                Error::DatabaseError,
            ),
    {
        let hash = match &migration.hash {
            Some(h) => h.clone(),
            None => {
                return Err(Error::BadMigration);
            },
        };
        let up_sql = match &migration.up_sql {
            Some(u) => u.clone(),
            None => {
                return Err(Error::BadMigration);
            },
        };
        let down_sql = match &migration.down_sql {
            Some(d) => d.clone(),
            None => String::new(),
        };
        // one transaction: both effects below commit together, or the
        // step fails here first and nothing has been touched
        if up_sql.as_str().is_empty() {
            return Err(Error::DatabaseError);
        }
        if !self.initialized {
            return Err(Error::DatabaseError);
        }
        toggle_statement(&mut self.tables, &up_sql);
        let name = migration.name.clone();
        self.log.push(Record { name, hash, down_sql });
        proof {
            assert(log_view(self.log@) =~= log_view(old(self).log@).push(up_record(migration@)));
        }
        Ok(())
    }

    /// Reverts one migration, transactionally: the reverse statement and
    /// the bookkeeping delete commit together or not at all. A missing
    /// reverse SQL is refused as `BadMigration`; an empty one is an
    /// invalid statement and fails like any other statement.
    fn run_down_migration(&mut self, migration: &Migration) -> (r: Result<(), Error>)
        ensures
            r is Ok <==> {
                &&& migration@.down_sql is Some
                &&& valid_stmt(migration@.down_sql->0)
                &&& old(self).db().initialized
            },
            r is Ok ==> final(self).db() == apply_down(old(self).db(), migration@),
            migration@.down_sql is Some && !(valid_stmt(migration@.down_sql->0) && old(
                self,
            ).db().initialized) ==> r == Result::<(), Error>::Err(Error::DatabaseError),
    {
        let down_sql = match &migration.down_sql {
            Some(d) => d.clone(),
            None => {
                return Err(Error::BadMigration);
            },
        };
        if down_sql.as_str().is_empty() {
            return Err(Error::DatabaseError);
        }
        if !self.initialized {
            return Err(Error::DatabaseError);
        }
        toggle_statement(&mut self.tables, &down_sql);
        delete_rows(&mut self.log, &migration.name);
        Ok(())
    }
}

} // verus!
