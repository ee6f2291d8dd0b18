use vstd::prelude::*;

use crate::errors::Error;
use crate::migration::{Migration, MigrationView};
use crate::plan_builder::Step;

pub mod memory;

verus! {

/// One bookkeeping row: what the store durably records for an applied
/// migration. Created by a successful up-migration, deleted by a
/// successful down-migration, never mutated otherwise. An empty
/// `down_sql` stands for "no reverse available".
#[verifier::ext_equal]
pub struct RecordView {
    pub name: Seq<char>,
    pub hash: Seq<char>,
    pub down_sql: Seq<char>,
}

/// The observable database state the engine reasons about: whether the
/// bookkeeping store exists, which schema objects exist, and the ordered
/// bookkeeping log, oldest entry first.
#[verifier::ext_equal]
pub struct DbView {
    pub initialized: bool,
    pub schema: Seq<Seq<char>>,
    pub log: Seq<RecordView>,
}

/// What a successful `init` leaves behind: the bookkeeping store exists,
/// and everything else is exactly as it was.
pub open spec fn init_applied(db: DbView) -> DbView {
    DbView { initialized: true, schema: db.schema, log: db.log }
}

/// Initialization is idempotent: a successful `init` depends only on the
/// prior state, so a second run changes nothing and duplicates nothing.
pub proof fn lemma_init_idempotent(db: DbView)
    ensures
        init_applied(init_applied(db)) == init_applied(db),
{
}

/// The reverse SQL an up-migration records: the migration's own, or the
/// empty string when it is irreversible.
pub open spec fn down_or_empty(m: MigrationView) -> Seq<char> {
    match m.down_sql {
        Option::Some(d) => d,
        Option::None => Seq::empty(),
    }
}

/// The bookkeeping row that applying `m` forward inserts.
pub open spec fn up_record(m: MigrationView) -> RecordView {
    RecordView { name: m.name, hash: m.hash->0, down_sql: down_or_empty(m) }
}

/// The bookkeeping log left after deleting every row named `name`.
pub open spec fn remove_name(log: Seq<RecordView>, name: Seq<char>) -> Seq<RecordView>
    decreases log.len(),
{
    if log.len() == 0 {
        log
    } else if log[0].name == name {
        remove_name(log.drop_first(), name)
    } else {
        seq![log[0]] + remove_name(log.drop_first(), name)
    }
}

/// Deleting by name from a log that ends in one more row: the last row
/// stays exactly when its name differs.
pub proof fn lemma_remove_name_snoc(log: Seq<RecordView>, row: RecordView, name: Seq<char>)
    ensures
        remove_name(log.push(row), name) == if row.name == name {
            remove_name(log, name)
        } else {
            remove_name(log, name).push(row)
        },
    decreases log.len(),
{
    assert(log.push(row)[0] == if log.len() == 0 { row } else { log[0] });
    if log.len() == 0 {
        assert(log =~= Seq::<RecordView>::empty());
        assert(log.push(row).drop_first() =~= Seq::<RecordView>::empty());
        if row.name != name {
            assert(seq![row] + Seq::<RecordView>::empty() =~= Seq::<RecordView>::empty().push(row));
        }
    } else {
        assert(log.push(row).drop_first() =~= log.drop_first().push(row));
        lemma_remove_name_snoc(log.drop_first(), row, name);
        if row.name != name {
            assert(seq![log[0]] + remove_name(log.drop_first(), name).push(row) =~= (seq![log[0]]
                + remove_name(log.drop_first(), name)).push(row));
        }
    }
}

/// Deleting a name that no row carries changes nothing.
pub proof fn lemma_remove_name_absent(log: Seq<RecordView>, name: Seq<char>)
    requires
        forall|i: int| 0 <= i < log.len() ==> (#[trigger] log[i]).name != name,
    ensures
        remove_name(log, name) == log,
    decreases log.len(),
{
    if log.len() > 0 {
        lemma_remove_name_absent(log.drop_first(), name);
        assert(seq![log[0]] + log.drop_first() =~= log);
    }
}

/// The migration `load_migrations` reconstructs from one bookkeeping row:
/// name, hash and reverse SQL as recorded, forward SQL intentionally absent.
pub open spec fn history_migration(r: RecordView) -> MigrationView {
    MigrationView {
        name: r.name,
        hash: Option::Some(r.hash),
        up_sql: Option::None,
        down_sql: Option::Some(r.down_sql),
    }
}

/// What one plan step does to the bookkeeping log alone: an up step
/// inserts the migration's row, a down step deletes its rows, and a down
/// step for an irreversible migration is skipped and changes nothing.
pub open spec fn step_log(log: Seq<RecordView>, step: Step, m: MigrationView) -> Seq<RecordView> {
    match step {
        Step::Up => log.push(up_record(m)),
        Step::Down => if m.down_sql is Some {
            remove_name(log, m.name)
        } else {
            log
        },
    }
}

/// What a whole plan does to the bookkeeping log, first step first.
pub open spec fn plan_log(log: Seq<RecordView>, plan: Seq<(Step, MigrationView)>) -> Seq<RecordView>
    decreases plan.len(),
{
    if plan.len() == 0 {
        log
    } else {
        plan_log(step_log(log, plan[0].0, plan[0].1), plan.drop_first())
    }
}

/// The views of the migrations a plan borrows.
pub open spec fn plan_views(plan: Seq<(Step, &Migration)>) -> Seq<(Step, MigrationView)> {
    plan.map_values(|p: (Step, &Migration)| (p.0, p.1@))
}

/// A plan step that can never fail: a down step for an irreversible
/// migration, which the runner skips.
pub open spec fn skipped_step(p: (Step, MigrationView)) -> bool {
    p.0 is Down && p.1.down_sql is None
}

/// Running a plan builds the log effect step by step.
pub proof fn lemma_plan_log_snoc(log: Seq<RecordView>, plan: Seq<(Step, MigrationView)>, p: (Step, MigrationView))
    ensures
        plan_log(log, plan.push(p)) == step_log(plan_log(log, plan), p.0, p.1),
    decreases plan.len(),
{
    assert(plan.push(p)[0] == if plan.len() == 0 { p } else { plan[0] });
    if plan.len() == 0 {
        assert(plan.push(p).drop_first() =~= Seq::<(Step, MigrationView)>::empty());
        assert(plan_log(log, plan.push(p)) == plan_log(step_log(log, p.0, p.1), Seq::empty()));
    } else {
        assert(plan.push(p).drop_first() =~= plan.drop_first().push(p));
        lemma_plan_log_snoc(step_log(log, plan[0].0, plan[0].1), plan.drop_first(), p);
        assert(plan_log(log, plan.push(p)) == plan_log(
            step_log(log, plan[0].0, plan[0].1),
            plan.drop_first().push(p),
        ));
    }
}

/// Steps run strictly in the order supplied: the effect of one plan
/// followed by another is the effect of the concatenation.
pub proof fn lemma_plan_log_app(log: Seq<RecordView>, first: Seq<(Step, MigrationView)>, second: Seq<(Step, MigrationView)>)
    ensures
        plan_log(log, first + second) == plan_log(plan_log(log, first), second),
    decreases second.len(),
{
    if second.len() == 0 {
        assert(first + second =~= first);
    } else {
        assert((first + second.drop_last()).push(second.last()) =~= first + second);
        assert(second.drop_last().push(second.last()) =~= second);
        lemma_plan_log_app(log, first, second.drop_last());
        lemma_plan_log_snoc(log, first + second.drop_last(), second.last());
        lemma_plan_log_snoc(plan_log(log, first), second.drop_last(), second.last());
    }
}

/// The capability set a concrete database backend must provide. The
/// bookkeeping store is the source of truth: every contract is stated
/// over the backend's observable state `db()`.
///
/// Each apply or revert is atomic: either the schema change and its
/// bookkeeping write both happen, or, on any failure, the observable
/// state is exactly what it was.
pub trait DbAdaptor {
    /// The database state this adaptor abstracts.
    spec fn db(&self) -> DbView;

    /// Ensures the bookkeeping store exists. Safe to call when it already
    /// exists: a successful call never touches the schema or the log, so
    /// repeated calls change nothing after the first.
    fn init(&mut self) -> (r: Result<(), Error>)
        ensures
            r is Ok ==> final(self).db() == init_applied(old(self).db()),
            r is Err ==> final(self).db() == old(self).db(),
    ;

    /// Returns every applied-migration record, most recently applied
    /// first, each reconstructed with its recorded name, hash and reverse
    /// SQL and without forward SQL. Never changes the database.
    fn load_migrations(&mut self) -> (r: Result<Vec<Migration>, Error>)
        ensures
            final(self).db() == old(self).db(),
            r matches Ok(ms) ==> {
                &&& ms@.len() == old(self).db().log.len()
                &&& forall|i: int| 0 <= i < ms@.len() ==> #[trigger] ms@[i]@
                    == history_migration(old(self).db().log[old(self).db().log.len() - 1 - i])
            },
    ;

    /// Applies one migration forward: runs its forward SQL and inserts
    /// its bookkeeping row, atomically. Refused with `BadMigration` when
    /// the hash or the forward SQL is missing; a missing reverse SQL is
    /// recorded as the empty string, not an error.
    fn run_up_migration(&mut self, migration: &Migration) -> (r: Result<(), Error>)
        ensures
            migration@.hash is None || migration@.up_sql is None ==> r == Result::<(), Error>::Err(
                Error::BadMigration,
            ),
            r is Err ==> final(self).db() == old(self).db(),
            r is Ok ==> {
                &&& migration@.hash is Some
                &&& migration@.up_sql is Some
                &&& final(self).db().initialized == old(self).db().initialized
                &&& final(self).db().log == old(self).db().log.push(up_record(migration@))
            },
    ;

    /// Reverts one migration: runs its reverse SQL and deletes its
    /// bookkeeping rows, atomically. Refused with `BadMigration` when the
    /// reverse SQL is missing.
    fn run_down_migration(&mut self, migration: &Migration) -> (r: Result<(), Error>)
        ensures
            migration@.down_sql is None ==> r == Result::<(), Error>::Err(Error::BadMigration),
            r is Err ==> final(self).db() == old(self).db(),
            r is Ok ==> {
                &&& migration@.down_sql is Some
                &&& final(self).db().initialized == old(self).db().initialized
                &&& final(self).db().log == remove_name(old(self).db().log, migration@.name)
            },
    ;

    /// Runs an ordered plan, one step at a time, in the order supplied.
    /// A down step for an irreversible migration is skipped, deliberately:
    /// a plan may legally contain such steps and they must cost nothing.
    /// The runner stops at the first failing step and surfaces its error;
    /// steps already committed stay committed, and nothing after the
    /// failure point runs.
    fn run_migration_plan(&mut self, plan: &[(Step, &Migration)]) -> (r: Result<(), Error>)
        ensures
            r is Ok ==> {
                &&& final(self).db().log == plan_log(old(self).db().log, plan_views(plan@))
                &&& final(self).db().initialized == old(self).db().initialized
            },
            r is Err ==> exists|i: int|
                {
                    &&& 0 <= i < plan@.len()
                    &&& !skipped_step(plan_views(plan@)[i])
                    &&& final(self).db().log == plan_log(
                        old(self).db().log,
                        #[trigger] plan_views(plan@).take(i),
                    )
                    &&& final(self).db().initialized == old(self).db().initialized
                },
            (forall|i: int| 0 <= i < plan@.len() ==> skipped_step(#[trigger] plan_views(plan@)[i]))
                ==> r is Ok && final(self).db() == old(self).db(),
    {
        let ghost views = plan_views(plan@);
        let mut idx: usize = 0;
        while idx < plan.len()
            invariant
                0 <= idx <= plan.len(),
                views == plan_views(plan@),
                self.db().log == plan_log(old(self).db().log, views.take(idx as int)),
                self.db().initialized == old(self).db().initialized,
                (forall|i: int| 0 <= i < plan@.len() ==> skipped_step(#[trigger] views[i]))
                    ==> self.db() == old(self).db(),
            decreases plan.len() - idx,
        {
            let (step, migration) = plan[idx];
            proof {
                assert(views[idx as int] == (step, migration@));
            }
            let ghost pre = self.db();
            match step {
                Step::Up => {
                    let r = self.run_up_migration(migration);
                    if let Err(e) = r {
                        proof {
                            assert(views.take(idx as int) == plan_views(plan@).take(idx as int));
                        }
                        return Err(e);
                    }
                },
                Step::Down => {
                    if migration.is_reversable() {
                        let r = self.run_down_migration(migration);
                        if let Err(e) = r {
                            proof {
                                assert(views.take(idx as int) == plan_views(plan@).take(
                                    idx as int,
                                ));
                            }
                            return Err(e);
                        }
                    }
                },
            }
            proof {
                assert(views.take(idx as int).push(views[idx as int]) =~= views.take(
                    idx as int + 1,
                ));
                lemma_plan_log_snoc(old(self).db().log, views.take(idx as int), views[idx as int]);
                assert(self.db().log == step_log(pre.log, views[idx as int].0, views[idx as int].1));
            }
            idx = idx + 1;
        }
        proof {
            assert(views.take(plan@.len() as int) =~= views);
        }
        Ok(())
    }
}

/// A boxed adaptor is an adaptor: every call is forwarded verbatim, so no
/// method is ever bypassed, altered or memoized by the indirection.
impl<T: DbAdaptor + ?Sized> DbAdaptor for Box<T> {
    open spec fn db(&self) -> DbView {
        (**self).db()
    }

    fn init(&mut self) -> (r: Result<(), Error>) {
        (**self).init()
    }

    fn load_migrations(&mut self) -> (r: Result<Vec<Migration>, Error>) {
        (**self).load_migrations()
    }

    fn run_up_migration(&mut self, migration: &Migration) -> (r: Result<(), Error>) {
        (**self).run_up_migration(migration)
    }

    fn run_down_migration(&mut self, migration: &Migration) -> (r: Result<(), Error>) {
        (**self).run_down_migration(migration)
    }

    fn run_migration_plan(&mut self, plan: &[(Step, &Migration)]) -> (r: Result<(), Error>) {
        (**self).run_migration_plan(plan)
    }
}

} // verus!
