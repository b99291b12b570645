use vstd::prelude::*;
use crate::error::{MigrationDefinitionError, MigrationError};
use crate::plan::{
    beyond_reach, down_requests, down_run, first_without_down, leaves_alone,
    lemma_down_requests_split, lemma_first_without_down, lemma_up_requests_split, outcome,
    outcome_of_read, revertible, step_down_requests, step_up_requests, up_requests, up_run,
    version_unread,
};
use crate::session::{
    closing, lemma_ran_nothing, lemma_ran_one, lemma_ran_stopped, lemma_ran_then, ran,
    run_fails_with, user_version, Request, Session,
};
use crate::step::{step_views, MView, M};
use crate::store;
use crate::version::SchemaVersion;

verus! {

/// An ordered set of migrations. The step at index `i` takes the store from
/// version `i` to version `i + 1`.
#[derive(Clone)]
pub struct Migrations {
    ms: Vec<M>,
}

impl View for Migrations {
    type V = Seq<MView>;

    closed spec fn view(&self) -> Seq<MView> {
        step_views(self.ms@)
    }
}

/// Asks of `session` what the step `m` asks on the way up.
fn step_up(session: &mut Session<'_>, m: &M) -> (r: Result<(), MigrationError>)
    requires
        old(session).is_open(),
        !old(session).failed(),
    ensures
        final(session).is_open(),
        final(session).failed() == (r is Err),
        ran(old(session).asked(), final(session).asked(), step_up_requests(m@), r),
{
    let ghost before = session.asked();
    let ghost script = seq![Request::Batch(m@.up)];
    let ghost check = if m@.foreign_key_check {
        seq![Request::ForeignKeyCheck]
    } else {
        Seq::empty()
    };
    let ghost hook = if m@.up_hook is Some {
        seq![Request::UpHook(m@)]
    } else {
        Seq::empty()
    };

    let scripted = session.execute_batch(m.up_sql());
    proof {
        lemma_ran_one(before, Request::Batch(m@.up), scripted);
    }
    if let Err(e) = scripted {
        proof {
            lemma_ran_stopped(before, session.asked(), script, check + hook, e);
            assert(script + (check + hook) =~= step_up_requests(m@));
        }
        return Err(e);
    }
    let ghost after_script = session.asked();

    let checked = if m.checks_foreign_keys() {
        let checked = session.validate_foreign_keys();
        proof {
            lemma_ran_one(after_script, Request::ForeignKeyCheck, checked);
        }
        checked
    } else {
        proof {
            lemma_ran_nothing(after_script);
        }
        Ok(())
    };
    proof {
        lemma_ran_then(before, after_script, session.asked(), script, check, checked);
    }
    if let Err(e) = checked {
        proof {
            lemma_ran_stopped(before, session.asked(), script + check, hook, e);
        }
        return Err(e);
    }
    let ghost after_check = session.asked();

    let hooked = session.up_hook(m);
    proof {
        if m@.up_hook is Some {
            lemma_ran_one(after_check, Request::UpHook(m@), hooked);
        } else {
            lemma_ran_nothing(after_check);
        }
        lemma_ran_then(before, after_check, session.asked(), script + check, hook, hooked);
    }
    hooked
}

/// Asks of `session` what the step `m` asks on the way down.
fn step_down(session: &mut Session<'_>, m: &M) -> (r: Result<(), MigrationError>)
    requires
        old(session).is_open(),
        !old(session).failed(),
        m@.down is Some,
    ensures
        final(session).is_open(),
        final(session).failed() == (r is Err),
        ran(old(session).asked(), final(session).asked(), step_down_requests(m@), r),
{
    let ghost before = session.asked();
    let ghost hook = if m@.down_hook is Some {
        seq![Request::DownHook(m@)]
    } else {
        Seq::empty()
    };
    let ghost script = seq![Request::Batch(m@.down->0)];

    let hooked = session.down_hook(m);
    proof {
        if m@.down_hook is Some {
            lemma_ran_one(before, Request::DownHook(m@), hooked);
        } else {
            lemma_ran_nothing(before);
        }
    }
    if let Err(e) = hooked {
        proof {
            lemma_ran_stopped(before, session.asked(), hook, script, e);
        }
        return Err(e);
    }
    let ghost after_hook = session.asked();

    let down = m.down_sql().unwrap();
    let scripted = session.execute_batch(down);
    proof {
        lemma_ran_one(after_hook, Request::Batch(m@.down->0), scripted);
        lemma_ran_then(before, after_hook, session.asked(), hook, script, scripted);
    }
    scripted
}

impl Migrations {
    /// The migrations `ms`, in their order.
    #[must_use]
    pub fn new(ms: Vec<M>) -> (migrations: Self)
        ensures
            migrations@ == step_views(ms@),
    {
        Self { ms }
    }

    /// The number of steps.
    pub fn len(&self) -> (n: usize)
        ensures
            n == self@.len(),
    {
        self.ms.len()
    }

    /// Where the counter value `db_version` stands relative to these
    /// migrations.
    pub fn db_version_to_schema(&self, db_version: usize) -> (version: SchemaVersion)
        ensures
            version == SchemaVersion::classify(db_version, self@.len() as usize),
            version.well_formed(self@.len() as usize),
            version.raw() == db_version,
    {
        if db_version == 0 {
            SchemaVersion::NoneSet
        } else if db_version <= self.ms.len() {
            SchemaVersion::Inside(db_version)
        } else {
            SchemaVersion::Outside(db_version)
        }
    }

    /// The version of a store to which every step has been applied.
    pub fn max_schema_version(&self) -> (version: SchemaVersion)
        ensures
            version == SchemaVersion::classify(self@.len() as usize, self@.len() as usize),
            version is NoneSet <==> self@.len() == 0,
            version matches SchemaVersion::Inside(v) ==> v == self@.len(),
            !(version is Outside),
    {
        let n = self.ms.len();
        if n == 0 {
            SchemaVersion::NoneSet
        } else {
            SchemaVersion::Inside(n)
        }
    }

    /// The version that the store behind `conn` is at: its counter, classified
    /// against these migrations.
    pub fn current_version(&self, conn: &rusqlite::Connection) -> (r: Result<
        SchemaVersion,
        MigrationError,
    >)
        ensures
            r matches Ok(version) ==> version.well_formed(self@.len() as usize),
            r matches Err(e) ==> e matches MigrationError::RusqliteError { query, .. } && query@
                == "PRAGMA user_version"@,
    {
        match user_version(conn) {
            Ok(v) => Ok(self.db_version_to_schema(v)),
            Err(err) => Err(MigrationError::with_sql(err, "PRAGMA user_version")),
        }
    }

    /// Applies the steps that lead from version `current` to version `target`,
    /// in ascending order, inside the transaction of `session`; then sets the
    /// version counter to `target`; then commits. Stops at the first request
    /// that fails, and fails with it: the run succeeds exactly when no request
    /// failed, and the commit is asked for only when everything before it
    /// succeeded.
    pub fn apply_up(
        &self,
        session: &mut Session<'_>,
        current: usize,
        target: usize,
    ) -> (r: Result<(), MigrationError>)
        requires
            old(session).is_open(),
            !old(session).failed(),
            current <= target <= self@.len(),
        ensures
            final(session).failed() == (r is Err),
            ran(old(session).asked(), final(session).asked(), up_run(self@, current, target), r),
            r matches Err(e) ==> e.is_execution(),
    {
        let ghost before = session.asked();
        let ghost steps = up_requests(self@, current as int, target as int);
        proof {
            lemma_ran_nothing(before);
        }
        let mut v: usize = current;
        while v < target
            invariant
                current <= v <= target <= self@.len(),
                self@ == step_views(self.ms@),
                session.is_open(),
                !session.failed(),
                before == old(session).asked(),
                steps == up_requests(self@, current as int, target as int),
                ran(before, session.asked(), up_requests(self@, current as int, v as int), Ok(())),
            decreases target - v,
        {
            let ghost between = session.asked();
            let m = &self.ms[v];
            let stepped = step_up(session, m);
            proof {
                lemma_ran_then(
                    before,
                    between,
                    session.asked(),
                    up_requests(self@, current as int, v as int),
                    step_up_requests(self@[v as int]),
                    stepped,
                );
            }
            if let Err(e) = stepped {
                proof {
                    lemma_up_requests_split(self@, current as int, v + 1, target as int);
                    lemma_ran_stopped(
                        before,
                        session.asked(),
                        up_requests(self@, current as int, v + 1),
                        up_requests(self@, v + 1, target as int),
                        e,
                    );
                    lemma_ran_stopped(before, session.asked(), steps, closing(target), e);
                }
                return Err(e);
            }
            v = v + 1;
        }
        let ghost after_steps = session.asked();
        let concluded = session.conclude(target);
        proof {
            lemma_ran_then(before, after_steps, session.asked(), steps, closing(target), concluded);
        }
        concluded
    }

    /// Reverts the steps that lead from version `current` back to version
    /// `target`, in descending order, inside the transaction of `session`;
    /// then sets the version counter to `target`; then commits. Stops at the
    /// first request that fails, and fails with it: the run succeeds exactly
    /// when no request failed, and the commit is asked for only when
    /// everything before it succeeded.
    pub fn apply_down(
        &self,
        session: &mut Session<'_>,
        current: usize,
        target: usize,
    ) -> (r: Result<(), MigrationError>)
        requires
            old(session).is_open(),
            !old(session).failed(),
            target <= current <= self@.len(),
            revertible(self@, target as int, current as int),
        ensures
            final(session).failed() == (r is Err),
            ran(old(session).asked(), final(session).asked(), down_run(self@, current, target), r),
            r matches Err(e) ==> e.is_execution(),
    {
        let ghost before = session.asked();
        let ghost steps = down_requests(self@, current as int, target as int);
        proof {
            lemma_ran_nothing(before);
        }
        let mut v: usize = current;
        while v > target
            invariant
                target <= v <= current <= self@.len(),
                self@ == step_views(self.ms@),
                revertible(self@, target as int, current as int),
                session.is_open(),
                !session.failed(),
                before == old(session).asked(),
                steps == down_requests(self@, current as int, target as int),
                ran(
                    before,
                    session.asked(),
                    down_requests(self@, current as int, v as int),
                    Ok(()),
                ),
            decreases v,
        {
            let ghost between = session.asked();
            v = v - 1;
            let m = &self.ms[v];
            assert(self@[v as int].down is Some);
            let stepped = step_down(session, m);
            proof {
                lemma_ran_then(
                    before,
                    between,
                    session.asked(),
                    down_requests(self@, current as int, v + 1),
                    step_down_requests(self@[v as int]),
                    stepped,
                );
            }
            if let Err(e) = stepped {
                proof {
                    lemma_down_requests_split(self@, current as int, v as int, target as int);
                    lemma_ran_stopped(
                        before,
                        session.asked(),
                        down_requests(self@, current as int, v as int),
                        down_requests(self@, v as int, target as int),
                        e,
                    );
                    lemma_ran_stopped(before, session.asked(), steps, closing(target), e);
                }
                return Err(e);
            }
        }
        let ghost after_steps = session.asked();
        let concluded = session.conclude(target);
        proof {
            lemma_ran_then(before, after_steps, session.asked(), steps, closing(target), concluded);
        }
        concluded
    }

    /// The index of the first step in `[target, current)` that has no reverse
    /// script.
    pub fn first_without_down(&self, target: usize, current: usize) -> (found: Option<usize>)
        requires
            target <= current <= self@.len(),
        ensures
            found is None <==> first_without_down(self@, target as int, current as int) is None,
            found matches Some(i) ==> first_without_down(self@, target as int, current as int)
                == Some(i as int),
    {
        let mut i: usize = target;
        while i < current
            invariant
                target <= i <= current <= self@.len(),
                self@ == step_views(self.ms@),
                revertible(self@, target as int, i as int),
            decreases current - i,
        {
            if self.ms[i].down_sql().is_none() {
                proof {
                    lemma_first_without_down(self@, target as int, current as int);
                    let found = first_without_down(self@, target as int, current as int);
                    assert(self@[i as int].down is None);
                    assert(!revertible(self@, target as int, current as int));
                    assert(found is Some);
                    if found->0 < i {
                        assert(self@[found->0].down is Some);
                    }
                    if found->0 > i {
                        assert(revertible(self@, target as int, found->0));
                        assert(self@[i as int].down is Some);
                    }
                }
                return Some(i);
            }
            i = i + 1;
        }
        proof {
            lemma_first_without_down(self@, target as int, current as int);
        }
        None
    }

    /// Migrates upward inside one transaction on `conn`: the steps, then the
    /// version counter, then the commit. Any failure leaves the transaction
    /// uncommitted, and it is rolled back.
    fn goto_up(
        &self,
        conn: &mut rusqlite::Connection,
        current_version: usize,
        target_version: usize,
    ) -> (r: Result<(), MigrationError>)
        requires
            current_version <= target_version <= self@.len(),
        ensures
            r matches Err(e) ==> e.is_execution() && run_fails_with(
                up_run(self@, current_version, target_version),
                e,
            ),
    {
        let mut session = Session::begin(conn)?;
        let ghost begun = session.asked();
        let r = self.apply_up(&mut session, current_version, target_version);
        proof {
            let full = up_run(self@, current_version, target_version);
            if r is Err {
                assert(full[session.asked().len() - begun.len() - 1].fails_with(r->Err_0));
            }
        }
        r
    }

    /// Migrates downward inside one transaction on `conn`. Before the
    /// transaction is begun, every step that is to be reverted is looked at:
    /// if one has no reverse script, nothing is touched.
    fn goto_down(
        &self,
        conn: &mut rusqlite::Connection,
        current_version: usize,
        target_version: usize,
    ) -> (r: Result<(), MigrationError>)
        requires
            target_version <= current_version <= self@.len(),
        ensures
            first_without_down(self@, target_version as int, current_version as int) matches Some(
                i,
            ) ==> *final(conn) == *old(conn) && r == Err::<(), MigrationError>(
                MigrationError::MigrationDefinition(
                    MigrationDefinitionError::DownNotDefined { migration_index: i as usize },
                ),
            ),
            first_without_down(self@, target_version as int, current_version as int) is None
                ==> (r matches Err(e) ==> e.is_execution() && run_fails_with(
                down_run(self@, current_version, target_version),
                e,
            )),
    {
        if let Some(i) = self.first_without_down(target_version, current_version) {
            return Err(
                MigrationError::MigrationDefinition(
                    MigrationDefinitionError::DownNotDefined { migration_index: i },
                ),
            );
        }
        proof {
            lemma_first_without_down(self@, target_version as int, current_version as int);
        }
        let mut session = Session::begin(conn)?;
        let ghost begun = session.asked();
        let r = self.apply_down(&mut session, current_version, target_version);
        proof {
            let full = down_run(self@, current_version, target_version);
            if r is Err {
                assert(full[session.asked().len() - begun.len() - 1].fails_with(r->Err_0));
            }
        }
        r
    }

    /// Takes the store behind `conn` from version `current`, which is what the
    /// store was found at, to version `target`.
    ///
    /// Where there is nothing to do, and where the request is refused, `conn`
    /// is not touched: no transaction is begun on it. Else one transaction is
    /// begun, and an error is the error of the first request that failed.
    ///
    /// The one thing that cannot be asked for is a way up to a version beyond
    /// the last step. A store that is ahead of the steps may be asked to stay
    /// where it is, and is refused a way down.
    pub fn goto_from(
        &self,
        conn: &mut rusqlite::Connection,
        current: usize,
        target: usize,
    ) -> (r: Result<(), MigrationError>)
        requires
            target <= current || target <= self@.len(),
        ensures
            outcome(self@, current, target, r),
            leaves_alone(self@, current, target) ==> *final(conn) == *old(conn),
    {
        if target < current {
            if current > self.ms.len() {
                return Err(
                    MigrationError::MigrationDefinition(
                        MigrationDefinitionError::DatabaseTooFarAhead,
                    ),
                );
            }
            self.goto_down(conn, current, target)
        } else if target == current {
            Ok(())
        } else {
            self.goto_up(conn, current, target)
        }
    }

    /// Reads the version of the store behind `conn` and takes the store to
    /// `target_db_version`, as [`Migrations::goto_from`] does from the version
    /// that was read. A target beyond the last step that lies above the
    /// version that was read cannot be reached: it is refused as a version
    /// beyond the last step, and `conn` is not touched.
    fn goto(&self, conn: &mut rusqlite::Connection, target_db_version: usize) -> (r: Result<
        (),
        MigrationError,
    >)
        ensures
            (version_unread(r) && *final(conn) == *old(conn)) || exists|current: usize|
                #[trigger] outcome_of_read(self@, current, target_db_version, r) && (beyond_reach(
                    self@,
                    current,
                    target_db_version,
                ) || leaves_alone(self@, current, target_db_version) ==> *final(conn) == *old(
                    conn,
                )),
    {
        let current_version = match user_version(conn) {
            Ok(v) => v,
            Err(err) => {
                return Err(MigrationError::with_sql(err, "PRAGMA user_version"));
            },
        };
        if target_db_version > current_version && target_db_version > self.ms.len() {
            let r = Err(
                MigrationError::SpecifiedSchemaVersion {
                    specified: self.db_version_to_schema(target_db_version),
                    highest: self.max_schema_version(),
                },
            );
            proof {
                assert(outcome_of_read(self@, current_version, target_db_version, r));
            }
            return r;
        }
        let r = self.goto_from(conn, current_version, target_db_version);
        proof {
            assert(outcome_of_read(self@, current_version, target_db_version, r));
        }
        r
    }

    /// Migrates the store behind `conn` to the last version.
    ///
    /// Without steps there is no last version, and the request is refused.
    /// Else the version of the store is read, and what follows is what
    /// [`Migrations::goto_from`] does from the version that was read: the
    /// contract says so for some version, since the one that the store holds
    /// is the store's to say.
    pub fn to_latest(&self, conn: &mut rusqlite::Connection) -> (r: Result<(), MigrationError>)
        ensures
            self@.len() == 0 ==> *final(conn) == *old(conn) && r == Err::<(), MigrationError>(
                MigrationError::MigrationDefinition(MigrationDefinitionError::NoMigrationsDefined),
            ),
            self@.len() > 0 ==> (version_unread(r) && *final(conn) == *old(conn)) || exists|
                current: usize,
            |
                #[trigger] outcome(self@, current, self@.len() as usize, r) && (leaves_alone(
                    self@,
                    current,
                    self@.len() as usize,
                ) ==> *final(conn) == *old(conn)),
    {
        let v_max = self.max_schema_version();
        match v_max {
            SchemaVersion::NoneSet => Err(
                MigrationError::MigrationDefinition(MigrationDefinitionError::NoMigrationsDefined),
            ),
            _ => self.goto(conn, usize::from(v_max)),
        }
    }

    /// Migrates the store behind `conn` to `version`, upward or downward.
    ///
    /// Without steps the request is refused, and so is the request for a
    /// version beyond the last step: `conn` is not touched. Else the version
    /// of the store is read, and what follows is what
    /// [`Migrations::goto_from`] does from the version that was read.
    pub fn to_version(&self, conn: &mut rusqlite::Connection, version: usize) -> (r: Result<
        (),
        MigrationError,
    >)
        ensures
            self@.len() == 0 ==> *final(conn) == *old(conn) && r == Err::<(), MigrationError>(
                MigrationError::MigrationDefinition(MigrationDefinitionError::NoMigrationsDefined),
            ),
            0 < self@.len() < version ==> *final(conn) == *old(conn) && r == Err::<
                (),
                MigrationError,
            >(
                MigrationError::SpecifiedSchemaVersion {
                    specified: SchemaVersion::Outside(version),
                    highest: SchemaVersion::Inside(self@.len() as usize),
                },
            ),
            0 < self@.len() && version <= self@.len() ==> (version_unread(r) && *final(conn)
                == *old(conn)) || exists|current: usize|
                #[trigger] outcome(self@, current, version, r) && (leaves_alone(
                    self@,
                    current,
                    version,
                ) ==> *final(conn) == *old(conn)),
    {
        let target_version: SchemaVersion = self.db_version_to_schema(version);
        let v_max = self.max_schema_version();
        match v_max {
            SchemaVersion::NoneSet => Err(
                MigrationError::MigrationDefinition(MigrationDefinitionError::NoMigrationsDefined),
            ),
            _ => {
                if target_version > v_max {
                    return Err(
                        MigrationError::SpecifiedSchemaVersion {
                            specified: target_version,
                            highest: v_max,
                        },
                    );
                }
                self.goto(conn, usize::from(target_version))
            },
        }
    }

    /// Runs every step on a new store that lives in memory, to see whether
    /// the scripts run at all. No other store is touched.
    pub fn validate(&self) -> (r: Result<(), MigrationError>)
        ensures
            ({
                ||| r matches Err(MigrationError::RusqliteError { query, .. }) && query@
                    == Seq::<char>::empty()
                ||| self@.len() == 0 && r == Err::<(), MigrationError>(
                    MigrationError::MigrationDefinition(
                        MigrationDefinitionError::NoMigrationsDefined,
                    ),
                )
                ||| self@.len() > 0 && version_unread(r)
                ||| self@.len() > 0 && exists|current: usize| #[trigger]
                    outcome(self@, current, self@.len() as usize, r)
            }),
    {
        let mut conn = match store::open_in_memory() {
            Ok(conn) => conn,
            Err(err) => {
                return Err(MigrationError::RusqliteError { query: String::new(), err });
            },
        };
        self.to_latest(&mut conn)
    }
}

} // verus!
