use vstd::prelude::*;
use vstd::string::StringExecFns;
use crate::error::{ForeignKeyCheckError, MigrationError};
use crate::step::{MView, M};
use crate::store;
use crate::text::{decimal, decimal_digits};

verus! {

/// One thing that a run asks of the store while its transaction is open.
pub enum Request {
    /// Run a script, statement after statement.
    Batch(Seq<char>),
    /// Check the foreign keys.
    ForeignKeyCheck,
    /// Run the forward hook of a step.
    UpHook(MView),
    /// Run the reverse hook of a step.
    DownHook(MView),
    /// Set the version counter.
    SetUserVersion(u32),
    /// Commit the transaction.
    Commit,
}

impl Request {
    /// The errors that a request ends in when it fails.
    pub open spec fn fails_with(self, e: MigrationError) -> bool {
        match self {
            Request::Batch(sql) => e matches MigrationError::RusqliteError { query, .. } && query@
                == sql,
            Request::ForeignKeyCheck => e is ForeignKeyCheck || (e
                matches MigrationError::RusqliteError { query, .. } && query@
                == "PRAGMA foreign_key_check"@),
            Request::UpHook(_) | Request::DownHook(_) => e is Hook || (e
                matches MigrationError::RusqliteError { query, .. } && query@ == Seq::<
                char,
            >::empty()),
            Request::SetUserVersion(v) => e matches MigrationError::RusqliteError { query, .. }
                && query@ == "PRAGMA user_version = "@ + decimal_digits(v as nat),
            Request::Commit => e matches MigrationError::RusqliteError { query, .. } && query@
                == "COMMIT"@,
        }
    }
}

/// The errors that a run of `full` inside a transaction of its own ends in
/// when it fails: the transaction could not be begun, or one of the requests
/// failed.
pub open spec fn run_fails_with(full: Seq<Request>, e: MigrationError) -> bool {
    ||| e matches MigrationError::RusqliteError { query, .. } && query@ == "BEGIN"@
    ||| exists|i: int| 0 <= i < full.len() && (#[trigger] full[i]).fails_with(e)
}

/// How a session's record grows when `full` is asked of it, one request
/// after the other, until one fails: `after` is `before` followed by the
/// first requests of `full`. With `Ok` they are all of `full`. With `Err` the
/// last of them is the one that failed, and nothing after it was asked.
pub open spec fn ran(
    before: Seq<Request>,
    after: Seq<Request>,
    full: Seq<Request>,
    r: Result<(), MigrationError>,
) -> bool {
    let n = after.len() - before.len();
    &&& 0 <= n <= full.len()
    &&& after == before + full.take(n)
    &&& match r {
        Ok(()) => n == full.len(),
        Err(e) => n > 0 && full[n - 1].fails_with(e),
    }
}

/// Asking nothing leaves the record as it was.
pub proof fn lemma_ran_nothing(before: Seq<Request>)
    ensures
        ran(before, before, Seq::empty(), Ok(())),
{
    assert(before =~= before + Seq::<Request>::empty().take(0));
}

/// One request, asked and recorded.
pub proof fn lemma_ran_one(
    before: Seq<Request>,
    request: Request,
    r: Result<(), MigrationError>,
)
    requires
        r matches Err(e) ==> request.fails_with(e),
    ensures
        ran(before, before.push(request), seq![request], r),
{
    assert(seq![request].take(1) =~= seq![request]);
    assert(before.push(request) =~= before + seq![request]);
}

/// What was asked in full, followed by what was asked next.
pub proof fn lemma_ran_then(
    before: Seq<Request>,
    between: Seq<Request>,
    after: Seq<Request>,
    first: Seq<Request>,
    second: Seq<Request>,
    r: Result<(), MigrationError>,
)
    requires
        ran(before, between, first, Ok(())),
        ran(between, after, second, r),
    ensures
        ran(before, after, first + second, r),
{
    let n = after.len() - between.len();
    assert(first.take(first.len() as int) =~= first);
    assert((first + second).take(first.len() + n) =~= first + second.take(n));
    assert(after =~= before + (first + second).take(first.len() + n));
}

/// A run that failed is a failed run of anything that begins as it does.
pub proof fn lemma_ran_stopped(
    before: Seq<Request>,
    after: Seq<Request>,
    first: Seq<Request>,
    second: Seq<Request>,
    e: MigrationError,
)
    requires
        ran(before, after, first, Err(e)),
    ensures
        ran(before, after, first + second, Err(e)),
{
    let n = after.len() - before.len();
    assert((first + second).take(n) =~= first.take(n));
}

/// What the foreign key check says of the first row that it found, if any:
/// a row is a violation.
pub fn foreign_key_verdict(row: Option<(String, i64, String, i64)>) -> (r: Result<
    (),
    MigrationError,
>)
    ensures
        row is None ==> r is Ok,
        row matches Some(found) ==> r == Err::<(), MigrationError>(
            MigrationError::ForeignKeyCheck(
                ForeignKeyCheckError {
                    table: found.0,
                    rowid: found.1,
                    parent: found.2,
                    fkid: found.3,
                },
            ),
        ),
{
    match row {
        None => Ok(()),
        Some((table, rowid, parent, fkid)) => Err(
            MigrationError::ForeignKeyCheck(ForeignKeyCheckError { table, rowid, parent, fkid }),
        ),
    }
}

/// The version that a counter value stands for, as the store hands it out.
/// The store hands out a signed number. One that is not negative and fits a
/// `usize` is the version itself. Any other is cut to the bits of a `usize`:
/// a negative one becomes a version far beyond any known step.
pub fn counter_of(raw: i64) -> (version: usize)
    ensures
        version == raw as usize,
        0 <= raw <= usize::MAX ==> version == raw,
{
    #[verifier::truncate]
    (raw as usize)
}

/// The version counter of the store behind `conn`: what the store answers,
/// as [`counter_of`] reads it. Whether the store answers, and what, is the
/// store's to say.
pub(crate) fn user_version(conn: &rusqlite::Connection) -> (r: Result<usize, rusqlite::Error>) {
    match store::query_user_version(conn) {
        Ok(v) => Ok(counter_of(v)),
        Err(err) => Err(err),
    }
}

/// What ends a run: the new version is set, then the transaction is
/// committed. The version is cut to the 32 bits that the store keeps.
pub open spec fn closing(version: usize) -> Seq<Request> {
    seq![Request::SetUserVersion(version as u32), Request::Commit]
}

/// A transaction, together with the record of what has been asked of it and
/// of whether a request has failed. A session is open from
/// [`Session::begin`] until [`Session::commit`]. Dropping an open session
/// rolls the transaction back: only a commit that succeeds keeps what was
/// done.
///
/// A session of which a request has failed is asked nothing more: every
/// request requires that none has failed before it, and fails exactly when
/// the store, the check or the hook that it went to failed.
pub struct Session<'conn> {
    tx: Option<rusqlite::Transaction<'conn>>,
    asked: Ghost<Seq<Request>>,
    failed: Ghost<bool>,
}

impl<'conn> Session<'conn> {
    /// What has been asked of the store in this transaction, in order. A
    /// request that failed is the last one.
    pub closed spec fn asked(&self) -> Seq<Request> {
        self.asked@
    }

    /// Whether one of the requests has failed.
    pub closed spec fn failed(&self) -> bool {
        self.failed@
    }

    /// Whether the transaction is still there to be asked anything.
    pub closed spec fn is_open(&self) -> bool {
        self.tx is Some
    }

    /// Begins a transaction on `conn`.
    pub fn begin(conn: &'conn mut rusqlite::Connection) -> (r: Result<
        Session<'conn>,
        MigrationError,
    >)
        ensures
            r matches Ok(session) ==> session.is_open() && !session.failed() && session.asked()
                == Seq::<Request>::empty(),
            r matches Err(e) ==> e matches MigrationError::RusqliteError { query, .. } && query@
                == "BEGIN"@,
    {
        match store::begin(conn) {
            Ok(tx) => Ok(
                Session { tx: Some(tx), asked: Ghost(Seq::empty()), failed: Ghost(false) },
            ),
            Err(err) => Err(MigrationError::with_sql(err, "BEGIN")),
        }
    }

    /// Runs the statements of `sql`.
    pub fn execute_batch(&mut self, sql: &str) -> (r: Result<(), MigrationError>)
        requires
            old(self).is_open(),
            !old(self).failed(),
        ensures
            final(self).is_open(),
            final(self).failed() == (r is Err),
            final(self).asked() == old(self).asked().push(Request::Batch(sql@)),
            r matches Err(e) ==> Request::Batch(sql@).fails_with(e),
    {
        let answer = store::execute_batch(self.tx.as_ref().unwrap(), sql);
        proof {
            self.asked@ = self.asked@.push(Request::Batch(sql@));
            self.failed@ = answer is Err;
        }
        match answer {
            Ok(()) => Ok(()),
            Err(err) => Err(MigrationError::with_sql(err, sql)),
        }
    }

    /// Checks the foreign keys. One row that refers to a missing parent is
    /// enough to fail.
    pub fn validate_foreign_keys(&mut self) -> (r: Result<(), MigrationError>)
        requires
            old(self).is_open(),
            !old(self).failed(),
        ensures
            final(self).is_open(),
            final(self).failed() == (r is Err),
            final(self).asked() == old(self).asked().push(Request::ForeignKeyCheck),
            r matches Err(e) ==> Request::ForeignKeyCheck.fails_with(e),
    {
        let answer = store::query_foreign_key_check(self.tx.as_ref().unwrap());
        proof {
            self.asked@ = self.asked@.push(Request::ForeignKeyCheck);
            self.failed@ = !(answer matches Ok(None));
        }
        match answer {
            Ok(row) => foreign_key_verdict(row),
            Err(err) => Err(MigrationError::with_sql(err, "PRAGMA foreign_key_check")),
        }
    }

    /// Runs the forward hook of `m`, if it has one.
    pub fn up_hook(&mut self, m: &M) -> (r: Result<(), MigrationError>)
        requires
            old(self).is_open(),
            !old(self).failed(),
        ensures
            final(self).is_open(),
            final(self).failed() == (r is Err),
            m@.up_hook is Some ==> final(self).asked() == old(self).asked().push(
                Request::UpHook(m@),
            ),
            m@.up_hook is None ==> final(self).asked() == old(self).asked() && r is Ok,
            r matches Err(e) ==> Request::UpHook(m@).fails_with(e),
    {
        match m.call_up_hook(self.tx.as_ref().unwrap()) {
            None => Ok(()),
            Some(answer) => {
                proof {
                    self.asked@ = self.asked@.push(Request::UpHook(m@));
                    self.failed@ = answer is Err;
                }
                match answer {
                    Ok(()) => Ok(()),
                    Err(err) => Err(MigrationError::from_hook(err)),
                }
            },
        }
    }

    /// Runs the reverse hook of `m`, if it has one.
    pub fn down_hook(&mut self, m: &M) -> (r: Result<(), MigrationError>)
        requires
            old(self).is_open(),
            !old(self).failed(),
        ensures
            final(self).is_open(),
            final(self).failed() == (r is Err),
            m@.down_hook is Some ==> final(self).asked() == old(self).asked().push(
                Request::DownHook(m@),
            ),
            m@.down_hook is None ==> final(self).asked() == old(self).asked() && r is Ok,
            r matches Err(e) ==> Request::DownHook(m@).fails_with(e),
    {
        match m.call_down_hook(self.tx.as_ref().unwrap()) {
            None => Ok(()),
            Some(answer) => {
                proof {
                    self.asked@ = self.asked@.push(Request::DownHook(m@));
                    self.failed@ = answer is Err;
                }
                match answer {
                    Ok(()) => Ok(()),
                    Err(err) => Err(MigrationError::from_hook(err)),
                }
            },
        }
    }

    /// Sets the version counter to `v`, cut to the 32 bits that SQLite keeps.
    pub fn set_user_version(&mut self, v: usize) -> (r: Result<(), MigrationError>)
        requires
            old(self).is_open(),
            !old(self).failed(),
        ensures
            final(self).is_open(),
            final(self).failed() == (r is Err),
            final(self).asked() == old(self).asked().push(Request::SetUserVersion(v as u32)),
            r matches Err(e) ==> Request::SetUserVersion(v as u32).fails_with(e),
    {
        let v: u32 = #[verifier::truncate] (v as u32);
        let answer = store::pragma_update_user_version(self.tx.as_ref().unwrap(), v);
        proof {
            self.asked@ = self.asked@.push(Request::SetUserVersion(v));
            self.failed@ = answer is Err;
        }
        match answer {
            Ok(()) => Ok(()),
            Err(err) => Err(
                MigrationError::RusqliteError {
                    query: "PRAGMA user_version = ".to_owned().concat(
                        decimal(v as usize).as_str(),
                    ),
                    err,
                },
            ),
        }
    }

    /// Commits the transaction. Whether or not the store takes the commit,
    /// the session is closed afterwards.
    pub fn commit(&mut self) -> (r: Result<(), MigrationError>)
        requires
            old(self).is_open(),
            !old(self).failed(),
        ensures
            !final(self).is_open(),
            final(self).failed() == (r is Err),
            final(self).asked() == old(self).asked().push(Request::Commit),
            r matches Err(e) ==> Request::Commit.fails_with(e),
    {
        let tx = self.tx.take().unwrap();
        let answer = store::commit(tx);
        proof {
            self.asked@ = self.asked@.push(Request::Commit);
            self.failed@ = answer is Err;
        }
        match answer {
            Ok(()) => Ok(()),
            Err(err) => Err(MigrationError::with_sql(err, "COMMIT")),
        }
    }

    /// Ends a run: sets the version counter to `version`, then commits. The
    /// commit is asked for only where the version was set.
    pub fn conclude(&mut self, version: usize) -> (r: Result<(), MigrationError>)
        requires
            old(self).is_open(),
            !old(self).failed(),
        ensures
            final(self).failed() == (r is Err),
            ran(old(self).asked(), final(self).asked(), closing(version), r),
    {
        let ghost before = self.asked();
        let ghost version_set = seq![Request::SetUserVersion(version as u32)];
        let ghost commit = seq![Request::Commit];
        proof {
            assert(closing(version) =~= version_set + commit);
        }
        let versioned = self.set_user_version(version);
        proof {
            lemma_ran_one(before, Request::SetUserVersion(version as u32), versioned);
        }
        if let Err(e) = versioned {
            proof {
                lemma_ran_stopped(before, self.asked(), version_set, commit, e);
            }
            return Err(e);
        }
        let ghost between = self.asked();
        let committed = self.commit();
        proof {
            lemma_ran_one(between, Request::Commit, committed);
            lemma_ran_then(before, between, self.asked(), version_set, commit, committed);
        }
        committed
    }
}

} // verus!
