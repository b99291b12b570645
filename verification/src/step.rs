use vstd::prelude::*;
use std::sync::Arc;
use crate::error::HookResult;

verus! {

/// Work that a step does on the open transaction besides its script. A
/// forward hook runs after the step's forward script, a reverse hook before
/// its reverse script.
///
/// Nothing is asked of an implementation: a hook may fail for any reason, and
/// the run it is part of then fails with it.
pub trait MigrationHook: Send + Sync {
    fn call(&self, tx: &rusqlite::Transaction<'_>) -> HookResult;
}

/// One migration step.
#[derive(Clone)]
pub struct M {
    up: String,
    up_hook: Option<Arc<dyn MigrationHook>>,
    down: Option<String>,
    down_hook: Option<Arc<dyn MigrationHook>>,
    foreign_key_check: bool,
    comment: Option<String>,
}

/// What a step is made of.
pub struct MView {
    /// The forward script.
    pub up: Seq<char>,
    /// The hook that runs after the forward script.
    pub up_hook: Option<Arc<dyn MigrationHook>>,
    /// The reverse script. A step without one cannot be reverted.
    pub down: Option<Seq<char>>,
    /// The hook that runs before the reverse script.
    pub down_hook: Option<Arc<dyn MigrationHook>>,
    /// Whether the foreign keys are checked after the forward script.
    pub foreign_key_check: bool,
    /// A name for the step, for people to read.
    pub comment: Option<Seq<char>>,
}

impl View for M {
    type V = MView;

    closed spec fn view(&self) -> MView {
        MView {
            up: self.up@,
            up_hook: self.up_hook,
            down: match self.down {
                Some(sql) => Some(sql@),
                None => None,
            },
            down_hook: self.down_hook,
            foreign_key_check: self.foreign_key_check,
            comment: match self.comment {
                Some(text) => Some(text@),
                None => None,
            },
        }
    }
}

/// The steps of a list, each as what it is made of.
pub open spec fn step_views(ms: Seq<M>) -> Seq<MView> {
    ms.map_values(|m: M| m@)
}

impl M {
    /// A step with the forward script `sql` and nothing else.
    pub fn up(sql: String) -> (m: M)
        ensures
            m@ == (MView {
                up: sql@,
                up_hook: None,
                down: None,
                down_hook: None,
                foreign_key_check: false,
                comment: None,
            }),
    {
        M {
            up: sql,
            up_hook: None,
            down: None,
            down_hook: None,
            foreign_key_check: false,
            comment: None,
        }
    }

    /// The same step, named `comment`.
    pub fn comment(self, comment: String) -> (m: M)
        ensures
            m@ == (MView { comment: Some(comment@), ..self@ }),
    {
        let mut m = self;
        m.comment = Some(comment);
        m
    }

    /// The same step, with the reverse script `sql`.
    pub fn down(self, sql: String) -> (m: M)
        ensures
            m@ == (MView { down: Some(sql@), ..self@ }),
    {
        let mut m = self;
        m.down = Some(sql);
        m
    }

    /// The same step, with a foreign key check after its forward script.
    pub fn foreign_key_check(self) -> (m: M)
        ensures
            m@ == (MView { foreign_key_check: true, ..self@ }),
    {
        let mut m = self;
        m.foreign_key_check = true;
        m
    }

    /// The same step, with `hook` to run after its forward script, or with
    /// no such hook where `hook` is `None`.
    pub fn up_hook(self, hook: Option<Arc<dyn MigrationHook>>) -> (m: M)
        ensures
            m@ == (MView { up_hook: hook, ..self@ }),
    {
        let mut m = self;
        m.up_hook = hook;
        m
    }

    /// The same step, with `hook` to run before its reverse script, or with
    /// no such hook where `hook` is `None`.
    pub fn down_hook(self, hook: Option<Arc<dyn MigrationHook>>) -> (m: M)
        ensures
            m@ == (MView { down_hook: hook, ..self@ }),
    {
        let mut m = self;
        m.down_hook = hook;
        m
    }

    /// The forward script.
    pub fn up_sql(&self) -> (sql: &str)
        ensures
            sql@ == self@.up,
    {
        self.up.as_str()
    }

    /// The reverse script, if the step has one.
    pub fn down_sql(&self) -> (sql: Option<&str>)
        ensures
            sql is Some <==> self@.down is Some,
            sql matches Some(text) ==> self@.down == Some(text@),
    {
        match &self.down {
            Some(text) => Some(text.as_str()),
            None => None,
        }
    }

    /// Whether the foreign keys are checked after the forward script.
    pub fn checks_foreign_keys(&self) -> (b: bool)
        ensures
            b == self@.foreign_key_check,
    {
        self.foreign_key_check
    }

    /// Runs the forward hook on `tx`. `None` where the step has none.
    pub(crate) fn call_up_hook(&self, tx: &rusqlite::Transaction<'_>) -> (r: Option<HookResult>)
        ensures
            r is Some <==> self@.up_hook is Some,
    {
        match &self.up_hook {
            Some(hook) => Some(hook.call(tx)),
            None => None,
        }
    }

    /// Runs the reverse hook on `tx`. `None` where the step has none.
    pub(crate) fn call_down_hook(&self, tx: &rusqlite::Transaction<'_>) -> (r: Option<HookResult>)
        ensures
            r is Some <==> self@.down_hook is Some,
    {
        match &self.down_hook {
            Some(hook) => Some(hook.call(tx)),
            None => None,
        }
    }
}

} // verus!
