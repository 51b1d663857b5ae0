use vstd::prelude::*;
use crate::config::{apply_overrides, fits, overlaid};
use crate::error::{engine_error, is_engine_error, is_lookup_error, is_state_error, lookup_error, ServerError};
use crate::results::ConfigurationResult;
use crate::lookup::{all_defined, find_atom, is_first_match, resolve_assumptions, resolves};

verus! {

/// The theory extensions that can be attached to the engine.
#[derive(Clone, Copy, Debug, PartialEq, Eq, Structural)]
pub enum TheoryKind {
    /// Difference logic.
    DLTheory,
    /// Constraint logic.
    ConTheory,
}

/// The operations of a session.
#[derive(Clone, Copy, Debug, PartialEq, Eq, Structural)]
pub enum Operation {
    Create,
    RegisterDlTheory,
    RegisterConTheory,
    Add,
    Ground,
    AssignExternal,
    ReleaseExternal,
    Solve,
    SolveWithAssumptions,
    Model,
    Resume,
    Close,
    Statistics,
    Configuration,
    SetConfiguration,
}

/// The phase of the single solving session.
///
/// The engine handles themselves are held by the caller; this value decides which
/// operation may run and what the session becomes once the engine has done its part.
#[derive(Clone, Copy, Debug, PartialEq, Eq, Structural)]
pub enum Solver {
    /// No engine exists yet.
    Empty,
    /// An engine exists and no search runs; the attached extension, if any.
    Idle(Option<TheoryKind>),
    /// A search runs; the extension that was attached when it started.
    Searching(Option<TheoryKind>),
}

impl Operation {
    /// The operation's name as it appears in its error messages.
    pub open spec fn spec_name(self) -> Seq<char> {
        match self {
            Operation::Create => "create"@,
            Operation::RegisterDlTheory => "register_dl_theory"@,
            Operation::RegisterConTheory => "register_con_theory"@,
            Operation::Add => "add"@,
            Operation::Ground => "ground"@,
            Operation::AssignExternal => "assign_external"@,
            Operation::ReleaseExternal => "release_external"@,
            Operation::Solve => "solve"@,
            Operation::SolveWithAssumptions => "solve_with_assumptions"@,
            Operation::Model => "model"@,
            Operation::Resume => "resume"@,
            Operation::Close => "close"@,
            Operation::Statistics => "statistics"@,
            Operation::Configuration => "configuration"@,
            Operation::SetConfiguration => "set_configuration"@,
        }
    }

    /// The operation's name, as its error messages give it.
    pub fn name(&self) -> (r: &'static str)
        ensures
            r@ == self.spec_name(),
    {
        match self {
            Operation::Create => "create",
            Operation::RegisterDlTheory => "register_dl_theory",
            Operation::RegisterConTheory => "register_con_theory",
            Operation::Add => "add",
            Operation::Ground => "ground",
            Operation::AssignExternal => "assign_external",
            Operation::ReleaseExternal => "release_external",
            Operation::Solve => "solve",
            Operation::SolveWithAssumptions => "solve_with_assumptions",
            Operation::Model => "model",
            Operation::Resume => "resume",
            Operation::Close => "close",
            Operation::Statistics => "statistics",
            Operation::Configuration => "configuration",
            Operation::SetConfiguration => "set_configuration",
        }
    }

    /// Operations that need a running search.
    pub open spec fn needs_search(self) -> bool {
        self == Operation::Model || self == Operation::Resume || self == Operation::Close
    }

    /// Operations that keep the older "Solver has been already started." wording.
    pub open spec fn says_solver_started(self) -> bool {
        self == Operation::RegisterDlTheory || self == Operation::RegisterConTheory
            || self == Operation::Add || self == Operation::Ground
    }
}

impl Solver {
    /// No engine exists.
    pub open spec fn is_empty(self) -> bool {
        self is Empty
    }

    /// An engine exists and no search runs.
    pub open spec fn is_idle(self) -> bool {
        self is Idle
    }

    /// A search runs.
    pub open spec fn is_searching(self) -> bool {
        self is Searching
    }

    /// The extension attached to the engine, if any.
    pub open spec fn spec_theory(self) -> Option<TheoryKind> {
        match self {
            Solver::Empty => None,
            Solver::Idle(t) => t,
            Solver::Searching(t) => t,
        }
    }

    /// Whether `op` may run in this phase.
    pub open spec fn admits(self, op: Operation) -> bool {
        if op == Operation::Create {
            !self.is_searching()
        } else if op.needs_search() {
            self.is_searching()
        } else {
            self.is_idle()
        }
    }

    /// Why `op` may not run in this phase.
    pub open spec fn spec_reason(self, op: Operation) -> Seq<char> {
        if op == Operation::Create {
            "Solver still running!"@
        } else if op == Operation::Close {
            "Solver is not running."@
        } else if op.needs_search() {
            if self.is_empty() {
                "No SolveHandle."@
            } else if op == Operation::Resume {
                "Solver has not yet started."@
            } else {
                "Solving has not yet started."@
            }
        } else if self.is_empty() {
            "No control object."@
        } else if op.says_solver_started() {
            "Solver has been already started."@
        } else {
            "Solving has already started."@
        }
    }

    /// The message of the error that refuses `op` in this phase.
    pub open spec fn refusal(self, op: Operation) -> Seq<char> {
        "Solver::"@ + op.spec_name() + " failed! "@ + self.spec_reason(op)
    }

    /// A fresh session, before any engine exists.
    pub fn new() -> (r: Solver)
        ensures
            r == Solver::Empty,
    {
        Solver::Empty
    }

    /// The extension attached to the engine, if any.
    pub fn theory(&self) -> (r: Option<TheoryKind>)
        ensures
            r == self.spec_theory(),
    {
        match self {
            Solver::Empty => None,
            Solver::Idle(t) => *t,
            Solver::Searching(t) => *t,
        }
    }

    fn reason(&self, op: Operation) -> (r: &'static str)
        requires
            !self.admits(op),
        ensures
            r@ == self.spec_reason(op),
    {
        let empty = match self {
            Solver::Empty => true,
            _ => false,
        };
        match op {
            Operation::Create => "Solver still running!",
            Operation::Close => "Solver is not running.",
            Operation::Model => {
                if empty {
                    "No SolveHandle."
                } else {
                    "Solving has not yet started."
                }
            },
            Operation::Resume => {
                if empty {
                    "No SolveHandle."
                } else {
                    "Solver has not yet started."
                }
            },
            Operation::RegisterDlTheory | Operation::RegisterConTheory | Operation::Add
            | Operation::Ground => {
                if empty {
                    "No control object."
                } else {
                    "Solver has been already started."
                }
            },
            _ => {
                if empty {
                    "No control object."
                } else {
                    "Solving has already started."
                }
            },
        }
    }

    /// Decides whether `op` may run now; refuses it with a `SessionStateError` otherwise.
    pub fn check(&self, op: Operation) -> (r: Result<(), ServerError>)
        ensures
            self.answers(op, r, ()),
    {
        let allowed = match op {
            Operation::Create => !matches!(self, Solver::Searching(_)),
            Operation::Model | Operation::Resume | Operation::Close => matches!(
                self,
                Solver::Searching(_)
            ),
            _ => matches!(self, Solver::Idle(_)),
        };
        if allowed {
            Ok(())
        } else {
            let mut m = String::from_str("Solver::");
            m.append(op.name());
            m.append(" failed! ");
            m.append(self.reason(op));
            Err(ServerError::SessionStateError(m))
        }
    }
    /// `r` is what `op` answers in this phase: `value` where the phase admits it, the
    /// refusal otherwise.
    pub open spec fn answers<T>(self, op: Operation, r: Result<T, ServerError>, value: T) -> bool {
        if self.admits(op) {
            r == Ok::<T, ServerError>(value)
        } else {
            is_state_error(r, self.refusal(op))
        }
    }

    /// The phase after `op` has run and the engine has done its part of it.
    pub open spec fn committed(self, op: Operation) -> Solver {
        match op {
            Operation::Create => Solver::Idle(None),
            Operation::RegisterDlTheory => Solver::Idle(Some(TheoryKind::DLTheory)),
            Operation::RegisterConTheory => Solver::Idle(Some(TheoryKind::ConTheory)),
            Operation::Solve | Operation::SolveWithAssumptions => Solver::Searching(
                self.spec_theory(),
            ),
            Operation::Close => Solver::Idle(self.spec_theory()),
            _ => self,
        }
    }

    /// The phase after a request for `op`, where `engine_ok` tells whether the engine's part
    /// succeeded: a refused operation or a failed engine call leaves the phase unchanged.
    pub open spec fn next(self, op: Operation, engine_ok: bool) -> Solver {
        if self.admits(op) && engine_ok {
            self.committed(op)
        } else {
            self
        }
    }

    /// Records that `op`, admitted in this phase, has been carried out by the engine.
    pub fn commit(&mut self, op: Operation)
        requires
            old(self).admits(op),
        ensures
            *final(self) == old(self).committed(op),
    {
        let t = self.theory();
        match op {
            Operation::Create => {
                *self = Solver::Idle(None);
            },
            Operation::RegisterDlTheory => {
                *self = Solver::Idle(Some(TheoryKind::DLTheory));
            },
            Operation::RegisterConTheory => {
                *self = Solver::Idle(Some(TheoryKind::ConTheory));
            },
            Operation::Solve | Operation::SolveWithAssumptions => {
                *self = Solver::Searching(t);
            },
            Operation::Close => {
                *self = Solver::Idle(t);
            },
            _ => {},
        }
    }

    /// `create` may run unless a search is running; the caller then builds a fresh engine,
    /// discarding any idle one.
    pub fn create(&self) -> (r: Result<(), ServerError>)
        ensures
            self.answers(Operation::Create, r, ()),
    {
        self.check(Operation::Create)
    }

    /// `register_dl_theory` may run on an idle engine; an extension already attached is
    /// replaced by a fresh difference-logic one.
    pub fn register_dl_theory(&self) -> (r: Result<(), ServerError>)
        ensures
            self.answers(Operation::RegisterDlTheory, r, ()),
    {
        self.check(Operation::RegisterDlTheory)
    }

    /// `register_con_theory` may run on an idle engine; an extension already attached is
    /// replaced by a fresh constraint-logic one.
    pub fn register_con_theory(&self) -> (r: Result<(), ServerError>)
        ensures
            self.answers(Operation::RegisterConTheory, r, ()),
    {
        self.check(Operation::RegisterConTheory)
    }

    /// `add` may run on an idle engine. The answer is the attached extension: with none the
    /// program goes to the engine verbatim, with one each statement goes through its rewrite.
    pub fn add(&self) -> (r: Result<Option<TheoryKind>, ServerError>)
        ensures
            self.answers(Operation::Add, r, self.spec_theory()),
    {
        self.check(Operation::Add)?;
        Ok(self.theory())
    }

    /// `ground` may run on an idle engine. The answer is the attached extension, whose
    /// prepare hook runs after grounding.
    pub fn ground(&self) -> (r: Result<Option<TheoryKind>, ServerError>)
        ensures
            self.answers(Operation::Ground, r, self.spec_theory()),
    {
        self.check(Operation::Ground)?;
        Ok(self.theory())
    }

    /// `assign_external` may run on an idle engine. The answer is the position of the first
    /// symbolic atom equal to `symbol`, whose literal gets the truth value.
    pub fn assign_external(&self, atoms: &Vec<u64>, symbol: u64) -> (r: Result<usize, ServerError>)
        ensures
            !self.admits(Operation::AssignExternal) ==> is_state_error(
                r,
                self.refusal(Operation::AssignExternal),
            ),
            self.admits(Operation::AssignExternal) ==> (r is Ok <==> atoms@.contains(symbol)),
            self.admits(Operation::AssignExternal) ==> match r {
                Ok(i) => is_first_match(atoms@, symbol, i as int),
                Err(_) => is_lookup_error(r, "external symbol not found"@),
            },
    {
        self.check(Operation::AssignExternal)?;
        match find_atom(atoms, symbol) {
            Some(i) => Ok(i),
            None => Err(lookup_error("external symbol not found")),
        }
    }

    /// `release_external` may run on an idle engine. The answer is the position of the first
    /// symbolic atom equal to `symbol`, whose literal is released.
    pub fn release_external(&self, atoms: &Vec<u64>, symbol: u64) -> (r: Result<usize, ServerError>)
        ensures
            !self.admits(Operation::ReleaseExternal) ==> is_state_error(
                r,
                self.refusal(Operation::ReleaseExternal),
            ),
            self.admits(Operation::ReleaseExternal) ==> (r is Ok <==> atoms@.contains(symbol)),
            self.admits(Operation::ReleaseExternal) ==> match r {
                Ok(i) => is_first_match(atoms@, symbol, i as int),
                Err(_) => is_lookup_error(r, "external symbol not found"@),
            },
    {
        self.check(Operation::ReleaseExternal)?;
        match find_atom(atoms, symbol) {
            Some(i) => Ok(i),
            None => Err(lookup_error("external symbol not found")),
        }
    }

    /// `solve` may run on an idle engine. The answer is the attached extension: with one the
    /// search is started with an event handler that forwards models and statistics to it.
    pub fn solve(&self) -> (r: Result<Option<TheoryKind>, ServerError>)
        ensures
            self.answers(Operation::Solve, r, self.spec_theory()),
    {
        self.check(Operation::Solve)?;
        Ok(self.theory())
    }

    /// `solve_with_assumptions` may run on an idle engine. Each `(symbol, sign)` pair is
    /// resolved to the first symbolic atom equal to it, with its sign; one symbol that is no
    /// atom fails the whole call and no search starts.
    pub fn solve_with_assumptions(&self, atoms: &Vec<u64>, assumptions: &Vec<(u64, bool)>) -> (r:
        Result<Vec<(usize, bool)>, ServerError>)
        ensures
            !self.admits(Operation::SolveWithAssumptions) ==> is_state_error(
                r,
                self.refusal(Operation::SolveWithAssumptions),
            ),
            self.admits(Operation::SolveWithAssumptions) ==> (r is Ok <==> all_defined(
                atoms@,
                assumptions@,
            )),
            self.admits(Operation::SolveWithAssumptions) ==> match r {
                Ok(lits) => resolves(atoms@, assumptions@, lits@),
                Err(_) => is_lookup_error(r, undefined_assumption()),
            },
    {
        self.check(Operation::SolveWithAssumptions)?;
        resolve_assumptions(
            atoms,
            assumptions,
            "Solver::solve_with_assumptions failed! The assumptions contain a literal that is not defined in the logic program.",
        )
    }

    /// `model` may run while a search runs. The answer is the extension attached to the
    /// search, whose assignment joins each model.
    pub fn model(&self) -> (r: Result<Option<TheoryKind>, ServerError>)
        ensures
            self.answers(Operation::Model, r, self.spec_theory()),
    {
        self.check(Operation::Model)?;
        Ok(self.theory())
    }

    /// `resume` may run while a search runs.
    pub fn resume(&self) -> (r: Result<(), ServerError>)
        ensures
            self.answers(Operation::Resume, r, ()),
    {
        self.check(Operation::Resume)
    }

    /// `close` may run while a search runs; the engine then becomes idle again, with the same
    /// extension.
    pub fn close(&self) -> (r: Result<(), ServerError>)
        ensures
            self.answers(Operation::Close, r, ()),
    {
        self.check(Operation::Close)
    }

    /// `statistics` may run on an idle engine.
    pub fn statistics(&self) -> (r: Result<(), ServerError>)
        ensures
            self.answers(Operation::Statistics, r, ()),
    {
        self.check(Operation::Statistics)
    }

    /// `set_configuration` may run on an idle engine. Given the engine's configuration as it
    /// stands, the answer is that configuration with the overrides `new` written over it,
    /// leaf by leaf; overrides that do not fit it fail as the engine's own writes would.
    pub fn set_configuration(&self, current: ConfigurationResult, new: &ConfigurationResult) -> (r:
        Result<ConfigurationResult, ServerError>)
        ensures
            !self.admits(Operation::SetConfiguration) ==> is_state_error(
                r,
                self.refusal(Operation::SetConfiguration),
            ),
            self.admits(Operation::SetConfiguration) ==> (r is Ok <==> fits(current, *new)),
            self.admits(Operation::SetConfiguration) ==> match r {
                Ok(res) => overlaid(current, *new, res),
                Err(_) => is_engine_error(r, misfit()),
            },
    {
        self.check(Operation::SetConfiguration)?;
        let mut conf = current;
        if apply_overrides(&mut conf, new) {
            Ok(conf)
        } else {
            Err(
                engine_error(
                    "Solver::set_configuration failed! The configuration has no such entry.",
                ),
            )
        }
    }

    /// `configuration` may run on an idle engine.
    pub fn configuration(&self) -> (r: Result<(), ServerError>)
        ensures
            self.answers(Operation::Configuration, r, ()),
    {
        self.check(Operation::Configuration)
    }
}

/// The kinds of event that a running search reports to its handler.
#[derive(Clone, Copy, Debug, PartialEq, Eq, Structural)]
pub enum SolveEventKind {
    Model,
    Statistics,
    Other,
}

/// The hooks of an attached extension that search events call.
#[derive(Clone, Copy, Debug, PartialEq, Eq, Structural)]
pub enum TheoryHook {
    OnModel,
    OnStatistics,
}

/// The hook that an event of a search with an attached extension calls: a model goes to the
/// extension's model hook, a statistics update to its statistics hook, and any other event
/// calls nothing and lets the search go on.
pub fn hook_for(event: SolveEventKind) -> (r: Option<TheoryHook>)
    ensures
        event == SolveEventKind::Model ==> r == Some(TheoryHook::OnModel),
        event == SolveEventKind::Statistics ==> r == Some(TheoryHook::OnStatistics),
        event == SolveEventKind::Other ==> r is None,
{
    match event {
        SolveEventKind::Model => Some(TheoryHook::OnModel),
        SolveEventKind::Statistics => Some(TheoryHook::OnStatistics),
        SolveEventKind::Other => None,
    }
}

/// The message of the error that refuses overrides that do not fit the configuration.
pub open spec fn misfit() -> Seq<char> {
    "Solver::set_configuration failed! The configuration has no such entry."@
}

/// The message of the lookup error that refuses a set of assumptions.
pub open spec fn undefined_assumption() -> Seq<char> {
    "Solver::solve_with_assumptions failed! The assumptions contain a literal that is not defined in the logic program."@
}

/// Every request leaves the session in one of its three phases, and only `create`, the two
/// registrations, the two solves and `close` change it. `create`, once the engine is built,
/// yields an idle session with no extension; a solve from an idle session yields a search
/// with the same extension, or the unchanged idle session if the engine failed; `close`
/// during a search yields the idle session with that extension, or the unchanged search if
/// the engine failed.
pub proof fn lemma_phase_transitions(s: Solver, op: Operation, engine_ok: bool)
    ensures
        s.next(op, engine_ok) is Empty || s.next(op, engine_ok) is Idle || s.next(op, engine_ok) is Searching,
        op == Operation::Create ==> s.next(op, engine_ok) == Solver::Idle(None) || s.next(
            op,
            engine_ok,
        ) == s,
        op == Operation::Create && !s.is_searching() && engine_ok ==> s.next(op, engine_ok)
            == Solver::Idle(None),
        (op == Operation::Solve || op == Operation::SolveWithAssumptions) && s.is_idle() ==> s.admits(
            op,
        ) && if engine_ok {
            s.next(op, engine_ok) == Solver::Searching(s.spec_theory())
        } else {
            s.next(op, engine_ok) == s
        },
        op == Operation::Close && s.is_searching() ==> s.admits(op) && if engine_ok {
            s.next(op, engine_ok) == Solver::Idle(s.spec_theory())
        } else {
            s.next(op, engine_ok) == s
        },
        !(op == Operation::Create || op == Operation::RegisterDlTheory || op
            == Operation::RegisterConTheory || op == Operation::Solve || op
            == Operation::SolveWithAssumptions || op == Operation::Close) ==> s.next(op, engine_ok)
            == s,
{
}

/// While a search runs, `solve`, `add`, `ground`, `assign_external`, `release_external`,
/// `statistics`, `configuration` and `set_configuration` are refused with a
/// `SessionStateError` that names the operation, and the session stays as it was.
pub proof fn lemma_refused_while_searching(s: Solver, op: Operation, engine_ok: bool)
    requires
        s.is_searching(),
        op == Operation::Solve || op == Operation::Add || op == Operation::Ground || op
            == Operation::AssignExternal || op == Operation::ReleaseExternal || op
            == Operation::Statistics || op == Operation::Configuration || op
            == Operation::SetConfiguration,
    ensures
        !s.admits(op),
        s.next(op, engine_ok) == s,
        forall|r: Result<(), ServerError>| s.answers(op, r, ()) ==> is_state_error(r, s.refusal(op)),
{
}

/// With no search running, `model`, `resume` and `close` are refused with a
/// `SessionStateError`, and the session stays as it was.
pub proof fn lemma_needs_search(s: Solver, op: Operation, engine_ok: bool)
    requires
        !s.is_searching(),
        op == Operation::Model || op == Operation::Resume || op == Operation::Close,
    ensures
        !s.admits(op),
        s.next(op, engine_ok) == s,
        forall|r: Result<(), ServerError>| s.answers(op, r, ()) ==> is_state_error(r, s.refusal(op)),
{
}

} // verus!
