use asp_session::error::ServerError;
use asp_session::model::{model_result, write_model, write_theory_assignment, Poll};
use asp_session::results::{ModelResult, RequestId};
use asp_session::session::{hook_for, Operation, Solver, SolveEventKind, TheoryHook, TheoryKind};

fn state_error(msg: &str) -> ServerError {
    ServerError::SessionStateError(msg.to_string())
}

fn sym(s: &str) -> Vec<u8> {
    s.as_bytes().to_vec()
}

#[test]
fn test_create() {
    let mut solver = Solver::new();
    assert_eq!(solver.create(), Ok(()));
    solver.commit(Operation::Create);
    assert_eq!(solver, Solver::Idle(None));
    assert_eq!(solver.register_dl_theory(), Ok(()));
    solver.commit(Operation::RegisterDlTheory);
    assert_eq!(solver, Solver::Idle(Some(TheoryKind::DLTheory)));
    assert_eq!(solver.add(), Ok(Some(TheoryKind::DLTheory)));
    assert_eq!(solver.ground(), Ok(Some(TheoryKind::DLTheory)));
    assert_eq!(solver.solve(), Ok(Some(TheoryKind::DLTheory)));
    solver.commit(Operation::Solve);
    assert_eq!(solver, Solver::Searching(Some(TheoryKind::DLTheory)));
    assert_eq!(solver.model(), Ok(Some(TheoryKind::DLTheory)));
    assert_eq!(model_result(&Poll::NotReady), ModelResult::Running);
    let poll = Poll::Model { symbols: vec![sym("a")], assignment: vec![] };
    assert_eq!(model_result(&poll), ModelResult::Model(vec![97, 10]));
    assert_eq!(solver.resume(), Ok(()));
    assert_eq!(solver.close(), Ok(()));
    solver.commit(Operation::Close);
    assert_eq!(solver, Solver::Idle(Some(TheoryKind::DLTheory)));
    assert_eq!(solver.statistics(), Ok(()));
}

#[test]
fn test_register_dl_theory() {
    let solver = Solver::new();
    assert_eq!(
        solver.register_dl_theory(),
        Err(state_error("Solver::register_dl_theory failed! No control object."))
    );
}

#[test]
fn test_add() {
    let solver = Solver::new();
    assert_eq!(solver.add(), Err(state_error("Solver::add failed! No control object.")));
}

#[test]
fn test_ground() {
    let solver = Solver::new();
    assert_eq!(solver.ground(), Err(state_error("Solver::ground failed! No control object.")));
}

#[test]
fn test_solve() {
    let solver = Solver::new();
    assert_eq!(solver.solve(), Err(state_error("Solver::solve failed! No control object.")));
}

#[test]
fn test_model() {
    let solver = Solver::new();
    assert_eq!(solver.model(), Err(state_error("Solver::model failed! No SolveHandle.")));
}

#[test]
fn test_resume() {
    let solver = Solver::new();
    assert_eq!(solver.resume(), Err(state_error("Solver::resume failed! No SolveHandle.")));
}

#[test]
fn test_close() {
    let solver = Solver::new();
    assert_eq!(solver.close(), Err(state_error("Solver::close failed! Solver is not running.")));
}

#[test]
fn test_statistics() {
    let solver = Solver::new();
    assert_eq!(
        solver.statistics(),
        Err(state_error("Solver::statistics failed! No control object."))
    );
}

#[test]
fn create_lands_idle_from_every_phase_but_a_search() {
    for start in [Solver::Empty, Solver::Idle(Some(TheoryKind::ConTheory))] {
        let mut s = start;
        assert_eq!(s.create(), Ok(()));
        s.commit(Operation::Create);
        assert_eq!(s, Solver::Idle(None));
    }
    let s = Solver::Searching(None);
    assert_eq!(s.create(), Err(state_error("Solver::create failed! Solver still running!")));
}

#[test]
fn solve_then_close_keeps_the_extension() {
    let mut s = Solver::Idle(Some(TheoryKind::ConTheory));
    assert_eq!(s.solve(), Ok(Some(TheoryKind::ConTheory)));
    s.commit(Operation::Solve);
    assert_eq!(s, Solver::Searching(Some(TheoryKind::ConTheory)));
    assert_eq!(s.close(), Ok(()));
    s.commit(Operation::Close);
    assert_eq!(s, Solver::Idle(Some(TheoryKind::ConTheory)));
}

#[test]
fn registering_replaces_the_extension() {
    let mut s = Solver::Idle(Some(TheoryKind::DLTheory));
    assert_eq!(s.register_con_theory(), Ok(()));
    s.commit(Operation::RegisterConTheory);
    assert_eq!(s, Solver::Idle(Some(TheoryKind::ConTheory)));
    let busy = Solver::Searching(None);
    assert_eq!(
        busy.register_con_theory(),
        Err(state_error("Solver::register_con_theory failed! Solver has been already started."))
    );
}

#[test]
fn operations_on_an_idle_engine_are_refused_during_a_search() {
    let s = Solver::Searching(None);
    assert_eq!(s.solve(), Err(state_error("Solver::solve failed! Solving has already started.")));
    assert_eq!(s.add(), Err(state_error("Solver::add failed! Solver has been already started.")));
    assert_eq!(
        s.ground(),
        Err(state_error("Solver::ground failed! Solver has been already started."))
    );
    assert_eq!(
        s.assign_external(&vec![1], 1),
        Err(state_error("Solver::assign_external failed! Solving has already started."))
    );
    assert_eq!(
        s.release_external(&vec![1], 1),
        Err(state_error("Solver::release_external failed! Solving has already started."))
    );
    assert_eq!(
        s.statistics(),
        Err(state_error("Solver::statistics failed! Solving has already started."))
    );
    assert_eq!(
        s.configuration(),
        Err(state_error("Solver::configuration failed! Solving has already started."))
    );
    assert_eq!(
        s.solve_with_assumptions(&vec![1], &vec![(1, true)]),
        Err(state_error("Solver::solve_with_assumptions failed! Solving has already started."))
    );
}

#[test]
fn search_operations_are_refused_on_an_idle_engine() {
    let s = Solver::Idle(None);
    assert_eq!(s.model(), Err(state_error("Solver::model failed! Solving has not yet started.")));
    assert_eq!(s.resume(), Err(state_error("Solver::resume failed! Solver has not yet started.")));
    assert_eq!(s.close(), Err(state_error("Solver::close failed! Solver is not running.")));
}

#[test]
fn solve_on_a_fresh_session_names_the_missing_engine() {
    let s = Solver::new();
    let e = s.solve().unwrap_err();
    assert_eq!(e.kind_name(), "SessionStateError");
    assert!(e.message().contains("No control object"));
}

#[test]
fn undefined_assumption_is_a_lookup_error_and_starts_nothing() {
    let s = Solver::Idle(None);
    let atoms: Vec<u64> = vec![];
    let r = s.solve_with_assumptions(&atoms, &vec![(42, true)]);
    assert_eq!(
        r,
        Err(ServerError::LookupError(
            "Solver::solve_with_assumptions failed! The assumptions contain a literal that is not defined in the logic program.".to_string()
        ))
    );
    assert_eq!(s, Solver::Idle(None));
}

#[test]
fn assumptions_resolve_to_the_first_atom_each() {
    let s = Solver::Idle(None);
    let atoms: Vec<u64> = vec![7, 3, 7, 5];
    let r = s.solve_with_assumptions(&atoms, &vec![(5, false), (7, true), (3, false)]);
    assert_eq!(r, Ok(vec![(3, false), (0, true), (1, false)]));
    let partial = s.solve_with_assumptions(&atoms, &vec![(7, true), (9, true)]);
    assert!(matches!(partial, Err(ServerError::LookupError(_))));
}

#[test]
fn externals_resolve_to_the_first_matching_atom() {
    let s = Solver::Idle(None);
    let atoms: Vec<u64> = vec![4, 8, 8];
    assert_eq!(s.assign_external(&atoms, 8), Ok(1));
    assert_eq!(s.release_external(&atoms, 4), Ok(0));
    assert_eq!(
        s.assign_external(&atoms, 9),
        Err(ServerError::LookupError("external symbol not found".to_string()))
    );
    assert_eq!(
        Solver::Empty.release_external(&atoms, 4),
        Err(state_error("Solver::release_external failed! No control object."))
    );
}

#[test]
fn polling_twice_reports_the_same() {
    let s = Solver::Searching(None);
    let poll = Poll::Model {
        symbols: vec![sym("a"), sym("b(1)")],
        assignment: vec![(sym("x"), sym("3"))],
    };
    assert_eq!(s.model(), Ok(None));
    let first = model_result(&poll);
    assert_eq!(s.model(), Ok(None));
    let second = model_result(&poll);
    assert_eq!(first, second);
    assert_eq!(first, ModelResult::Model(b"a\nb(1)\nx=3\n".to_vec()));
    assert_eq!(model_result(&Poll::Exhausted), ModelResult::Done);
    assert_eq!(s, Solver::Searching(None));
}

#[test]
fn writers_frame_lines() {
    let mut out = b"p\n".to_vec();
    write_model(&vec![sym("q"), sym("r")], &mut out);
    assert_eq!(out, b"p\nq\nr\n".to_vec());
    write_theory_assignment(&vec![(sym("s"), sym("1")), (sym("t"), sym("u"))], &mut out);
    assert_eq!(out, b"p\nq\nr\ns=1\nt=u\n".to_vec());
    let mut empty = Vec::new();
    write_model(&vec![], &mut empty);
    assert!(empty.is_empty());
}

#[test]
fn events_call_the_matching_hook() {
    assert_eq!(hook_for(SolveEventKind::Model), Some(TheoryHook::OnModel));
    assert_eq!(hook_for(SolveEventKind::Statistics), Some(TheoryHook::OnStatistics));
    assert_eq!(hook_for(SolveEventKind::Other), None);
}

#[test]
fn errors_name_their_kind() {
    assert_eq!(ServerError::EngineError("x".to_string()).kind_name(), "EngineError");
    assert_eq!(ServerError::TransportError("y".to_string()).kind_name(), "TransportError");
    assert_eq!(ServerError::LookupError("z".to_string()).message(), "z");
    assert_eq!(Operation::SetConfiguration.name(), "set_configuration");
    assert_eq!(Solver::Idle(Some(TheoryKind::DLTheory)).theory(), Some(TheoryKind::DLTheory));
    assert_eq!(RequestId(3), RequestId(3));
}
