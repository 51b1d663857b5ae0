use asp_session::convert::{
    json_to_assignment, json_to_assumptions, json_to_configuration_result, json_to_parts,
    json_to_symbol, JsonValue, TruthValue,
};
use asp_session::error::ServerError;
use asp_session::results::ConfigurationResult;
use asp_session::session::Solver;

fn val(s: &str) -> ConfigurationResult {
    ConfigurationResult::Value(s.to_string())
}

fn entry(name: &str, c: ConfigurationResult) -> (String, ConfigurationResult) {
    (name.to_string(), c)
}

fn text(s: &str) -> JsonValue {
    JsonValue::Text(s.to_string())
}

fn member(name: &str, v: JsonValue) -> (String, JsonValue) {
    (name.to_string(), v)
}

fn live() -> ConfigurationResult {
    ConfigurationResult::Mapping(vec![
        entry("solve", ConfigurationResult::Mapping(vec![entry("models", val("1"))])),
        entry(
            "solver",
            ConfigurationResult::Array(vec![
                ConfigurationResult::Mapping(vec![entry("heuristic", val("Berkmin"))]),
                ConfigurationResult::Mapping(vec![entry("heuristic", val("Vsids"))]),
            ]),
        ),
    ])
}

#[test]
fn written_leaves_read_back_and_shape_stays() {
    let s = Solver::Idle(None);
    let new = ConfigurationResult::Mapping(vec![
        entry("solve", ConfigurationResult::Mapping(vec![entry("models", val("0"))])),
        entry(
            "solver",
            ConfigurationResult::Array(vec![ConfigurationResult::Mapping(vec![entry(
                "heuristic",
                val("Domain"),
            )])]),
        ),
    ]);
    let expected = ConfigurationResult::Mapping(vec![
        entry("solve", ConfigurationResult::Mapping(vec![entry("models", val("0"))])),
        entry(
            "solver",
            ConfigurationResult::Array(vec![
                ConfigurationResult::Mapping(vec![entry("heuristic", val("Domain"))]),
                ConfigurationResult::Mapping(vec![entry("heuristic", val("Vsids"))]),
            ]),
        ),
    ]);
    assert_eq!(s.set_configuration(live(), &new), Ok(expected));
}

#[test]
fn empty_overrides_change_nothing() {
    let s = Solver::Idle(None);
    let new = ConfigurationResult::Mapping(vec![]);
    assert_eq!(s.set_configuration(live(), &new), Ok(live()));
}

#[test]
fn overrides_that_do_not_fit_fail() {
    let s = Solver::Idle(None);
    let misfit = Err(ServerError::EngineError(
        "Solver::set_configuration failed! The configuration has no such entry.".to_string(),
    ));
    let unknown = ConfigurationResult::Mapping(vec![entry("nope", val("1"))]);
    assert_eq!(s.set_configuration(live(), &unknown), misfit);
    let too_long = ConfigurationResult::Mapping(vec![entry(
        "solver",
        ConfigurationResult::Array(vec![
            ConfigurationResult::Mapping(vec![]),
            ConfigurationResult::Mapping(vec![]),
            ConfigurationResult::Mapping(vec![]),
        ]),
    )]);
    assert_eq!(s.set_configuration(live(), &too_long), misfit);
    let leaf_on_map = ConfigurationResult::Mapping(vec![entry("solve", val("x"))]);
    assert_eq!(s.set_configuration(live(), &leaf_on_map), misfit);
    let twice = ConfigurationResult::Mapping(vec![
        entry("solve", ConfigurationResult::Mapping(vec![])),
        entry("solve", ConfigurationResult::Mapping(vec![])),
    ]);
    assert_eq!(s.set_configuration(live(), &twice), misfit);
}

#[test]
fn set_configuration_needs_an_idle_engine() {
    let new = ConfigurationResult::Mapping(vec![]);
    assert_eq!(
        Solver::Searching(None).set_configuration(live(), &new),
        Err(ServerError::SessionStateError(
            "Solver::set_configuration failed! Solving has already started.".to_string()
        ))
    );
    assert_eq!(
        Solver::Empty.set_configuration(live(), &new),
        Err(ServerError::SessionStateError(
            "Solver::set_configuration failed! No control object.".to_string()
        ))
    );
}

#[test]
fn configuration_is_read_from_json() {
    let j = JsonValue::Object(vec![
        member("solve", JsonValue::Object(vec![member("models", text("0"))])),
        member("solver", JsonValue::Array(vec![text("a"), text("b")])),
    ]);
    let c = ConfigurationResult::Mapping(vec![
        entry("solve", ConfigurationResult::Mapping(vec![entry("models", val("0"))])),
        entry("solver", ConfigurationResult::Array(vec![val("a"), val("b")])),
    ]);
    assert_eq!(json_to_configuration_result(&j), Ok(c));
    let bad = JsonValue::Array(vec![text("a"), JsonValue::Number("1".to_string())]);
    assert_eq!(
        json_to_configuration_result(&bad),
        Err(ServerError::TransportError("Could not parse configuration data".to_string()))
    );
    assert!(json_to_configuration_result(&JsonValue::Null).is_err());
    assert!(json_to_configuration_result(&JsonValue::Bool(true)).is_err());
}

#[test]
fn symbols_and_parts_are_read_from_json() {
    assert_eq!(json_to_symbol(&text("p(1)")), Ok("p(1)".to_string()));
    assert_eq!(
        json_to_symbol(&JsonValue::Null),
        Err(ServerError::TransportError("Could not parse symbol data".to_string()))
    );
    let parts = JsonValue::Object(vec![
        member("base", JsonValue::Array(vec![])),
        member("step", JsonValue::Array(vec![text("1"), text("a")])),
    ]);
    assert_eq!(
        json_to_parts(&parts),
        Ok(vec![
            ("base".to_string(), vec![]),
            ("step".to_string(), vec!["1".to_string(), "a".to_string()]),
        ])
    );
    assert_eq!(
        json_to_parts(&JsonValue::Array(vec![])),
        Err(ServerError::TransportError("Could not parse parts data".to_string()))
    );
    let not_array = JsonValue::Object(vec![member("base", text("x"))]);
    assert_eq!(
        json_to_parts(&not_array),
        Err(ServerError::TransportError("Could not parse parts data".to_string()))
    );
    let not_text = JsonValue::Object(vec![member("base", JsonValue::Array(vec![JsonValue::Bool(false)]))]);
    assert_eq!(
        json_to_parts(&not_text),
        Err(ServerError::TransportError("Could not parse symbol data".to_string()))
    );
}

#[test]
fn assignments_are_read_from_json() {
    let a = JsonValue::Object(vec![
        member("truth_value", text("False")),
        member("literal", text("e(2)")),
    ]);
    assert_eq!(json_to_assignment(&a), Ok(("e(2)".to_string(), TruthValue::False)));
    let free = JsonValue::Object(vec![member("literal", text("e")), member("truth_value", text("Free"))]);
    assert_eq!(json_to_assignment(&free), Ok(("e".to_string(), TruthValue::Free)));
    let err = Err(ServerError::TransportError("Could not parse assignment data".to_string()));
    let bad_value = JsonValue::Object(vec![member("literal", text("e")), member("truth_value", text("maybe"))]);
    assert_eq!(json_to_assignment(&bad_value), err);
    let missing = JsonValue::Object(vec![member("literal", text("e"))]);
    assert_eq!(json_to_assignment(&missing), err);
    assert_eq!(json_to_assignment(&text("e")), err);
}

#[test]
fn assumptions_are_read_from_json() {
    let a = JsonValue::Array(vec![
        JsonValue::Array(vec![text("a"), JsonValue::Bool(true)]),
        JsonValue::Array(vec![text("b"), JsonValue::Bool(false), JsonValue::Null]),
    ]);
    assert_eq!(
        json_to_assumptions(&a),
        Ok(vec![("a".to_string(), true), ("b".to_string(), false)])
    );
    let err = Err(ServerError::TransportError("Could not parse assumptions data".to_string()));
    assert_eq!(json_to_assumptions(&JsonValue::Array(vec![JsonValue::Array(vec![text("a")])])), err);
    assert_eq!(
        json_to_assumptions(&JsonValue::Array(vec![JsonValue::Array(vec![JsonValue::Bool(true), text("a")])])),
        err
    );
    assert_eq!(json_to_assumptions(&text("a")), err);
    assert_eq!(json_to_assumptions(&JsonValue::Array(vec![])), Ok(vec![]));
}
