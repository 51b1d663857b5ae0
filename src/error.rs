use vstd::prelude::*;

verus! {

/// The kinds of failure that a session operation reports.
///
/// Each variant carries the human-readable message sent back to the caller.
#[derive(Debug, PartialEq, Eq)]
pub enum ServerError {
    /// A failure reported by the solving engine, passed on verbatim.
    EngineError(String),
    /// Malformed input: bad JSON shape, unparseable symbol text, wrong field types.
    TransportError(String),
    /// An operation invoked in a phase of the session that forbids it.
    SessionStateError(String),
    /// A referenced symbol is not an atom of the ground program.
    LookupError(String),
}

impl ServerError {
    /// The message carried by the error, whatever its kind.
    pub open spec fn msg(self) -> Seq<char> {
        match self {
            ServerError::EngineError(m) => m@,
            ServerError::TransportError(m) => m@,
            ServerError::SessionStateError(m) => m@,
            ServerError::LookupError(m) => m@,
        }
    }

    /// The name of the error's kind, as sent in the `type` field of a response.
    pub fn kind_name(&self) -> (r: &'static str)
        ensures
            r@ == kind_name_of(*self),
    {
        match self {
            ServerError::EngineError(_) => "EngineError",
            ServerError::TransportError(_) => "TransportError",
            ServerError::SessionStateError(_) => "SessionStateError",
            ServerError::LookupError(_) => "LookupError",
        }
    }

    /// The message carried by the error.
    pub fn message(&self) -> (r: String)
        ensures
            r@ == self.msg(),
    {
        match self {
            ServerError::EngineError(m) => m.clone(),
            ServerError::TransportError(m) => m.clone(),
            ServerError::SessionStateError(m) => m.clone(),
            ServerError::LookupError(m) => m.clone(),
        }
    }
}

/// The name of each error kind.
pub open spec fn kind_name_of(e: ServerError) -> Seq<char> {
    match e {
        ServerError::EngineError(_) => "EngineError"@,
        ServerError::TransportError(_) => "TransportError"@,
        ServerError::SessionStateError(_) => "SessionStateError"@,
        ServerError::LookupError(_) => "LookupError"@,
    }
}

/// `r` is a `SessionStateError` whose message is `m`.
pub open spec fn is_state_error<T>(r: Result<T, ServerError>, m: Seq<char>) -> bool {
    match r {
        Err(ServerError::SessionStateError(s)) => s@ == m,
        _ => false,
    }
}

/// `r` is a `LookupError` whose message is `m`.
pub open spec fn is_lookup_error<T>(r: Result<T, ServerError>, m: Seq<char>) -> bool {
    match r {
        Err(ServerError::LookupError(s)) => s@ == m,
        _ => false,
    }
}

/// `r` is an `EngineError` whose message is `m`.
pub open spec fn is_engine_error<T>(r: Result<T, ServerError>, m: Seq<char>) -> bool {
    match r {
        Err(ServerError::EngineError(s)) => s@ == m,
        _ => false,
    }
}

/// `r` is a `TransportError` whose message is `m`.
pub open spec fn is_transport_error<T>(r: Result<T, ServerError>, m: Seq<char>) -> bool {
    match r {
        Err(ServerError::TransportError(s)) => s@ == m,
        _ => false,
    }
}

/// A `SessionStateError` carrying `m`.
pub fn state_error(m: &str) -> (e: ServerError)
    ensures
        is_state_error::<()>(Err(e), m@),
{
    ServerError::SessionStateError(String::from_str(m))
}

/// A `LookupError` carrying `m`.
pub fn lookup_error(m: &str) -> (e: ServerError)
    ensures
        is_lookup_error::<()>(Err(e), m@),
{
    ServerError::LookupError(String::from_str(m))
}

/// An `EngineError` carrying `m`.
pub fn engine_error(m: &str) -> (e: ServerError)
    ensures
        is_engine_error::<()>(Err(e), m@),
{
    ServerError::EngineError(String::from_str(m))
}

/// A `TransportError` carrying `m`.
pub fn transport_error(m: &str) -> (e: ServerError)
    ensures
        is_transport_error::<()>(Err(e), m@),
{
    ServerError::TransportError(String::from_str(m))
}

} // verus!
