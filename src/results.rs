use vstd::prelude::*;

verus! {

/// What one poll of a running search reports.
#[derive(Debug, PartialEq, Eq)]
pub enum ModelResult {
    /// The search has not produced its next result yet.
    Running,
    /// A model: its shown symbols, one per line, then the extension's assignment, if any,
    /// one `symbol=value` per line.
    Model(Vec<u8>),
    /// No more models.
    Done,
}

/// A snapshot of the engine's configuration, or a tree of overrides to apply to it.
#[derive(Debug, PartialEq, Eq)]
pub enum ConfigurationResult {
    /// A leaf setting.
    Value(String),
    /// An ordered sequence of entries.
    Array(Vec<ConfigurationResult>),
    /// Named entries, in declaration order.
    Mapping(Vec<(String, ConfigurationResult)>),
}

/// A request's identifier, advisory only.
#[derive(Clone, Copy, Debug, PartialEq, Eq, Structural)]
pub struct RequestId(pub usize);

} // verus!
