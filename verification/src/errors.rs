use vstd::prelude::*;

verus! {

/// The error taxonomy of the correlation engine.
///
/// Per-step errors (`PayloadParseError`, `MalformedPath`, `TimingUnavailable`,
/// `MissingSessionContext`, `UnrecognizedEntry`) are yielded as that step's
/// result and the stream continues. `LogUnavailable` aborts the stream before
/// it starts, and `CursorFault` ends it.
#[derive(Clone, Copy, Debug, PartialEq, Eq, Structural)]
pub enum EngineError {
    LogUnavailable,
    PayloadParseError,
    MalformedPath,
    TimingUnavailable,
    MissingSessionContext,
    UnrecognizedEntry,
    CursorFault,
}

impl EngineError {
    /// A short description of the error, in place of `Display`.
    pub open spec fn spec_message(self) -> Seq<char> {
        match self {
            EngineError::LogUnavailable => "unable to open or filter the event log"@,
            EngineError::PayloadParseError => "malformed marker payload"@,
            EngineError::MalformedPath => "derivation path fails structural assumptions"@,
            EngineError::TimingUnavailable => "build log metadata missing or inconsistent"@,
            EngineError::MissingSessionContext => "completion seen before any session start"@,
            EngineError::UnrecognizedEntry => "entry matched the filter but no known tag"@,
            EngineError::CursorFault => "event log cursor failed irrecoverably"@,
        }
    }

    pub fn message(&self) -> (r: &'static str)
        ensures
            r@ == self.spec_message(),
    {
        match self {
            EngineError::LogUnavailable => "unable to open or filter the event log",
            EngineError::PayloadParseError => "malformed marker payload",
            EngineError::MalformedPath => "derivation path fails structural assumptions",
            EngineError::TimingUnavailable => "build log metadata missing or inconsistent",
            EngineError::MissingSessionContext => "completion seen before any session start",
            EngineError::UnrecognizedEntry => "entry matched the filter but no known tag",
            EngineError::CursorFault => "event log cursor failed irrecoverably",
        }
    }
}

} // verus!
