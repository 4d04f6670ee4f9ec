use vstd::prelude::*;
use vstd::string::StringExecFns;

verus! {

/// The errors that the session and its supervisor report to a caller. Where
/// an outside failure caused one, it keeps that failure's text as its cause.
#[derive(Clone, PartialEq, Eq, Debug)]
pub enum LspError {
    /// The server is already starting or running.
    AlreadyStarted,
    /// The executable could not be spawned.
    SpawnFailed(String),
    /// The server is not running.
    NotRunning,
    /// The child did not exit after its input was closed; a forceful stop follows.
    FailedToTerminate(String),
    /// The child process could not be killed.
    FailedToKill(String),
    /// The initialize exchange has already completed.
    AlreadyInitialized,
    /// The initialize exchange has not completed yet.
    NotInitialized,
    /// A shutdown was requested; only `exit` may follow.
    AlreadyShutdown,
    /// The server answered the initialize request with an error.
    InitializeRejected,
    /// Every request identifier has been used.
    IdsExhausted,
    /// A response arrived for an identifier that is not pending.
    StrayResponse,
    /// The child's output ended or a write to it failed.
    TransportClosed,
}

/// The human-readable text of each kind of error.
pub open spec fn message_of(e: LspError) -> Seq<char> {
    match e {
        LspError::AlreadyStarted => "LSP already started"@,
        LspError::SpawnFailed(_) => "Failed to spawn LSP process"@,
        LspError::NotRunning => "LSP is not running"@,
        LspError::FailedToTerminate(_) => "LSP process did not exit"@,
        LspError::FailedToKill(_) => "Failed to kill process"@,
        LspError::AlreadyInitialized => "LSP is already initialized"@,
        LspError::NotInitialized => "LSP is not initialized"@,
        LspError::AlreadyShutdown => "LSP shutdown was requested"@,
        LspError::InitializeRejected => "LSP rejected the initialize request"@,
        LspError::IdsExhausted => "No request identifier is left"@,
        LspError::StrayResponse => "Response to an unknown request"@,
        LspError::TransportClosed => "LSP transport closed"@,
    }
}

/// The outside failure that caused an error, if any.
pub open spec fn cause_of(e: LspError) -> Option<Seq<char>> {
    match e {
        LspError::SpawnFailed(c) => Some(c@),
        LspError::FailedToTerminate(c) => Some(c@),
        LspError::FailedToKill(c) => Some(c@),
        _ => None,
    }
}

/// The full text: the message, then `, reason: ` and the cause where there is one.
pub open spec fn describe_of(e: LspError) -> Seq<char> {
    match cause_of(e) {
        Some(c) => message_of(e) + ", reason: "@ + c,
        None => message_of(e),
    }
}

impl LspError {
    /// A human-readable description of the kind of error.
    pub fn message(&self) -> (r: &'static str)
        ensures
            r@ == message_of(*self),
    {
        match self {
            LspError::AlreadyStarted => "LSP already started",
            LspError::SpawnFailed(_) => "Failed to spawn LSP process",
            LspError::NotRunning => "LSP is not running",
            LspError::FailedToTerminate(_) => "LSP process did not exit",
            LspError::FailedToKill(_) => "Failed to kill process",
            LspError::AlreadyInitialized => "LSP is already initialized",
            LspError::NotInitialized => "LSP is not initialized",
            LspError::AlreadyShutdown => "LSP shutdown was requested",
            LspError::InitializeRejected => "LSP rejected the initialize request",
            LspError::IdsExhausted => "No request identifier is left",
            LspError::StrayResponse => "Response to an unknown request",
            LspError::TransportClosed => "LSP transport closed",
        }
    }

    /// The outside failure that caused this error, if any.
    pub fn cause(&self) -> (r: Option<&str>)
        ensures
            match cause_of(*self) {
                Some(c) => r is Some && r->Some_0@ == c,
                None => r is None,
            },
    {
        match self {
            LspError::SpawnFailed(c) => Some(c.as_str()),
            LspError::FailedToTerminate(c) => Some(c.as_str()),
            LspError::FailedToKill(c) => Some(c.as_str()),
            _ => None,
        }
    }

    /// The message followed by the cause.
    pub fn describe(&self) -> (r: String)
        ensures
            r@ == describe_of(*self),
    {
        let mut text = String::from_str(self.message());
        match self.cause() {
            Some(c) => {
                text.append(", reason: ");
                text.append(c);
            },
            None => {},
        }
        text
    }
}

} // verus!
