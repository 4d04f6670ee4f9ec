use vstd::prelude::*;
use vstd::string::StringSliceAdditionalSpecFns;

use crate::error::LspError;
use crate::language::{program_of, Language};
use crate::framer::encode_spec;
use crate::protocol::{
    cancel_frame, cancel_params, initialize_frame, initialized_body, initialized_frame, initialize_params_json, notification_body,
    method_not_found_body, method_not_found_frame, notification_frame, parse_error_body, parse_error_frame, request_body,
    Inbound,
};
use crate::pending::{
    allocate_spec, fail_all_spec, pending_inv, resolve_spec, PendingTable, PendingView,
};

verus! {

/// Where the child process stands in its lifecycle.
#[derive(Clone, Copy, PartialEq, Eq, Structural, Debug)]
pub enum SupervisorState {
    NotStarted,
    Starting,
    Running,
    Stopping,
    Stopped,
}

/// How a stopping server ends its child: by closing its input and waiting
/// for it to exit, or by killing it.
#[derive(Clone, Copy, PartialEq, Eq, Structural, Debug)]
pub enum StopMode {
    Graceful,
    Forceful,
}

/// How the child exited: with a code, or by a signal.
#[derive(Clone, Copy, PartialEq, Eq, Structural, Debug)]
pub enum ExitStatus {
    Exited(i32),
    Signalled,
}

/// The abstract state of a server: the supervisor state, the
/// initialize-completed and shutdown-requested flags, and the pending table.
pub struct ServerView {
    pub language: Language,
    pub state: SupervisorState,
    pub initialized: bool,
    pub shutdown_requested: bool,
    pub pending: PendingView,
    pub mode: StopMode,
    pub last_exit: Option<ExitStatus>,
    pub request_methods: Set<Seq<u8>>,
    pub notification_methods: Set<Seq<u8>>,
}

/// A server whose child is gone holds no pending entries and no session flags.
pub open spec fn server_inv(s: ServerView) -> bool {
    &&& pending_inv(s.pending)
    &&& s.state != SupervisorState::Running && s.state != SupervisorState::Stopping ==> {
        &&& !s.initialized
        &&& !s.shutdown_requested
        &&& s.pending.ids == Set::<u64>::empty()
    }
}

/// The session flags and pending table of a server that has just been spawned.
pub open spec fn fresh(s: ServerView, state: SupervisorState) -> ServerView {
    ServerView {
        language: s.language,
        state,
        initialized: false,
        shutdown_requested: false,
        pending: fail_all_spec(s.pending),
        mode: StopMode::Graceful,
        last_exit: s.last_exit,
        request_methods: s.request_methods,
        notification_methods: s.notification_methods,
    }
}

/// Ok exactly when the server is running.
pub open spec fn started_spec(s: ServerView) -> Result<(), LspError> {
    if s.state == SupervisorState::Running {
        Ok(())
    } else {
        Err(LspError::NotRunning)
    }
}

/// Asking to start: refused while a child exists, else the server is starting.
pub open spec fn start_spec(s: ServerView) -> (ServerView, Result<(), LspError>) {
    match s.state {
        SupervisorState::Starting | SupervisorState::Running | SupervisorState::Stopping => (
            s,
            Err(LspError::AlreadyStarted),
        ),
        _ => (fresh(s, SupervisorState::Starting), Ok(())),
    }
}

/// The outcome of spawning the child of a starting server: no failure, or
/// the failure's text.
pub open spec fn spawned_spec(s: ServerView, failure: Option<String>) -> (ServerView, Result<(), LspError>) {
    match failure {
        None => (fresh(s, SupervisorState::Running), Ok(())),
        Some(c) => (fresh(s, SupervisorState::Stopped), Err(LspError::SpawnFailed(c))),
    }
}

/// Asking to stop: refused unless running, else the server is stopping in
/// the given mode.
pub open spec fn stop_spec(s: ServerView, mode: StopMode) -> (ServerView, Result<(), LspError>) {
    if s.state == SupervisorState::Running {
        (ServerView { state: SupervisorState::Stopping, mode, ..s }, Ok(()))
    } else {
        (s, Err(LspError::NotRunning))
    }
}

/// The outcome of ending the child of a stopping server. Where it exited, every
/// pending request is failed, its status is kept, and the server is stopped.
/// Where a graceful stop failed, the stop turns forceful; where a forceful one
/// failed, the server is running again.
pub open spec fn terminated_spec(s: ServerView, outcome: Result<ExitStatus, String>) -> (
    ServerView,
    Result<(), LspError>,
) {
    match outcome {
        Ok(status) => (ServerView { last_exit: Some(status), ..fresh(s, SupervisorState::Stopped) }, Ok(())),
        Err(c) => if s.mode == StopMode::Graceful {
            (ServerView { mode: StopMode::Forceful, ..s }, Err(LspError::FailedToTerminate(c)))
        } else {
            (
                ServerView { state: SupervisorState::Running, mode: StopMode::Graceful, ..s },
                Err(LspError::FailedToKill(c)),
            )
        },
    }
}

/// Asking to restart: a running server stops first (`Ok(true)`: terminate the
/// child, then start); any other server but one with a child starts at once.
pub open spec fn restart_spec(s: ServerView) -> (ServerView, Result<bool, LspError>) {
    match s.state {
        SupervisorState::Running => (stop_spec(s, StopMode::Graceful).0, Ok(true)),
        SupervisorState::Starting | SupervisorState::Stopping => (s, Err(LspError::AlreadyStarted)),
        _ => (start_spec(s).0, Ok(false)),
    }
}

/// The child's output ended or a write failed: every pending request is failed
/// and the server is stopped.
pub open spec fn transport_closed_spec(s: ServerView) -> ServerView {
    fresh(s, SupervisorState::Stopped)
}

/// Asking to send the initialize request: valid only while running and not
/// yet initialized; it takes a fresh identifier.
pub open spec fn begin_initialize_spec(s: ServerView) -> (ServerView, Result<u64, LspError>) {
    if s.state != SupervisorState::Running {
        (s, Err(LspError::NotRunning))
    } else if s.initialized {
        (s, Err(LspError::AlreadyInitialized))
    } else if s.shutdown_requested {
        (s, Err(LspError::AlreadyShutdown))
    } else {
        let (p, r) = allocate_spec(s.pending);
        (ServerView { pending: p, ..s }, r)
    }
}

/// Sending `exit`: valid while running; the server then stops gracefully,
/// its input closed and its exit awaited.
pub open spec fn exit_spec(s: ServerView) -> (ServerView, Result<(), LspError>) {
    if s.state == SupervisorState::Running {
        (ServerView { state: SupervisorState::Stopping, mode: StopMode::Graceful, ..s }, Ok(()))
    } else {
        (s, Err(LspError::NotRunning))
    }
}

/// The body of the `exit` notification, whose parameters are `null`.
pub open spec fn exit_body() -> Seq<u8> {
    notification_body("exit".spec_bytes(), "null".spec_bytes())
}

/// The response to the initialize request `id`: it resolves the entry; a
/// successful one completes the initialization, an error one is handed to the
/// caller as `InitializeRejected`, and the session then fails: only `exit`
/// may follow.
pub open spec fn complete_initialize_spec(s: ServerView, id: u64, ok: bool) -> (
    ServerView,
    Result<(), LspError>,
) {
    let (p, r) = resolve_spec(s.pending, id);
    if r is Err {
        (s, r)
    } else if !ok {
        (
            ServerView {
                pending: p,
                shutdown_requested: s.shutdown_requested || s.state == SupervisorState::Running,
                ..s
            },
            Err(LspError::InitializeRejected),
        )
    } else if s.state == SupervisorState::Running {
        (ServerView { pending: p, initialized: true, ..s }, Ok(()))
    } else {
        (ServerView { pending: p, ..s }, Ok(()))
    }
}

/// What any request but initialize needs: running, initialized, no
/// shutdown requested.
pub open spec fn ready_spec(s: ServerView) -> Result<(), LspError> {
    if s.state != SupervisorState::Running {
        Err(LspError::NotRunning)
    } else if s.shutdown_requested {
        Err(LspError::AlreadyShutdown)
    } else if !s.initialized {
        Err(LspError::NotInitialized)
    } else {
        Ok(())
    }
}

/// Issuing a request: when the server is ready it takes a fresh identifier.
pub open spec fn request_spec(s: ServerView) -> (ServerView, Result<u64, LspError>) {
    match ready_spec(s) {
        Err(e) => (s, Err(e)),
        Ok(_) => {
            let (p, r) = allocate_spec(s.pending);
            (ServerView { pending: p, ..s }, r)
        },
    }
}

/// Issuing the shutdown request: when the server is ready it takes a fresh identifier,
/// and from then on only `exit` may be sent.
pub open spec fn shutdown_spec(s: ServerView) -> (ServerView, Result<u64, LspError>) {
    match request_spec(s) {
        (t, Ok(id)) => (ServerView { shutdown_requested: true, ..t }, Ok(id)),
        other => other,
    }
}

/// The server's own response to a pending request.
pub open spec fn response_spec(s: ServerView, id: u64) -> (ServerView, Result<(), LspError>) {
    let (p, r) = resolve_spec(s.pending, id);
    (ServerView { pending: p, ..s }, r)
}

/// The method names a list of registered handlers covers.
pub open spec fn methods_view(v: Seq<Vec<u8>>) -> Set<Seq<u8>> {
    Set::new(|m: Seq<u8>| exists|i: int| 0 <= i < v.len() && (#[trigger] v[i])@ == m)
}

fn same_bytes(a: &[u8], b: &[u8]) -> (r: bool)
    ensures
        r == (a@ == b@),
{
    if a.len() != b.len() {
        return false;
    }
    let mut i: usize = 0;
    while i < a.len()
        invariant
            i <= a@.len(),
            a@.len() == b@.len(),
            forall|k: int| 0 <= k < i ==> a@[k] == b@[k],
        decreases a@.len() - i,
    {
        if a[i] != b[i] {
            return false;
        }
        i = i + 1;
    }
    assert(a@ =~= b@);
    true
}

fn has_method(v: &Vec<Vec<u8>>, m: &[u8]) -> (r: bool)
    ensures
        r == methods_view(v@).contains(m@),
{
    let mut i: usize = 0;
    while i < v.len()
        invariant
            i <= v@.len(),
            forall|k: int| 0 <= k < i ==> (#[trigger] v@[k])@ != m@,
        decreases v@.len() - i,
    {
        if same_bytes(v[i].as_slice(), m) {
            return true;
        }
        i = i + 1;
    }
    false
}

fn add_method(v: &mut Vec<Vec<u8>>, m: &[u8])
    ensures
        methods_view(final(v)@) == methods_view(old(v)@).insert(m@),
{
    let ghost before = v@;
    v.push(vstd::slice::slice_to_vec(m));
    assert forall|x: Seq<u8>| methods_view(v@).contains(x) <==> methods_view(before).insert(m@).contains(x) by {
        if methods_view(before).contains(x) {
            let i = choose|i: int| 0 <= i < before.len() && (#[trigger] before[i])@ == x;
            assert(v@[i]@ == x);
        }
        if x == m@ {
            assert(v@[before.len() as int]@ == x);
        }
        if methods_view(v@).contains(x) && x != m@ {
            let i = choose|i: int| 0 <= i < v@.len() && (#[trigger] v@[i])@ == x;
            assert(before[i]@ == x);
        }
    }
    assert(methods_view(v@) =~= methods_view(before).insert(m@));
}

/// What to do with an inbound message while awaiting a response.
#[derive(Clone, PartialEq, Eq, Debug)]
pub enum Step {
    /// The awaited response arrived, with the JSON text of its `result` and
    /// `error` members.
    Completed { result: Option<Vec<u8>>, error: Option<Vec<u8>> },
    /// The response to another pending request `id` arrived.
    Resolved { id: u64, result: Option<Vec<u8>>, error: Option<Vec<u8>> },
    /// Hand the server's request to its registered handler and answer it with
    /// `response_frame(id, ..)`.
    Dispatch { id: Vec<u8>, method: Vec<u8>, params: Option<Vec<u8>> },
    /// Hand the notification to its registered handler.
    Notify { method: Vec<u8>, params: Option<Vec<u8>> },
    /// Send this frame back to the server.
    Reply(Vec<u8>),
    /// A response that no pending request awaits.
    Stray,
    /// A message that breaks the protocol: neither request, response nor
    /// notification, or not JSON and without an identifier. It is recorded.
    Violation,
    /// A notification that no handler takes, dropped.
    Ignored,
}

/// A language server as its supervisor and session see it.
pub struct LspServer {
    language: Language,
    workspace: String,
    state: SupervisorState,
    initialized: bool,
    shutdown_requested: bool,
    pending: PendingTable,
    mode: StopMode,
    last_exit: Option<ExitStatus>,
    request_methods: Vec<Vec<u8>>,
    notification_methods: Vec<Vec<u8>>,
}

impl View for LspServer {
    type V = ServerView;

    closed spec fn view(&self) -> ServerView {
        ServerView {
            language: self.language,
            state: self.state,
            initialized: self.initialized,
            shutdown_requested: self.shutdown_requested,
            pending: self.pending@,
            mode: self.mode,
            last_exit: self.last_exit,
            request_methods: methods_view(self.request_methods@),
            notification_methods: methods_view(self.notification_methods@),
        }
    }
}

impl LspServer {
    /// The pending table is well formed and the abstract invariant holds.
    pub closed spec fn wf(&self) -> bool {
        &&& self.pending.wf()
        &&& server_inv(self@)
    }

    /// The workspace root the server was created for.
    pub closed spec fn workspace_view(&self) -> Seq<char> {
        self.workspace@
    }

    /// A server for `language` rooted at `workspace`, not started.
    pub fn new(language: Language, workspace: String) -> (r: LspServer)
        ensures
            r.wf(),
            r@ == (ServerView {
                language,
                state: SupervisorState::NotStarted,
                initialized: false,
                shutdown_requested: false,
                pending: PendingView { next: 1, ids: Set::empty() },
                mode: StopMode::Graceful,
                last_exit: None,
                request_methods: Set::empty(),
                notification_methods: Set::empty(),
            }),
            r.workspace_view() == workspace@,
    {
        let r = LspServer {
            language,
            workspace,
            state: SupervisorState::NotStarted,
            initialized: false,
            shutdown_requested: false,
            pending: PendingTable::new(),
            mode: StopMode::Graceful,
            last_exit: None,
            request_methods: Vec::new(),
            notification_methods: Vec::new(),
        };
        assert(methods_view(r.request_methods@) =~= Set::empty());
        assert(methods_view(r.notification_methods@) =~= Set::empty());
        r
    }

    /// What a well-formed server gives its callers: the abstract invariant,
    /// under which every pending identifier is below the next one handed out.
    pub proof fn lemma_wf(&self)
        requires
            self.wf(),
        ensures
            server_inv(self@),
            pending_inv(self@.pending),
    {
    }

    /// How the child last exited, if it did.
    pub fn last_exit(&self) -> (r: Option<ExitStatus>)
        ensures
            r == self@.last_exit,
    {
        self.last_exit
    }

    /// The mode of the stop under way.
    pub fn stop_mode(&self) -> (r: StopMode)
        ensures
            r == self@.mode,
    {
        self.mode
    }

    /// The workspace root.
    pub fn workspace(&self) -> (r: &str)
        ensures
            r@ == self.workspace_view(),
    {
        self.workspace.as_str()
    }

    /// The language the server is for.
    pub fn language(&self) -> (r: Language)
        ensures
            r == self@.language,
    {
        self.language
    }

    /// The current supervisor state.
    pub fn state(&self) -> (r: SupervisorState)
        ensures
            r == self@.state,
    {
        self.state
    }

    /// Whether the initialize exchange has completed.
    pub fn is_initialized(&self) -> (r: bool)
        ensures
            r == self@.initialized,
    {
        self.initialized
    }

    /// Whether the shutdown request was sent.
    pub fn is_shutdown_requested(&self) -> (r: bool)
        ensures
            r == self@.shutdown_requested,
    {
        self.shutdown_requested
    }

    /// Whether a request with identifier `id` awaits its response.
    pub fn is_pending(&self, id: u64) -> (r: bool)
        requires
            self.wf(),
        ensures
            r == self@.pending.ids.contains(id),
    {
        self.pending.contains(id)
    }

    /// Whether no request awaits its response.
    pub fn no_pending(&self) -> (r: bool)
        requires
            self.wf(),
        ensures
            r == (self@.pending.ids == Set::<u64>::empty()),
    {
        self.pending.is_empty()
    }

    /// Ok exactly when the server is running.
    pub fn started(&self) -> (r: Result<(), LspError>)
        ensures
            r == started_spec(self@),
    {
        match self.state {
            SupervisorState::Running => Ok(()),
            _ => Err(LspError::NotRunning),
        }
    }

    fn reset(&mut self, state: SupervisorState)
        requires
            old(self).wf(),
        ensures
            final(self).wf(),
            final(self)@ == fresh(old(self)@, state),
            final(self).workspace_view() == old(self).workspace_view(),
    {
        let _ = self.pending.fail_all();
        self.state = state;
        self.initialized = false;
        self.shutdown_requested = false;
        self.mode = StopMode::Graceful;
    }

    /// Asks to start the server. On success the server is starting and the
    /// result names the executable to spawn; report the outcome with `spawned`.
    pub fn start(&mut self) -> (r: Result<&'static str, LspError>)
        requires
            old(self).wf(),
        ensures
            final(self).wf(),
            final(self).workspace_view() == old(self).workspace_view(),
            final(self)@ == start_spec(old(self)@).0,
            r is Ok <==> start_spec(old(self)@).1 is Ok,
            r is Err ==> r == Err::<&'static str, LspError>(start_spec(old(self)@).1->Err_0),
            r is Ok ==> r->Ok_0@ == program_of(old(self)@.language),
    {
        match self.state {
            SupervisorState::Starting | SupervisorState::Running | SupervisorState::Stopping => {
                Err(LspError::AlreadyStarted)
            },
            _ => {
                self.reset(SupervisorState::Starting);
                Ok(self.language.program())
            },
        }
    }

    /// Reports the spawn of the child of a starting server: `None` where it
    /// was spawned, else the failure's text.
    pub fn spawned(&mut self, failure: Option<String>) -> (r: Result<(), LspError>)
        requires
            old(self).wf(),
            old(self)@.state == SupervisorState::Starting,
        ensures
            final(self).wf(),
            final(self).workspace_view() == old(self).workspace_view(),
            (final(self)@, r) == spawned_spec(old(self)@, failure),
    {
        match failure {
            None => {
                self.reset(SupervisorState::Running);
                Ok(())
            },
            Some(c) => {
                self.reset(SupervisorState::Stopped);
                Err(LspError::SpawnFailed(c))
            },
        }
    }

    /// Asks to stop the server. On success the server is stopping in `mode`;
    /// end the child that way and report the outcome with `terminated`.
    pub fn stop(&mut self, mode: StopMode) -> (r: Result<(), LspError>)
        requires
            old(self).wf(),
        ensures
            final(self).wf(),
            final(self).workspace_view() == old(self).workspace_view(),
            (final(self)@, r) == stop_spec(old(self)@, mode),
    {
        self.started()?;
        self.state = SupervisorState::Stopping;
        self.mode = mode;
        Ok(())
    }

    /// Reports how ending the child of a stopping server went: its exit
    /// status, or the failure's text. Where it exited, the identifiers of the
    /// requests it failed are handed back, to be failed with `TransportClosed`.
    pub fn terminated(&mut self, outcome: Result<ExitStatus, String>) -> (r: Result<Vec<u64>, LspError>)
        requires
            old(self).wf(),
            old(self)@.state == SupervisorState::Stopping,
        ensures
            final(self).wf(),
            final(self).workspace_view() == old(self).workspace_view(),
            final(self)@ == terminated_spec(old(self)@, outcome).0,
            r is Ok <==> terminated_spec(old(self)@, outcome).1 is Ok,
            r is Err ==> r == Err::<Vec<u64>, LspError>(terminated_spec(old(self)@, outcome).1->Err_0),
            r is Ok ==> r->Ok_0@.no_duplicates() && forall|x: u64|
                r->Ok_0@.contains(x) <==> old(self)@.pending.ids.contains(x),
    {
        match outcome {
            Ok(status) => {
                let failed = self.pending.fail_all();
                self.state = SupervisorState::Stopped;
                self.initialized = false;
                self.shutdown_requested = false;
                self.mode = StopMode::Graceful;
                self.last_exit = Some(status);
                Ok(failed)
            },
            Err(c) => {
                match self.mode {
                    StopMode::Graceful => {
                        self.mode = StopMode::Forceful;
                        Err(LspError::FailedToTerminate(c))
                    },
                    StopMode::Forceful => {
                        self.state = SupervisorState::Running;
                        self.mode = StopMode::Graceful;
                        Err(LspError::FailedToKill(c))
                    },
                }
            },
        }
    }

    /// Asks to restart the server. `Ok(true)`: the server is stopping; terminate
    /// the child, report with `terminated`, then `start`. `Ok(false)`: the server is
    /// already starting from scratch; spawn and report with `spawned`.
    pub fn restart(&mut self) -> (r: Result<bool, LspError>)
        requires
            old(self).wf(),
        ensures
            final(self).wf(),
            final(self).workspace_view() == old(self).workspace_view(),
            (final(self)@, r) == restart_spec(old(self)@),
    {
        match self.state {
            SupervisorState::Running => {
                self.state = SupervisorState::Stopping;
                self.mode = StopMode::Graceful;
                Ok(true)
            },
            SupervisorState::Starting | SupervisorState::Stopping => Err(LspError::AlreadyStarted),
            _ => {
                self.reset(SupervisorState::Starting);
                Ok(false)
            },
        }
    }

    /// The transport closed (end of stream or a failed write): every pending
    /// request is failed, and their identifiers are handed back.
    pub fn transport_closed(&mut self) -> (r: Vec<u64>)
        requires
            old(self).wf(),
        ensures
            final(self).wf(),
            final(self).workspace_view() == old(self).workspace_view(),
            final(self)@ == transport_closed_spec(old(self)@),
            r@.no_duplicates(),
            forall|x: u64| r@.contains(x) <==> old(self)@.pending.ids.contains(x),
    {
        let r = self.pending.fail_all();
        self.state = SupervisorState::Stopped;
        self.initialized = false;
        self.shutdown_requested = false;
        self.mode = StopMode::Graceful;
        r
    }

    /// Takes the identifier of the initialize request.
    pub fn begin_initialize(&mut self) -> (r: Result<u64, LspError>)
        requires
            old(self).wf(),
        ensures
            final(self).wf(),
            final(self).workspace_view() == old(self).workspace_view(),
            (final(self)@, r) == begin_initialize_spec(old(self)@),
    {
        self.started()?;
        if self.initialized {
            return Err(LspError::AlreadyInitialized);
        }
        if self.shutdown_requested {
            return Err(LspError::AlreadyShutdown);
        }
        self.pending.allocate()
    }

    /// Prepares the initialize request for the workspace root: its identifier
    /// and its frame.
    pub fn initialize_lsp(&mut self) -> (r: Result<(u64, Vec<u8>), LspError>)
        requires
            old(self).wf(),
        ensures
            final(self).wf(),
            final(self).workspace_view() == old(self).workspace_view(),
            final(self)@ == begin_initialize_spec(old(self)@).0,
            r is Ok <==> begin_initialize_spec(old(self)@).1 is Ok,
            r is Err ==> r == Err::<(u64, Vec<u8>), LspError>(begin_initialize_spec(old(self)@).1->Err_0),
            r is Ok ==> {
                &&& r->Ok_0.0 == begin_initialize_spec(old(self)@).1->Ok_0
                &&& r->Ok_0.1@ == encode_spec(
                    Seq::empty(),
                    request_body(
                        r->Ok_0.0 as nat,
                        "initialize".spec_bytes(),
                        initialize_params_json(old(self).workspace_view()),
                    ),
                )
            },
    {
        let id = self.begin_initialize()?;
        let frame = initialize_frame(id, self.workspace.as_str());
        Ok((id, frame))
    }

    /// Reports the response to the initialize request `id`. A successful one
    /// completes the initialization and hands back the `initialized`
    /// notification to send; an error one gives `InitializeRejected`.
    pub fn complete_initialize(&mut self, id: u64, ok: bool) -> (r: Result<Vec<u8>, LspError>)
        requires
            old(self).wf(),
        ensures
            final(self).wf(),
            final(self).workspace_view() == old(self).workspace_view(),
            final(self)@ == complete_initialize_spec(old(self)@, id, ok).0,
            r is Ok <==> complete_initialize_spec(old(self)@, id, ok).1 is Ok,
            r is Err ==> r == Err::<Vec<u8>, LspError>(complete_initialize_spec(old(self)@, id, ok).1->Err_0),
            r is Ok ==> r->Ok_0@ == encode_spec(Seq::empty(), initialized_body()),
    {
        self.pending.resolve(id)?;
        if !ok {
            if let SupervisorState::Running = self.state {
                self.shutdown_requested = true;
            }
            return Err(LspError::InitializeRejected);
        }
        if let SupervisorState::Running = self.state {
            self.initialized = true;
        }
        Ok(initialized_frame())
    }

    fn ready(&self) -> (r: Result<(), LspError>)
        ensures
            r == ready_spec(self@),
    {
        self.started()?;
        if self.shutdown_requested {
            return Err(LspError::AlreadyShutdown);
        }
        if !self.initialized {
            return Err(LspError::NotInitialized);
        }
        Ok(())
    }

    /// Issues a request, handing back its fresh identifier.
    pub fn request(&mut self) -> (r: Result<u64, LspError>)
        requires
            old(self).wf(),
        ensures
            final(self).wf(),
            final(self).workspace_view() == old(self).workspace_view(),
            (final(self)@, r) == request_spec(old(self)@),
    {
        self.ready()?;
        self.pending.allocate()
    }

    /// Sends `exit`: hands back its notification and leaves the server
    /// stopping gracefully; report how the child ended with `terminated`.
    pub fn exit(&mut self) -> (r: Result<Vec<u8>, LspError>)
        requires
            old(self).wf(),
        ensures
            final(self).wf(),
            final(self).workspace_view() == old(self).workspace_view(),
            final(self)@ == exit_spec(old(self)@).0,
            r is Ok <==> exit_spec(old(self)@).1 is Ok,
            r is Err ==> r == Err::<Vec<u8>, LspError>(LspError::NotRunning),
            r is Ok ==> r->Ok_0@ == encode_spec(Seq::empty(), exit_body()),
    {
        self.started()?;
        self.state = SupervisorState::Stopping;
        self.mode = StopMode::Graceful;
        Ok(notification_frame("exit", "null".as_bytes()))
    }

    /// Issues the shutdown request, handing back its identifier.
    pub fn shutdown(&mut self) -> (r: Result<u64, LspError>)
        requires
            old(self).wf(),
        ensures
            final(self).wf(),
            final(self).workspace_view() == old(self).workspace_view(),
            (final(self)@, r) == shutdown_spec(old(self)@),
    {
        let id = self.request()?;
        self.shutdown_requested = true;
        Ok(id)
    }

    /// The `$/cancelRequest` notice for request `id`, where it is pending. The
    /// entry stays installed until the server answers it.
    pub fn cancel(&self, id: u64) -> (r: Option<Vec<u8>>)
        requires
            self.wf(),
        ensures
            r is Some <==> self@.pending.ids.contains(id),
            r is Some ==> r->Some_0@ == encode_spec(
                Seq::empty(),
                notification_body("$/cancelRequest".spec_bytes(), cancel_params(id as nat)),
            ),
    {
        if self.pending.contains(id) {
            Some(cancel_frame(id))
        } else {
            None
        }
    }

    /// Registers a handler for server requests of `method`.
    pub fn on_request(&mut self, method: &str)
        requires
            old(self).wf(),
        ensures
            final(self).wf(),
            final(self).workspace_view() == old(self).workspace_view(),
            final(self)@ == (ServerView {
                request_methods: old(self)@.request_methods.insert(method.spec_bytes()),
                ..old(self)@
            }),
    {
        add_method(&mut self.request_methods, method.as_bytes());
    }

    /// Registers a handler for notifications of `method`.
    pub fn on_notification(&mut self, method: &str)
        requires
            old(self).wf(),
        ensures
            final(self).wf(),
            final(self).workspace_view() == old(self).workspace_view(),
            final(self)@ == (ServerView {
                notification_methods: old(self)@.notification_methods.insert(method.spec_bytes()),
                ..old(self)@
            }),
    {
        add_method(&mut self.notification_methods, method.as_bytes());
    }

    /// Decides what an inbound message means while request `awaiting` waits
    /// for its response: a response resolves its entry and carries its result
    /// or error to its caller; a server request goes to its handler, or gets
    /// `MethodNotFound`; a notification goes to its handler, or is dropped; a
    /// body that is not JSON gets `ParseError` where it appears to carry an
    /// identifier; anything else is a protocol violation.
    pub fn on_inbound(&mut self, awaiting: u64, msg: Inbound) -> (r: Step)
        requires
            old(self).wf(),
        ensures
            final(self).wf(),
            final(self).workspace_view() == old(self).workspace_view(),
            match msg {
                Inbound::Response { id: Some(i), result, error } => {
                    &&& final(self)@ == response_spec(old(self)@, i).0
                    &&& r == if response_spec(old(self)@, i).1 is Err {
                        Step::Stray
                    } else if i == awaiting {
                        Step::Completed { result, error }
                    } else {
                        Step::Resolved { id: i, result, error }
                    }
                },
                Inbound::Response { id: None, .. } => final(self)@ == old(self)@ && r == Step::Stray,
                Inbound::ServerRequest { id, method, params } => {
                    &&& final(self)@ == old(self)@
                    &&& if old(self)@.request_methods.contains(method@) {
                        r == Step::Dispatch { id, method, params }
                    } else {
                        r is Reply && r->Reply_0@ == encode_spec(Seq::empty(), method_not_found_body(id@))
                    }
                },
                Inbound::Notification { method, params } => {
                    &&& final(self)@ == old(self)@
                    &&& r == if old(self)@.notification_methods.contains(method@) {
                        Step::Notify { method, params }
                    } else {
                        Step::Ignored
                    }
                },
                Inbound::Invalid => final(self)@ == old(self)@ && r == Step::Violation,
                Inbound::Unparseable { mentions_id } => {
                    &&& final(self)@ == old(self)@
                    &&& if mentions_id {
                        r is Reply && r->Reply_0@ == encode_spec(Seq::empty(), parse_error_body())
                    } else {
                        r == Step::Violation
                    }
                },
            },
    {
        match msg {
            Inbound::Response { id: Some(i), result, error } => {
                match self.pending.resolve(i) {
                    Err(_) => Step::Stray,
                    Ok(()) => {
                        if i == awaiting {
                            Step::Completed { result, error }
                        } else {
                            Step::Resolved { id: i, result, error }
                        }
                    },
                }
            },
            Inbound::Response { id: None, .. } => Step::Stray,
            Inbound::ServerRequest { id, method, params } => {
                if has_method(&self.request_methods, method.as_slice()) {
                    Step::Dispatch { id, method, params }
                } else {
                    Step::Reply(method_not_found_frame(id.as_slice()))
                }
            },
            Inbound::Notification { method, params } => {
                if has_method(&self.notification_methods, method.as_slice()) {
                    Step::Notify { method, params }
                } else {
                    Step::Ignored
                }
            },
            Inbound::Invalid => Step::Violation,
            Inbound::Unparseable { mentions_id } => {
                if mentions_id {
                    Step::Reply(parse_error_frame())
                } else {
                    Step::Violation
                }
            },
        }
    }

    /// Reports the server's response to request `id`: the entry is removed, or
    /// the response is stray.
    pub fn response(&mut self, id: u64) -> (r: Result<(), LspError>)
        requires
            old(self).wf(),
        ensures
            final(self).wf(),
            final(self).workspace_view() == old(self).workspace_view(),
            (final(self)@, r) == response_spec(old(self)@, id),
    {
        self.pending.resolve(id)
    }
}

/// Stopping twice: once a stop has succeeded and the child exited, a second
/// stop is refused with `NotRunning` and changes nothing.
pub proof fn lemma_stop_twice(s: ServerView, mode: StopMode, status: ExitStatus, again: StopMode)
    requires
        server_inv(s),
        stop_spec(s, mode).1 is Ok,
    ensures
        ({
            let t = terminated_spec(stop_spec(s, mode).0, Ok(status)).0;
            &&& stop_spec(t, again).1 == Err::<(), LspError>(LspError::NotRunning)
            &&& stop_spec(t, again).0 == t
            &&& t.state == SupervisorState::Stopped
            &&& t.pending.ids == Set::<u64>::empty()
            &&& t.last_exit == Some(status)
        }),
{
}

/// A graceful stop that fails turns forceful; the forceful stop that ends the
/// child leaves the server stopped with nothing pending.
pub proof fn lemma_stop_escalates(s: ServerView, failure: String, status: ExitStatus)
    requires
        server_inv(s),
        s.state == SupervisorState::Stopping,
        s.mode == StopMode::Graceful,
    ensures
        ({
            let (t, r) = terminated_spec(s, Err(failure));
            let (u, q) = terminated_spec(t, Ok(status));
            &&& r == Err::<(), LspError>(LspError::FailedToTerminate(failure))
            &&& t.state == SupervisorState::Stopping
            &&& t.mode == StopMode::Forceful
            &&& q is Ok
            &&& u.state == SupervisorState::Stopped
            &&& u.pending.ids == Set::<u64>::empty()
            &&& server_inv(u)
        }),
{
}

/// Whatever state a server is in, unless a child is being started or
/// stopped, a restart whose old child exits (after a graceful stop, or after
/// the forceful one it escalates to) and whose new child spawns leaves it
/// running, uninitialized, with no shutdown requested and no pending entry;
/// the initialize request is then accepted.
pub proof fn lemma_restart_fresh(s: ServerView, escalated: bool, failure: String, status: ExitStatus)
    requires
        server_inv(s),
        s.state != SupervisorState::Starting,
        s.state != SupervisorState::Stopping,
        s.pending.next < u64::MAX,
    ensures
        restart_spec(s).1 is Ok,
        ({
            let (t, r) = restart_spec(s);
            let t2 = if escalated { terminated_spec(t, Err(failure)).0 } else { t };
            let u = if r == Ok::<bool, LspError>(true) {
                start_spec(terminated_spec(t2, Ok(status)).0).0
            } else {
                t
            };
            let (v, q) = spawned_spec(u, None);
            &&& q is Ok
            &&& u.state == SupervisorState::Starting
            &&& v.state == SupervisorState::Running
            &&& !v.initialized
            &&& !v.shutdown_requested
            &&& v.pending.ids == Set::<u64>::empty()
            &&& v.pending.next >= s.pending.next
            &&& server_inv(v)
            &&& begin_initialize_spec(v).1 is Ok
        }),
{
}

/// The initialize handshake: a running server that is not yet initialized
/// accepts the initialize request, and a successful response to it completes
/// the initialization and resolves its entry.
pub proof fn lemma_initialize_handshake(s: ServerView)
    requires
        server_inv(s),
        s.state == SupervisorState::Running,
        !s.initialized,
        !s.shutdown_requested,
        s.pending.next < u64::MAX,
    ensures
        ({
            let (t, r) = begin_initialize_spec(s);
            let (u, q) = complete_initialize_spec(t, r->Ok_0, true);
            &&& r is Ok
            &&& t.pending.ids.contains(r->Ok_0)
            &&& !s.pending.ids.contains(r->Ok_0)
            &&& q is Ok
            &&& u.initialized
            &&& u.pending.ids == s.pending.ids
            &&& ready_spec(u) is Ok
            &&& server_inv(u)
        }),
{
    assert(begin_initialize_spec(s).0.pending.ids.remove(begin_initialize_spec(s).1->Ok_0) =~= s.pending.ids);
}

/// Crash recovery: once the transport closed, nothing is pending and a
/// request is refused with `NotRunning`; a restart then starts afresh, and once
/// the new child is spawned the initialize request is accepted.
pub proof fn lemma_crash_recovery(s: ServerView)
    requires
        server_inv(s),
        s.pending.next < u64::MAX,
    ensures
        ({
            let t = transport_closed_spec(s);
            let (u, r) = restart_spec(t);
            let (v, q) = spawned_spec(u, None);
            &&& t.pending.ids == Set::<u64>::empty()
            &&& request_spec(t).1 == Err::<u64, LspError>(LspError::NotRunning)
            &&& r == Ok::<bool, LspError>(false)
            &&& q is Ok
            &&& v.state == SupervisorState::Running
            &&& !v.initialized
            &&& begin_initialize_spec(v).1 is Ok
        }),
{
}

} // verus!
