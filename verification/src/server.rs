//! Lifecycle controller of the reverse proxy server singleton. The listener,
//! the accept loop and its task handle live in the surrounding application;
//! every state decision — when to bind, when a start or stop is a no-op —
//! is made here. Start and stop are both idempotent, and a start is only
//! performed when the operation mode is Proxy.

use vstd::prelude::*;

verus! {

/// The two mutually exclusive operation modes: clients hold real
/// credentials themselves (Direct) or point at the local failover proxy
/// (Proxy).
#[derive(Clone, Copy, PartialEq, Eq, Structural, Debug)]
pub enum OperationMode {
    Direct,
    Proxy,
}

/// Lifecycle phases of the proxy server.
#[derive(Clone, Copy, PartialEq, Eq, Structural, Debug)]
pub enum ServerPhase {
    Stopped,
    Starting,
    Running,
    Stopping,
}

/// What the application must do after asking for a start.
#[derive(Clone, Copy, PartialEq, Eq, Structural, Debug)]
pub enum StartAction {
    /// The operation mode is not Proxy: the start is a successful no-op.
    NotProxyMode,
    /// The server is already starting or running: a successful no-op.
    AlreadyRunning,
    /// Bind the listener, spawn the accept loop, and report back.
    Bind,
}

/// What the application must do after asking for a stop.
#[derive(Clone, Copy, PartialEq, Eq, Structural, Debug)]
pub enum StopAction {
    /// The server is not running: a successful no-op.
    NotRunning,
    /// Abort the accept-loop task (no draining), and report back.
    Abort,
}

/// The proxy server's lifecycle state.
pub struct ProxyServer {
    pub phase: ServerPhase,
}

impl ProxyServer {
    /// A fresh, stopped controller.
    pub fn init() -> (r: ProxyServer)
        ensures
            r.phase == ServerPhase::Stopped,
    {
        ProxyServer { phase: ServerPhase::Stopped }
    }

    /// A start request. Only a stopped server in Proxy mode binds; anything
    /// else is a successful no-op, so starting twice changes nothing.
    pub fn on_start(&mut self, mode: OperationMode) -> (a: StartAction)
        ensures
            mode is Direct ==> a is NotProxyMode && *final(self) == *old(self),
            mode is Proxy && !(old(self).phase is Stopped) ==> a is AlreadyRunning && *final(self)
                == *old(self),
            mode is Proxy && old(self).phase is Stopped ==> a is Bind && final(self).phase
                is Starting,
    {
        match mode {
            OperationMode::Direct => StartAction::NotProxyMode,
            OperationMode::Proxy => {
                match self.phase {
                    ServerPhase::Stopped => {
                        self.phase = ServerPhase::Starting;
                        StartAction::Bind
                    },
                    _ => StartAction::AlreadyRunning,
                }
            },
        }
    }

    /// The bind-and-spawn outcome: success means the server runs; failure
    /// returns it to stopped.
    pub fn on_bound(&mut self, ok: bool)
        requires
            old(self).phase is Starting,
        ensures
            ok ==> final(self).phase is Running,
            !ok ==> final(self).phase is Stopped,
    {
        if ok {
            self.phase = ServerPhase::Running;
        } else {
            self.phase = ServerPhase::Stopped;
        }
    }

    /// A stop request. A stopped server is a successful no-op, so stopping
    /// twice changes nothing; anything else aborts the task unconditionally.
    pub fn on_stop(&mut self) -> (a: StopAction)
        ensures
            old(self).phase is Stopped ==> a is NotRunning && *final(self) == *old(self),
            !(old(self).phase is Stopped) ==> a is Abort && final(self).phase is Stopping,
    {
        match self.phase {
            ServerPhase::Stopped => StopAction::NotRunning,
            _ => {
                self.phase = ServerPhase::Stopping;
                StopAction::Abort
            },
        }
    }

    /// The abort completed: the server is stopped.
    pub fn on_aborted(&mut self)
        requires
            old(self).phase is Stopping,
        ensures
            final(self).phase is Stopped,
    {
        self.phase = ServerPhase::Stopped;
    }
}

} // verus!
