//! The service supervisor's state machine.
//!
//! The supervisor ensures one backend service is reachable on the
//! well-known port, starting it when the port is free and tearing it
//! down on shutdown. The probe, the spawn and the kill are outside work;
//! the decisions — whether to spawn, what to terminate, when a stop is
//! a no-op — are taken here, as pure transitions on the supervisor's
//! state, so the driving loop performs exactly the actions this module
//! hands out.
//!
//! Stop policy: an owned handle is terminated by its process identity;
//! without a handle — the service predated this instance — the stop is
//! a deliberate best-effort: the current listener on the well-known port
//! is discovered and terminated. That trades isolation for the observed
//! "one user session, one service instance" behavior and is a policy
//! choice, not an oversight.

use vstd::prelude::*;
use crate::config::SERVICE_PORT;

verus! {

/// The supervised backend process, created only when this application
/// instance spawned it.
pub struct ServiceHandle {
    /// Platform process identity.
    pub pid: u32,
    /// The port the service was started on.
    pub port: u16,
    /// Start timestamp, seconds.
    pub started_at: u64,
}

/// The supervisor's lifecycle phase.
pub enum Phase {
    /// Nothing probed or spawned yet.
    NotStarted,
    /// A spawn was requested and its outcome is pending.
    Starting,
    /// A service is assumed reachable on the port.
    Running,
    /// A stop action was handed out and its completion is pending.
    Stopping,
    /// Shut down; every later stop is a no-op.
    Stopped,
}

/// What the driving loop must do after a probe decision.
pub enum StartDecision {
    /// The port was occupied: use the existing service, spawn nothing.
    UseExisting,
    /// Spawn the service on this port, in the state directory.
    Spawn {
        /// The port to start the service on.
        port: u16,
    },
}

/// What the driving loop must do to stop the service.
pub enum StopAction {
    /// Terminate the process this instance spawned, and wait for it.
    TerminateOwned {
        /// The owned process's identity.
        pid: u32,
    },
    /// Discover the current listener on the port and terminate it.
    TerminateListener {
        /// The well-known port to inspect.
        port: u16,
    },
    /// Nothing to do: the supervisor already stopped.
    Nothing,
}

/// The supervisor: at most one handle per application instance, owned
/// here and nowhere else.
pub struct Supervisor {
    /// The lifecycle phase.
    pub phase: Phase,
    /// The owned process, if this instance spawned one.
    pub handle: Option<ServiceHandle>,
}

/// A handle exists only while the service runs or its stop is pending
/// completion; the port was always this instance's well-known port.
pub open spec fn sup_wf(s: Supervisor) -> bool {
    match s.handle {
        Some(h) => (s.phase is Running) && h.port == SERVICE_PORT,
        None => true,
    }
}

/// The probe transition: an occupied port means an externally managed
/// service — no spawn, no handle; a free port means a spawn request.
pub open spec fn spec_on_probe(s: Supervisor, port_occupied: bool) -> (Supervisor, StartDecision) {
    if port_occupied {
        (Supervisor { phase: Phase::Running, handle: None }, StartDecision::UseExisting)
    } else {
        (Supervisor { phase: Phase::Starting, handle: None }, StartDecision::Spawn {
            port: SERVICE_PORT,
        })
    }
}

/// The spawn-outcome transition: a successful spawn creates the one
/// handle; a failed spawn is reported, not fatal — the supervisor just
/// returns to its initial phase.
pub open spec fn spec_on_spawn(s: Supervisor, outcome: Option<(u32, u64)>) -> Supervisor {
    match outcome {
        Some(o) => Supervisor {
            phase: Phase::Running,
            handle: Some(ServiceHandle { pid: o.0, port: SERVICE_PORT, started_at: o.1 }),
        },
        None => Supervisor { phase: Phase::NotStarted, handle: None },
    }
}

/// The stop transition: a no-op once stopped or already stopping; else
/// terminate the owned process when there is a handle, and fall back to
/// terminating whatever listens on the port when there is none.
pub open spec fn spec_stop(s: Supervisor) -> (Supervisor, StopAction) {
    if s.phase is Stopped || s.phase is Stopping {
        (s, StopAction::Nothing)
    } else {
        match s.handle {
            Some(h) => (
                Supervisor { phase: Phase::Stopping, handle: None },
                StopAction::TerminateOwned { pid: h.pid },
            ),
            None => (
                Supervisor { phase: Phase::Stopping, handle: None },
                StopAction::TerminateListener { port: SERVICE_PORT },
            ),
        }
    }
}

impl Supervisor {
    /// A supervisor that has done nothing yet.
    pub fn new() -> (s: Self)
        ensures
            s.phase is NotStarted,
            s.handle is None,
            sup_wf(s),
    {
        Supervisor { phase: Phase::NotStarted, handle: None }
    }

    /// Consumes the port probe's report. When the port is occupied the
    /// service is assumed externally managed: no spawn is requested and
    /// no handle is ever created. Otherwise a spawn is requested.
    pub fn on_probe(&mut self, port_occupied: bool) -> (d: StartDecision)
        requires
            old(self).phase is NotStarted,
            sup_wf(*old(self)),
        ensures
            sup_wf(*final(self)),
            (*final(self), d) == spec_on_probe(*old(self), port_occupied),
            port_occupied ==> (final(self).handle is None) && (d is UseExisting),
            !port_occupied ==> (final(self).phase is Starting) && (d matches StartDecision::Spawn {
                port,
            } && port == SERVICE_PORT),
    {
        if port_occupied {
            self.phase = Phase::Running;
            StartDecision::UseExisting
        } else {
            self.phase = Phase::Starting;
            StartDecision::Spawn { port: SERVICE_PORT }
        }
    }

    /// Consumes the spawn's outcome: the process identity and start
    /// timestamp on success. Success creates the one handle; failure is
    /// reported by the caller and leaves the supervisor ready again.
    pub fn on_spawn_result(&mut self, outcome: Option<(u32, u64)>)
        requires
            old(self).phase is Starting,
            sup_wf(*old(self)),
        ensures
            sup_wf(*final(self)),
            *final(self) == spec_on_spawn(*old(self), outcome),
            match outcome {
                Some(o) => final(self).handle == Some(
                    ServiceHandle { pid: o.0, port: SERVICE_PORT, started_at: o.1 },
                ) && (final(self).phase is Running),
                None => (final(self).handle is None) && (final(self).phase is NotStarted),
            },
    {
        match outcome {
            Some(o) => {
                self.handle = Some(ServiceHandle { pid: o.0, port: SERVICE_PORT, started_at: o.1 });
                self.phase = Phase::Running;
            },
            None => {
                self.handle = None;
                self.phase = Phase::NotStarted;
            },
        }
    }

    /// Decides the stop action. Owned process: terminate exactly it.
    /// No handle: best-effort termination of the port's listener. Once
    /// a stop is under way or done, stopping again does nothing.
    pub fn stop(&mut self) -> (a: StopAction)
        requires
            sup_wf(*old(self)),
        ensures
            sup_wf(*final(self)),
            (*final(self), a) == spec_stop(*old(self)),
            match old(self).handle {
                Some(h) => a == StopAction::TerminateOwned { pid: h.pid },
                None => !(old(self).phase is Stopped) && !(old(self).phase is Stopping) ==> a
                    == StopAction::TerminateListener { port: SERVICE_PORT },
            },
            (old(self).phase is Stopped) || (old(self).phase is Stopping) ==> a
                == StopAction::Nothing && *final(self) == *old(self),
            final(self).handle is None || *final(self) == *old(self),
    {
        match self.phase {
            Phase::Stopped => StopAction::Nothing,
            Phase::Stopping => StopAction::Nothing,
            _ => {
                let mut h: Option<ServiceHandle> = None;
                core::mem::swap(&mut h, &mut self.handle);
                self.phase = Phase::Stopping;
                match h {
                    Some(owned) => StopAction::TerminateOwned { pid: owned.pid },
                    None => StopAction::TerminateListener { port: SERVICE_PORT },
                }
            },
        }
    }

    /// Records that the stop action completed: the process exited, or
    /// the bounded wait ended in a forced kill.
    pub fn confirm_stopped(&mut self)
        requires
            old(self).phase is Stopping,
            sup_wf(*old(self)),
        ensures
            sup_wf(*final(self)),
            final(self).phase is Stopped,
            final(self).handle == old(self).handle,
    {
        self.phase = Phase::Stopped;
    }
}

/// Law: when the supervisor spawns, exactly one handle exists — for the
/// spawned process — and stopping terminates that specific process;
/// stopping a second time is a no-op.
pub proof fn lemma_stop_terminates_owned(s0: Supervisor, pid: u32, ts: u64)
    requires
        s0.phase is NotStarted,
        s0.handle is None,
    ensures
        ({
            let s1 = spec_on_probe(s0, false).0;
            let s2 = spec_on_spawn(s1, Some((pid, ts)));
            let (s3, a1) = spec_stop(s2);
            let (s4, a2) = spec_stop(s3);
            &&& s2.handle == Some(ServiceHandle { pid, port: SERVICE_PORT, started_at: ts })
            &&& a1 == StopAction::TerminateOwned { pid }
            &&& s3.handle is None
            &&& a2 == StopAction::Nothing
            &&& s4 == s3
        }),
{
}

/// Law: when the probe finds the port occupied, no spawn is requested
/// and no handle is ever created; the later stop can only be the
/// best-effort listener termination.
pub proof fn lemma_occupied_port_spawns_nothing(s0: Supervisor)
    requires
        s0.phase is NotStarted,
        s0.handle is None,
    ensures
        (spec_on_probe(s0, true).1 is UseExisting),
        (spec_on_probe(s0, true).0.handle is None),
        (spec_stop(spec_on_probe(s0, true).0).1 == StopAction::TerminateListener {
            port: SERVICE_PORT,
        }),
{
}

} // verus!
