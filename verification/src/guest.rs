//! The guest lifecycle engine, as a verified state machine: what to
//! spawn, what the handshake requires, when an operation is refused.
//!
//! Spawning, waiting and signalling are process I/O and live outside;
//! they feed the engine plain events — whether the child has exited,
//! which response arrived — and perform the commands and spawn plans it
//! hands back.

use vstd::prelude::*;
use vstd::string::*;
use crate::config::{CommandPlan, GuestConfig};
use crate::error::{Error, ErrorKind};
use crate::props::PropMap;
use crate::qmp::{qmp_error_of, Command, Execute, Response};

verus! {

/// Status of a guest.
#[derive(Clone, Copy, Debug, PartialEq, Eq, Structural)]
pub enum Status {
    Running,
    Stopped,
}

/// A guest: its document, the handles it holds, and where its remote
/// files are cached.  The handles themselves (child process, stdin
/// writer, stdout reader) live outside; the engine tracks whether they
/// are held.
pub struct Guest {
    config: GuestConfig,
    has_child: bool,
    has_pipes: bool,
    local_storage: String,
}

/// What a guest's status reads as, given whether its child has exited:
/// running exactly while a not-yet-exited child is held.
pub open spec fn spec_status(g: Guest, child_exited: bool) -> Status {
    if g.spec_has_child() && !child_exited {
        Status::Running
    } else {
        Status::Stopped
    }
}

/// The monitor channel arguments appended at spawn, never rendered by
/// the document itself.
pub open spec fn spec_monitor_args() -> Seq<Seq<char>> {
    seq!["-chardev"@, "stdio,id=mon0"@, "-mon"@, "chardev=mon0,mode=control"@]
}

/// Where the handshake stands.
#[derive(Clone, Copy, Debug, PartialEq, Eq, Structural)]
pub enum HandshakePhase {
    /// Nothing received yet: the child owes its greeting.
    AwaitGreeting,
    /// Capabilities negotiated; the child owes a return.
    AwaitReturn,
    /// The handshake is complete.
    Complete,
}

/// What one handshake step asks of the caller.
#[derive(Debug)]
pub enum HandshakeStep {
    /// Send this command, then receive again.
    Send(Command),
    /// The handshake is complete.
    Done,
}

/// What one response during a graceful shutdown leads to.
#[derive(Debug)]
pub enum ShutdownWait {
    /// A return arrived: the shutdown request is acknowledged.
    Acknowledged(PropMap),
    /// An event arrived: keep waiting.
    Skip,
}

impl Guest {
    pub closed spec fn spec_config(&self) -> GuestConfig {
        self.config
    }

    pub closed spec fn spec_has_child(&self) -> bool {
        self.has_child
    }

    pub closed spec fn spec_has_pipes(&self) -> bool {
        self.has_pipes
    }

    pub closed spec fn spec_local_storage(&self) -> Seq<char> {
        self.local_storage@
    }

    /// A fresh guest around a document: no child, no pipes.
    pub fn new(config: GuestConfig, local_storage: &str) -> (r: Self)
        ensures
            r.spec_config() == config,
            !r.spec_has_child(),
            !r.spec_has_pipes(),
            r.spec_local_storage() == local_storage@,
    {
        Self { config, has_child: false, has_pipes: false, local_storage: String::from_str(local_storage) }
    }

    pub fn config(&self) -> (r: &GuestConfig)
        ensures
            *r == self.spec_config(),
    {
        &self.config
    }

    /// Non-blocking status: the caller polls the child and reports
    /// whether it has exited; a guest without a child is stopped.
    pub fn status(&self, child_exited: bool) -> (r: Status)
        ensures
            r == spec_status(*self, child_exited),
    {
        if self.has_child && !child_exited {
            Status::Running
        } else {
            Status::Stopped
        }
    }

    /// The command a run spawns: the document's rendering with the
    /// monitor channel arguments appended.  A guest already running is
    /// refused with `AlreadyRunning`; rendering failures (a remote bios
    /// that cannot be resolved) propagate.
    pub fn run_plan(&self, child_exited: bool) -> (r: Result<CommandPlan, Error>)
        ensures
            spec_status(*self, child_exited) == Status::Running ==> (r matches Err(e)
                && e.spec_kind() == ErrorKind::AlreadyRunning),
            spec_status(*self, child_exited) == Status::Stopped ==> match r {
                Ok(plan) => plan.program@ == self.spec_config().spec_program()
                    && plan.args.deep_view() == self.spec_config().spec_cmd_args(
                    self.spec_local_storage(),
                ) + spec_monitor_args(),
                Err(e) => e.spec_kind() != ErrorKind::AlreadyRunning,
            },
            spec_status(*self, child_exited) == Status::Stopped && !(self.spec_config().bios
                matches Some(crate::file::File::Remote(_))) ==> r is Ok,
    {
        if self.has_child && !child_exited {
            return Err(Error::new(ErrorKind::AlreadyRunning, "Already running"));
        }
        let mut plan = self.config.as_cmd(self.local_storage.as_str())?;
        let ghost rendered = plan.args.deep_view();
        let mut monitor: Vec<String> = Vec::new();
        monitor.push(String::from_str("-chardev"));
        monitor.push(String::from_str("stdio,id=mon0"));
        monitor.push(String::from_str("-mon"));
        monitor.push(String::from_str("chardev=mon0,mode=control"));
        proof {
            assert(monitor.deep_view() =~= spec_monitor_args());
        }
        crate::config::extend_args(&mut plan.args, monitor);
        proof {
            assert(plan.args.deep_view() =~= rendered + spec_monitor_args());
        }
        Ok(plan)
    }

    /// One step of the post-spawn handshake.  The child must open with a
    /// greeting, answered by a capabilities negotiation, which the child
    /// must acknowledge with a return; anything else aborts the run.
    pub fn handshake_step(phase: HandshakePhase, response: &Response) -> (r: Result<
        (HandshakePhase, HandshakeStep),
        Error,
    >)
        requires
            phase != HandshakePhase::Complete,
        ensures
            match phase {
                HandshakePhase::AwaitGreeting => match r {
                    Ok(p) => response is Greeting && p.0 == HandshakePhase::AwaitReturn && (
                    p.1 matches HandshakeStep::Send(c) && c.execute == Execute::QmpCapabilities),
                    Err(e) => !(response is Greeting) && e.spec_kind() == ErrorKind::IOError
                        && e.spec_message() == "No greeting received."@,
                },
                HandshakePhase::AwaitReturn => match r {
                    Ok(p) => response is Return && p.0 == HandshakePhase::Complete
                        && p.1 is Done,
                    Err(e) => !(response is Return) && e.spec_kind() == ErrorKind::IOError
                        && e.spec_message() == "Unexpected message received"@,
                },
                HandshakePhase::Complete => true,
            },
    {
        match phase {
            HandshakePhase::AwaitGreeting => match response {
                Response::Greeting(_) => Ok(
                    (
                        HandshakePhase::AwaitReturn,
                        HandshakeStep::Send(Command { execute: Execute::QmpCapabilities }),
                    ),
                ),
                _ => Err(Error::new(ErrorKind::IOError, "No greeting received.")),
            },
            HandshakePhase::AwaitReturn => match response {
                Response::Return(_) => Ok((HandshakePhase::Complete, HandshakeStep::Done)),
                _ => Err(Error::new(ErrorKind::IOError, "Unexpected message received")),
            },
            HandshakePhase::Complete => Ok((HandshakePhase::Complete, HandshakeStep::Done)),
        }
    }

    /// Retains the child and its pipes once the handshake completed.
    pub fn run_commit(&mut self)
        ensures
            final(self).spec_has_child(),
            final(self).spec_has_pipes(),
            final(self).spec_config() == old(self).spec_config(),
            final(self).spec_local_storage() == old(self).spec_local_storage(),
    {
        self.has_child = true;
        self.has_pipes = true;
    }

    /// The command a graceful shutdown sends.  A guest that is not
    /// running is refused with `AlreadyStopped`.
    pub fn shutdown_plan(&self, child_exited: bool) -> (r: Result<Command, Error>)
        ensures
            spec_status(*self, child_exited) == Status::Running ==> (r matches Ok(c) && c.execute
                == Execute::SystemPowerDown),
            spec_status(*self, child_exited) == Status::Stopped ==> (r matches Err(e)
                && e.spec_kind() == ErrorKind::AlreadyStopped),
    {
        if self.has_child && !child_exited {
            Ok(Command { execute: Execute::SystemPowerDown })
        } else {
            Err(Error::new(ErrorKind::AlreadyStopped, "Already stopped"))
        }
    }

    /// Sorts one response received while a shutdown waits for its
    /// acknowledgement: a return acknowledges, an error aborts with the
    /// QMP error, events are skipped.
    pub fn shutdown_wait_step(response: Response) -> (r: Result<ShutdownWait, Error>)
        requires
            response matches Response::Error(m) ==> m.wf(),
        ensures
            match response {
                Response::Return(m) => r matches Ok(w) && (w matches ShutdownWait::Acknowledged(
                    got,
                ) && got == m),
                Response::Error(m) => r matches Err(e) && e.spec_kind() == ErrorKind::QMPError
                    && e.spec_message() == crate::qmp::spec_qmp_error_message(m.as_map()),
                Response::Greeting(_) => r matches Ok(w) && w is Skip,
            },
    {
        match response {
            Response::Return(map) => Ok(ShutdownWait::Acknowledged(map)),
            Response::Error(map) => Err(qmp_error_of(&map)),
            Response::Greeting(_) => Ok(ShutdownWait::Skip),
        }
    }

    /// Terminates the guest: the caller signals the child, and the
    /// handles are dropped.  A guest without a child is refused with
    /// `AlreadyStopped`.
    pub fn kill(&mut self) -> (r: Result<(), Error>)
        ensures
            !old(self).spec_has_child() ==> (r matches Err(e) && e.spec_kind()
                == ErrorKind::AlreadyStopped && *final(self) == *old(self)),
            old(self).spec_has_child() ==> r is Ok && !final(self).spec_has_child()
                && !final(self).spec_has_pipes(),
            final(self).spec_config() == old(self).spec_config(),
    {
        if !self.has_child {
            return Err(Error::new(ErrorKind::AlreadyStopped, "Already stopped"));
        }
        self.has_child = false;
        self.has_pipes = false;
        Ok(())
    }
}

/// The lifecycle exclusion behind repeated operations: a guest holding
/// a live child reads as running, so `run_plan` refuses a second run
/// with `AlreadyRunning`; once the child has exited every guest reads
/// as stopped, so `shutdown_plan` refuses a second shutdown with
/// `AlreadyStopped`.
pub proof fn lemma_lifecycle_exclusion(g: Guest)
    ensures
        g.spec_has_child() ==> spec_status(g, false) == Status::Running,
        spec_status(g, true) == Status::Stopped,
{
}

} // verus!
