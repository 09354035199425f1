use vstd::prelude::*;

use crate::doc::{doc_v_wf, merge_docs, ConfigDoc, DocValueV};
use crate::error::OrchError;

verus! {

// ---------------------------------------------------------------------------
// The Sidecar Supervisor.
//
// The supervisor owns the external proxy-core process handle and its
// control-API connection info, as a state machine.  The process itself and
// the network live in the surrounding application, which spawns, probes,
// terminates and pushes; the supervisor decides what may happen in each
// state and records the outcome the application reports back.
// ---------------------------------------------------------------------------

/// The lifecycle state of the sidecar process.
#[derive(Debug, Clone, Copy, PartialEq, Eq, Structural)]
pub enum SidecarState {
    Stopped,
    Starting,
    Running,
    Restarting,
    Crashed,
}

/// Process and connection state of the supervised sidecar.
#[derive(Debug, Clone, PartialEq, Eq)]
pub struct Supervisor {
    pub state: SidecarState,
    /// Present exactly while a spawned process is owned.
    pub process_id: Option<u64>,
    pub control_host: String,
    pub control_port: u16,
    pub control_secret: Option<String>,
    /// The full configuration the running sidecar last accepted, for the
    /// skip-if-unchanged decision; cleared when the process is replaced.
    pub last_pushed: Option<ConfigDoc>,
    /// Ad-hoc runtime patches accepted by the running sidecar; folded into
    /// every later activation so a patched field is never regressed.
    pub runtime_patch: ConfigDoc,
}

/// The mathematical value of a supervisor.
pub struct SupervisorV {
    pub state: SidecarState,
    pub process_id: Option<u64>,
    pub control_host: Seq<char>,
    pub control_port: u16,
    pub control_secret: Option<Seq<char>>,
    pub last_pushed: Option<Seq<(Seq<char>, DocValueV)>>,
    pub runtime_patch: Seq<(Seq<char>, DocValueV)>,
}

impl View for Supervisor {
    type V = SupervisorV;

    open spec fn view(&self) -> SupervisorV {
        SupervisorV {
            state: self.state,
            process_id: self.process_id,
            control_host: self.control_host@,
            control_port: self.control_port,
            control_secret: match self.control_secret {
                Some(s) => Some(s@),
                None => None,
            },
            last_pushed: match self.last_pushed {
                Some(d) => Some(d@),
                None => None,
            },
            runtime_patch: self.runtime_patch@,
        }
    }
}

impl Supervisor {
    pub open spec fn wf(&self) -> bool {
        &&& doc_v_wf(self@.runtime_patch)
        &&& match self@.last_pushed {
            Some(d) => doc_v_wf(d),
            None => true,
        }
    }

    /// A supervisor for a sidecar reachable at this control address, not yet
    /// running.
    pub fn new(control_host: String, control_port: u16) -> (r: Supervisor)
        ensures
            r.wf(),
            r@.state is Stopped,
            r@.process_id is None,
            r@.control_host == control_host@,
            r@.control_port == control_port,
            r@.control_secret is None,
            r@.last_pushed is None,
            r@.runtime_patch == Seq::<(Seq<char>, DocValueV)>::empty(),
    {
        Supervisor {
            state: SidecarState::Stopped,
            process_id: None,
            control_host,
            control_port,
            control_secret: None,
            last_pushed: None,
            runtime_patch: ConfigDoc::empty(),
        }
    }

    /// Begin starting the sidecar.  Valid only from `Stopped`; the caller
    /// then spawns the process and reports the outcome.
    pub fn begin_start(&mut self) -> (r: Result<(), OrchError>)
        requires
            old(self).wf(),
        ensures
            final(self).wf(),
            match r {
                Ok(()) => old(self)@.state is Stopped && final(self)@ == (SupervisorV {
                    state: SidecarState::Starting,
                    ..old(self)@
                }),
                Err(e) => !(old(self)@.state is Stopped) && e is Validation && final(self)@
                    == old(self)@,
            },
    {
        if self.state == SidecarState::Stopped {
            self.state = SidecarState::Starting;
            Ok(())
        } else {
            Err(OrchError::Validation("the sidecar is not stopped".to_owned()))
        }
    }

    /// Begin replacing the running or crashed process with a fresh one.  The
    /// fresh process starts without a configuration, so the record of the
    /// live configuration is cleared and the caller must re-activate.
    pub fn begin_restart(&mut self) -> (r: Result<(), OrchError>)
        requires
            old(self).wf(),
        ensures
            final(self).wf(),
            match r {
                Ok(()) => (old(self)@.state is Running || old(self)@.state is Crashed)
                    && final(self)@ == (SupervisorV {
                    state: SidecarState::Restarting,
                    process_id: None,
                    last_pushed: None,
                    ..old(self)@
                }),
                Err(e) => !(old(self)@.state is Running || old(self)@.state is Crashed)
                    && e is Validation && final(self)@ == old(self)@,
            },
    {
        if self.state == SidecarState::Running || self.state == SidecarState::Crashed {
            self.state = SidecarState::Restarting;
            self.process_id = None;
            self.last_pushed = None;
            Ok(())
        } else {
            Err(OrchError::Validation("the sidecar is neither running nor crashed".to_owned()))
        }
    }

    /// Record that the process was spawned with this id and control secret.
    pub fn on_spawned(&mut self, pid: u64, secret: Option<String>)
        requires
            old(self).wf(),
            old(self)@.state is Starting || old(self)@.state is Restarting,
        ensures
            final(self).wf(),
            final(self)@ == (SupervisorV {
                process_id: Some(pid),
                control_secret: match secret {
                    Some(s) => Some(s@),
                    None => None,
                },
                ..old(self)@
            }),
    {
        self.process_id = Some(pid);
        self.control_secret = secret;
    }

    /// Record that the control API answered: the sidecar is running.
    pub fn on_api_reachable(&mut self)
        requires
            old(self).wf(),
            old(self)@.state is Starting || old(self)@.state is Restarting,
        ensures
            final(self).wf(),
            final(self)@ == (SupervisorV { state: SidecarState::Running, ..old(self)@ }),
    {
        self.state = SidecarState::Running;
    }

    /// Record that the binary was missing or the control API never became
    /// reachable within the bounded wait: back to `Stopped`, and the
    /// distinguished startup error is surfaced.
    pub fn on_startup_failed(&mut self) -> (e: OrchError)
        requires
            old(self).wf(),
            old(self)@.state is Starting || old(self)@.state is Restarting,
        ensures
            final(self).wf(),
            e is Startup,
            final(self)@ == (SupervisorV {
                state: SidecarState::Stopped,
                process_id: None,
                last_pushed: None,
                ..old(self)@
            }),
    {
        self.state = SidecarState::Stopped;
        self.process_id = None;
        self.last_pushed = None;
        OrchError::Startup
    }

    /// Record an unexpected exit of the running process.  The supervisor
    /// only transitions to `Crashed`; it never respawns on its own — the
    /// shell must surface the state and wait for the user.
    pub fn on_process_exit(&mut self)
        requires
            old(self).wf(),
            old(self)@.state is Running,
        ensures
            final(self).wf(),
            final(self)@ == (SupervisorV {
                state: SidecarState::Crashed,
                process_id: None,
                last_pushed: None,
                ..old(self)@
            }),
    {
        self.state = SidecarState::Crashed;
        self.process_id = None;
        self.last_pushed = None;
    }

    /// Stop the sidecar and clear the handle.  Idempotent: stopping an
    /// already stopped supervisor leaves the same stopped state.
    pub fn stop(&mut self)
        requires
            old(self).wf(),
        ensures
            final(self).wf(),
            final(self)@ == (SupervisorV {
                state: SidecarState::Stopped,
                process_id: None,
                control_secret: None,
                last_pushed: None,
                runtime_patch: Seq::<(Seq<char>, DocValueV)>::empty(),
                ..old(self)@
            }),
    {
        self.state = SidecarState::Stopped;
        self.process_id = None;
        self.control_secret = None;
        self.last_pushed = None;
        self.runtime_patch = ConfigDoc::empty();
    }

    /// The control connection info, for the shell and for callers of the
    /// control API.
    pub fn control_info(&self) -> (r: (String, u16, Option<String>))
        ensures
            r.0@ == self@.control_host,
            r.1 == self@.control_port,
            match r.2 {
                Some(s) => self@.control_secret == Some(s@),
                None => self@.control_secret is None,
            },
    {
        let secret = match &self.control_secret {
            Some(s) => Some(s.clone()),
            None => None,
        };
        (self.control_host.clone(), self.control_port, secret)
    }

    /// Record that the sidecar accepted this full configuration.  This is
    /// the only operation that sets the record of the live configuration.
    pub fn commit_push(&mut self, doc: ConfigDoc)
        requires
            old(self).wf(),
            doc_v_wf(doc@),
        ensures
            final(self).wf(),
            final(self)@ == (SupervisorV { last_pushed: Some(doc@), ..old(self)@ }),
    {
        self.last_pushed = Some(doc);
    }

    /// Record that the sidecar accepted an ad-hoc runtime patch: fold it
    /// into the runtime patch applied by every later activation, and into
    /// the record of the live configuration, so a later activation neither
    /// regresses the patched field nor pushes needlessly.
    pub fn record_live_patch(&mut self, partial: &ConfigDoc)
        requires
            old(self).wf(),
            doc_v_wf(partial@),
        ensures
            final(self).wf(),
            final(self)@.runtime_patch == merge_docs(old(self)@.runtime_patch, partial@),
            final(self)@.last_pushed == match old(self)@.last_pushed {
                Some(d) => Some(merge_docs(d, partial@)),
                None => None,
            },
            final(self)@.state == old(self)@.state,
            final(self)@.process_id == old(self)@.process_id,
            final(self)@.control_host == old(self)@.control_host,
            final(self)@.control_port == old(self)@.control_port,
            final(self)@.control_secret == old(self)@.control_secret,
    {
        self.runtime_patch = self.runtime_patch.merged(partial);
        let merged_live = match &self.last_pushed {
            Some(d) => Some(d.merged(partial)),
            None => None,
        };
        self.last_pushed = merged_live;
    }
}

} // verus!
