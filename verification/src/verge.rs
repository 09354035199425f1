use vstd::prelude::*;

use crate::error::OrchError;
use crate::profiles::clone_opt_string;

verus! {

// ---------------------------------------------------------------------------
// Preferences and the System Proxy Synchronizer.
//
// User-facing settings, each independently nullable to mean "unset", and the
// cached view of the OS system proxy.  The OS calls themselves live in the
// surrounding application; the state recorded here changes only when the
// application reports an outcome.
// ---------------------------------------------------------------------------

/// The OS system-proxy configuration.
#[derive(Debug, Clone, PartialEq, Eq)]
pub struct SysProxyConfig {
    pub enable: bool,
    pub server: String,
    pub bypass: String,
}

/// The mathematical value of a system-proxy configuration.
pub struct SysProxyConfigV {
    pub enable: bool,
    pub server: Seq<char>,
    pub bypass: Seq<char>,
}

impl View for SysProxyConfig {
    type V = SysProxyConfigV;

    open spec fn view(&self) -> SysProxyConfigV {
        SysProxyConfigV { enable: self.enable, server: self.server@, bypass: self.bypass@ }
    }
}

impl SysProxyConfig {
    /// An equal copy.
    pub fn duplicate(&self) -> (r: SysProxyConfig)
        ensures
            r == *self,
    {
        SysProxyConfig {
            enable: self.enable,
            server: self.server.clone(),
            bypass: self.bypass.clone(),
        }
    }
}

/// User-facing settings; a `None` field means "unset, use the default".
#[derive(Debug, Clone, PartialEq, Eq)]
pub struct VergeConfig {
    pub enable_tun_mode: Option<bool>,
    pub enable_auto_launch: Option<bool>,
    pub enable_system_proxy: Option<bool>,
    pub system_proxy_bypass: Option<String>,
    pub verbosity: Option<u64>,
}

/// The mathematical value of the settings.
pub struct VergeConfigV {
    pub enable_tun_mode: Option<bool>,
    pub enable_auto_launch: Option<bool>,
    pub enable_system_proxy: Option<bool>,
    pub system_proxy_bypass: Option<Seq<char>>,
    pub verbosity: Option<u64>,
}

impl View for VergeConfig {
    type V = VergeConfigV;

    open spec fn view(&self) -> VergeConfigV {
        VergeConfigV {
            enable_tun_mode: self.enable_tun_mode,
            enable_auto_launch: self.enable_auto_launch,
            enable_system_proxy: self.enable_system_proxy,
            system_proxy_bypass: match self.system_proxy_bypass {
                Some(b) => Some(b@),
                None => None,
            },
            verbosity: self.verbosity,
        }
    }
}

impl VergeConfig {
    /// All settings unset.
    pub fn unset() -> (r: VergeConfig)
        ensures
            r@.enable_tun_mode is None,
            r@.enable_auto_launch is None,
            r@.enable_system_proxy is None,
            r@.system_proxy_bypass is None,
            r@.verbosity is None,
    {
        VergeConfig {
            enable_tun_mode: None,
            enable_auto_launch: None,
            enable_system_proxy: None,
            system_proxy_bypass: None,
            verbosity: None,
        }
    }

    /// An equal copy.
    pub fn duplicate(&self) -> (r: VergeConfig)
        ensures
            r == *self,
    {
        VergeConfig {
            enable_tun_mode: self.enable_tun_mode,
            enable_auto_launch: self.enable_auto_launch,
            enable_system_proxy: self.enable_system_proxy,
            system_proxy_bypass: clone_opt_string(&self.system_proxy_bypass),
            verbosity: self.verbosity,
        }
    }

    /// Overlay a patch: every set field of the payload replaces the stored
    /// field, every unset field keeps it.  The caller persists the whole
    /// settings snapshot afterwards.
    pub fn patch(&mut self, payload: &VergeConfig)
        ensures
            final(self).enable_tun_mode == (if payload.enable_tun_mode is Some {
                payload.enable_tun_mode
            } else {
                old(self).enable_tun_mode
            }),
            final(self).enable_auto_launch == (if payload.enable_auto_launch is Some {
                payload.enable_auto_launch
            } else {
                old(self).enable_auto_launch
            }),
            final(self).enable_system_proxy == (if payload.enable_system_proxy is Some {
                payload.enable_system_proxy
            } else {
                old(self).enable_system_proxy
            }),
            final(self)@.system_proxy_bypass == (if payload@.system_proxy_bypass is Some {
                payload@.system_proxy_bypass
            } else {
                old(self)@.system_proxy_bypass
            }),
            final(self).verbosity == (if payload.verbosity is Some {
                payload.verbosity
            } else {
                old(self).verbosity
            }),
    {
        if payload.enable_tun_mode.is_some() {
            self.enable_tun_mode = payload.enable_tun_mode;
        }
        if payload.enable_auto_launch.is_some() {
            self.enable_auto_launch = payload.enable_auto_launch;
        }
        if payload.enable_system_proxy.is_some() {
            self.enable_system_proxy = payload.enable_system_proxy;
        }
        if payload.system_proxy_bypass.is_some() {
            self.system_proxy_bypass = clone_opt_string(&payload.system_proxy_bypass);
        }
        if payload.verbosity.is_some() {
            self.verbosity = payload.verbosity;
        }
    }
}

/// What the sidecar's control API answered to a capability request.
#[derive(Debug, Clone, PartialEq, Eq)]
pub enum SidecarReply {
    Accepted,
    /// The sidecar understood the request and refused it, with its message.
    Rejected(String),
    /// The sidecar could not be reached.
    Unreachable,
}

impl SidecarReply {
    /// Surface a control-API reply as the taxonomy demands: a transport
    /// failure as `SidecarUnreachable`, a refusal verbatim as
    /// `SidecarRejected`, and acceptance as success.
    pub fn into_result(self) -> (r: Result<(), OrchError>)
        ensures
            match r {
                Ok(()) => self is Accepted,
                Err(e) => {
                    &&& !(self is Accepted)
                    &&& (self matches SidecarReply::Rejected(m) ==> e is SidecarRejected
                        && e->SidecarRejected_0@ == m@)
                    &&& (self is Unreachable ==> e is SidecarUnreachable)
                },
            },
    {
        match self {
            SidecarReply::Accepted => Ok(()),
            SidecarReply::Rejected(m) => Err(OrchError::SidecarRejected(m)),
            SidecarReply::Unreachable => Err(OrchError::SidecarUnreachable),
        }
    }
}

/// The preferences store together with the cached system-proxy view.
#[derive(Debug, Clone, PartialEq, Eq)]
pub struct VergeState {
    pub config: VergeConfig,
    /// What the OS system proxy was last observed or set to.
    pub cur_sysproxy: Option<SysProxyConfig>,
    /// Whether the sidecar's tun capability is on.
    pub tun_active: bool,
}

impl VergeState {
    /// Fresh state: unset preferences, no observed system proxy, tun off.
    pub fn new() -> (r: VergeState)
        ensures
            r.config@.enable_tun_mode is None,
            r.config@.enable_auto_launch is None,
            r.config@.enable_system_proxy is None,
            r.config@.system_proxy_bypass is None,
            r.config@.verbosity is None,
            r.cur_sysproxy is None,
            !r.tun_active,
    {
        VergeState { config: VergeConfig::unset(), cur_sysproxy: None, tun_active: false }
    }

    /// The settings as shown to the user: where no bypass list is set, the
    /// one of the observed system proxy stands in.
    pub fn effective_config(&self) -> (r: VergeConfig)
        ensures
            r.enable_tun_mode == self.config.enable_tun_mode,
            r.enable_auto_launch == self.config.enable_auto_launch,
            r.enable_system_proxy == self.config.enable_system_proxy,
            r.verbosity == self.config.verbosity,
            r@.system_proxy_bypass == (if self.config@.system_proxy_bypass is None
                && self.cur_sysproxy is Some {
                Some(self.cur_bypass())
            } else {
                self.config@.system_proxy_bypass
            }),
    {
        let mut r = self.config.duplicate();
        if r.system_proxy_bypass.is_none() {
            match &self.cur_sysproxy {
                Some(p) => {
                    r.system_proxy_bypass = Some(p.bypass.clone());
                },
                None => {},
            }
        }
        r
    }

    /// The bypass list of the observed system proxy.
    pub open spec fn cur_bypass(&self) -> Seq<char>
        recommends
            self.cur_sysproxy is Some,
    {
        self.cur_sysproxy->0@.bypass
    }

    /// Record what the OS reported or was successfully set to.
    pub fn note_sysproxy(&mut self, observed: Option<SysProxyConfig>)
        ensures
            final(self).cur_sysproxy == observed,
            final(self).config == old(self).config,
            final(self).tun_active == old(self).tun_active,
    {
        self.cur_sysproxy = observed;
    }

    /// Record that the OS system proxy was cleared.  Safe to call — and a
    /// no-op on the recorded state — when none was set.
    pub fn note_sysproxy_cleared(&mut self)
        ensures
            final(self).cur_sysproxy is None,
            final(self).config == old(self).config,
            final(self).tun_active == old(self).tun_active,
    {
        self.cur_sysproxy = None;
    }

    /// Conclude the two-phase tun-mode toggle.  Only when the sidecar
    /// accepted the capability change is the cached view updated and the
    /// preference set (the caller persists it afterwards); a rejection or an
    /// unreachable sidecar leaves every piece of prior state intact and says
    /// which phase failed.
    pub fn commit_tun_toggle(&mut self, enable: bool, reply: SidecarReply) -> (r: Result<
        (),
        OrchError,
    >)
        ensures
            match r {
                Ok(()) => {
                    &&& reply is Accepted
                    &&& final(self).tun_active == enable
                    &&& final(self).config.enable_tun_mode == Some(enable)
                    &&& final(self).config.enable_auto_launch == old(self).config.enable_auto_launch
                    &&& final(self).config.enable_system_proxy == old(
                        self,
                    ).config.enable_system_proxy
                    &&& final(self).config.system_proxy_bypass == old(
                        self,
                    ).config.system_proxy_bypass
                    &&& final(self).config.verbosity == old(self).config.verbosity
                    &&& final(self).cur_sysproxy == old(self).cur_sysproxy
                },
                Err(e) => {
                    &&& !(reply is Accepted)
                    &&& *final(self) == *old(self)
                    &&& (reply matches SidecarReply::Rejected(m) ==> e is SidecarRejected
                        && e->SidecarRejected_0@ == m@)
                    &&& (reply is Unreachable ==> e is SidecarUnreachable)
                },
            },
    {
        match reply {
            SidecarReply::Accepted => {
                self.tun_active = enable;
                self.config.enable_tun_mode = Some(enable);
                Ok(())
            },
            SidecarReply::Rejected(m) => Err(OrchError::SidecarRejected(m)),
            SidecarReply::Unreachable => Err(OrchError::SidecarUnreachable),
        }
    }

    /// Apply a settings patch as the shell command does.  A set tun-mode
    /// field must reach the sidecar before it is saved: the caller performs
    /// that call first and hands the reply in.  Only when the sidecar
    /// accepted — or no tun change was asked — are the preferences patched;
    /// a refusal leaves every prior setting intact and surfaces which phase
    /// failed.
    pub fn patch_preferences(&mut self, payload: &VergeConfig, tun_reply: Option<SidecarReply>) -> (r: Result<
        (),
        OrchError,
    >)
        requires
            payload.enable_tun_mode is Some <==> tun_reply is Some,
        ensures
            match r {
                Ok(()) => {
                    &&& (payload.enable_tun_mode matches Some(v) ==> final(self).tun_active == v
                        && tun_reply->0 is Accepted)
                    &&& (payload.enable_tun_mode is None ==> final(self).tun_active == old(
                        self,
                    ).tun_active)
                    &&& final(self).cur_sysproxy == old(self).cur_sysproxy
                    &&& final(self).config.enable_tun_mode == (if payload.enable_tun_mode
                        is Some {
                        payload.enable_tun_mode
                    } else {
                        old(self).config.enable_tun_mode
                    })
                    &&& final(self).config.enable_auto_launch == (if payload.enable_auto_launch
                        is Some {
                        payload.enable_auto_launch
                    } else {
                        old(self).config.enable_auto_launch
                    })
                    &&& final(self).config.enable_system_proxy == (
                    if payload.enable_system_proxy is Some {
                        payload.enable_system_proxy
                    } else {
                        old(self).config.enable_system_proxy
                    })
                    &&& final(self).config@.system_proxy_bypass == (
                    if payload@.system_proxy_bypass is Some {
                        payload@.system_proxy_bypass
                    } else {
                        old(self).config@.system_proxy_bypass
                    })
                    &&& final(self).config.verbosity == (if payload.verbosity is Some {
                        payload.verbosity
                    } else {
                        old(self).config.verbosity
                    })
                },
                Err(e) => {
                    &&& *final(self) == *old(self)
                    &&& payload.enable_tun_mode is Some
                    &&& !(tun_reply->0 is Accepted)
                    &&& (tun_reply->0 matches SidecarReply::Rejected(m) ==> e is SidecarRejected
                        && e->SidecarRejected_0@ == m@)
                    &&& (tun_reply->0 is Unreachable ==> e is SidecarUnreachable)
                },
            },
    {
        match (&payload.enable_tun_mode, tun_reply) {
            (Some(v), Some(reply)) => {
                match self.commit_tun_toggle(*v, reply) {
                    Ok(()) => {},
                    Err(e) => {
                        return Err(e);
                    },
                }
            },
            (None, None) => {},
            _ => {
                proof {
                    assert(false);
                }
            },
        }
        self.config.patch(payload);
        Ok(())
    }
}

} // verus!
