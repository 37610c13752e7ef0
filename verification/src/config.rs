//! The configuration controller.
//!
//! Configuration carries the TTL and an optional upstream base URL. Applying
//! it installs the new URL and TTL for all later requests, and replaces the
//! sweeper: the running one is cancelled, a fresh one is registered with the
//! new TTL. A failed cancel or a failed register is a fatal configuration
//! error; the cancel and the register themselves happen outside, and their
//! outcomes are handed in here as events.

use vstd::prelude::*;
use vstd::string::*;
use crate::errors::AppError;
use crate::errors::ErrorKind;
use crate::errors::ErrorModel;
use crate::store::EntryModel;
use crate::store::contains_key;
use crate::store::entry_of;
use crate::store::unique_keys;
use crate::sweeper::SWEEP_BATCH_CAP;
use crate::sweeper::lemma_tick_keeps_fresh;
use crate::sweeper::tick_spec;

verus! {

/// The recognized options: the TTL in seconds, and the upstream base URL
/// with its default.
pub struct ServiceCfg {
    pub ttl: i64,
    pub countries_url: Option<String>,
}

/// The base URL used when the configuration names none.
pub open spec fn default_countries_url() -> Seq<char> {
    "https://restcountries.com"@
}

/// The upstream base URL a configuration puts in effect.
pub open spec fn effective_url_of(cfg: ServiceCfg) -> Seq<char> {
    match cfg.countries_url {
        Some(u) => u@,
        None => default_countries_url(),
    }
}

/// Whether a sweeper runs, and with which TTL.
#[derive(Clone, Copy, Debug, PartialEq, Eq, Structural)]
pub enum SweeperStatus {
    Stopped,
    Running(i64),
}

/// The process-wide state the controller owns: the upstream target visible
/// to every request, the configured TTL, and the one sweeper.
pub struct ServiceState {
    pub countries_url: String,
    pub ttl: i64,
    pub sweeper: SweeperStatus,
}

impl ServiceState {
    /// The state before the service starts: no target, no sweeper.
    pub fn new() -> (s: ServiceState)
        ensures
            s.countries_url@ == Seq::<char>::empty(),
            s.ttl == 0,
            s.sweeper == SweeperStatus::Stopped,
    {
        ServiceState { countries_url: String::new(), ttl: 0, sweeper: SweeperStatus::Stopped }
    }

    /// Installs the configured upstream target and TTL, visible to every
    /// later request; the sweeper is untouched.
    pub fn apply_config(&mut self, cfg: &ServiceCfg)
        ensures
            final(self).countries_url@ == effective_url_of(*cfg),
            final(self).ttl == cfg.ttl,
            final(self).sweeper == old(self).sweeper,
    {
        let url = match &cfg.countries_url {
            Some(u) => u.clone(),
            None => String::from_str("https://restcountries.com"),
        };
        self.countries_url = url;
        self.ttl = cfg.ttl;
    }

    /// Startup: apply the configuration and register the sweeper with its
    /// TTL. `register_ok` is the outcome of the outside registration; a
    /// failed one is a fatal configuration error.
    pub fn on_start(&mut self, cfg: &ServiceCfg, register_ok: bool) -> (r: Result<(), AppError>)
        ensures
            final(self).countries_url@ == effective_url_of(*cfg),
            final(self).ttl == cfg.ttl,
            match r {
                Ok(()) => register_ok && final(self).sweeper == SweeperStatus::Running(cfg.ttl),
                Err(e) => {
                    &&& !register_ok
                    &&& final(self).sweeper == old(self).sweeper
                    &&& e@ == (ErrorModel {
                        kind: ErrorKind::Config,
                        message: "failed to register the sweeper job"@,
                    })
                },
            },
    {
        self.apply_config(cfg);
        if register_ok {
            self.sweeper = SweeperStatus::Running(cfg.ttl);
            Ok(())
        } else {
            Err(AppError::config("failed to register the sweeper job"))
        }
    }

    /// Reconfiguration: apply the new configuration, cancel the running
    /// sweeper, and register a new one with the new TTL. `cancel_ok` and
    /// `register_ok` are the outcomes of the outside cancel and register;
    /// either failing is a fatal configuration error, and a failed cancel
    /// leaves the previous sweeper state in place.
    pub fn on_config_change(
        &mut self,
        new_cfg: &ServiceCfg,
        cancel_ok: bool,
        register_ok: bool,
    ) -> (r: Result<(), AppError>)
        ensures
            final(self).countries_url@ == effective_url_of(*new_cfg),
            final(self).ttl == new_cfg.ttl,
            match r {
                Ok(()) => {
                    &&& cancel_ok
                    &&& register_ok
                    &&& final(self).sweeper == SweeperStatus::Running(new_cfg.ttl)
                },
                Err(e) => {
                    &&& e@.kind == ErrorKind::Config
                    &&& if !cancel_ok {
                        &&& final(self).sweeper == old(self).sweeper
                        &&& e@.message == "failed to cancel the running sweeper"@
                    } else {
                        &&& !register_ok
                        &&& final(self).sweeper == SweeperStatus::Stopped
                        &&& e@.message == "failed to register the new sweeper"@
                    }
                },
            },
    {
        self.apply_config(new_cfg);
        if !cancel_ok {
            return Err(AppError::config("failed to cancel the running sweeper"));
        }
        self.sweeper = SweeperStatus::Stopped;
        if !register_ok {
            return Err(AppError::config("failed to register the new sweeper"));
        }
        self.sweeper = SweeperStatus::Running(new_cfg.ttl);
        Ok(())
    }

    /// Shutdown: cancel the running sweeper, with a bounded wait performed
    /// outside; `cancel_ok` is its outcome.
    pub fn on_stop(&mut self, cancel_ok: bool) -> (r: Result<(), AppError>)
        ensures
            final(self).countries_url == old(self).countries_url,
            final(self).ttl == old(self).ttl,
            match r {
                Ok(()) => cancel_ok && final(self).sweeper == SweeperStatus::Stopped,
                Err(e) => {
                    &&& !cancel_ok
                    &&& final(self).sweeper == old(self).sweeper
                    &&& e@ == (ErrorModel {
                        kind: ErrorKind::Config,
                        message: "failed to cancel the sweeper on stop"@,
                    })
                },
            },
    {
        if cancel_ok {
            self.sweeper = SweeperStatus::Stopped;
            Ok(())
        } else {
            Err(AppError::config("failed to cancel the sweeper on stop"))
        }
    }
}

/// Reconfiguration law: once a state's one sweeper runs with the new TTL, no
/// sweeper with the old TTL remains, and a tick under that state computes its
/// threshold from the new TTL exclusively: an entry still fresh under the new
/// TTL survives the tick untouched, even one the old TTL would have made
/// eligible.
pub proof fn lemma_reconfigure_uses_new_ttl(
    st: ServiceState,
    new_ttl: i64,
    old_ttl: i64,
    s: Seq<EntryModel>,
    k: Seq<char>,
    now: i64,
)
    requires
        st.sweeper == SweeperStatus::Running(new_ttl),
        new_ttl != old_ttl,
        unique_keys(s),
        contains_key(s, k),
        entry_of(s, k).created_at > now - new_ttl,
    ensures
        st.sweeper != SweeperStatus::Running(old_ttl),
        contains_key(tick_spec(s, new_ttl, now), k),
        entry_of(tick_spec(s, new_ttl, now), k) == entry_of(s, k),
{
    lemma_tick_keeps_fresh(s, k, now - new_ttl, SWEEP_BATCH_CAP as nat);
}

} // verus!
