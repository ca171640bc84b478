//! The listener lifecycle controller: a state machine over stopped and
//! running that guards a single network listener.
//!
//! The controller decides; the surrounding runtime performs. Each operation
//! returns the action to carry out — spawn a listener task, cancel one —
//! and the state records the outcome before the action runs, so a caller
//! that applies the operations serially can never hold two live handles.

use vstd::prelude::*;
use crate::config::Config;
use crate::numeral::{push_u64, spec_dec};

verus! {

/// The controller's state: the handle of the running listener task, the
/// running flag, and the configuration snapshot new listeners bind to.
/// A handle is an opaque number the runtime hands out for a spawned task.
#[derive(Debug)]
pub struct ServerState {
    /// The recorded handle of the running listener task.
    pub server_handle: Option<u64>,
    /// Whether a listener is recorded as running.
    pub is_running: bool,
    /// The configuration new listeners bind to.
    pub config: Config,
}

/// What a start operation asks the runtime to do.
#[derive(Debug, PartialEq, Eq)]
pub enum StartAction {
    /// A listener was already recorded as running; do nothing.
    AlreadyRunning,
    /// Spawn a listener bound to the given address and port, under the
    /// given handle.
    Spawn { host: String, port: u16, handle: u64 },
}

/// What a stop operation asks the runtime to do.
#[derive(Debug, PartialEq, Eq)]
pub enum StopAction {
    /// No listener was recorded; do nothing.
    WasNotRunning,
    /// Cancel the task behind the given handle, outside any lock.
    Cancel { handle: u64 },
}

/// Why a reconfiguration was rejected.
#[derive(Debug, PartialEq, Eq)]
pub enum ConfigError {
    /// The port is outside the accepted range.
    PortOutOfRange,
    /// An address is empty.
    EmptyAddress,
}

/// The state a start from `s` leaves behind: unchanged when already
/// running, else running under the new handle.
pub open spec fn spec_start(s: ServerState, new_handle: u64) -> ServerState {
    if s.is_running {
        s
    } else {
        ServerState { server_handle: Some(new_handle), is_running: true, ..s }
    }
}

/// The state a stop leaves behind: stopped, with no handle recorded.
pub open spec fn spec_stop(s: ServerState) -> ServerState {
    ServerState { server_handle: None, is_running: false, ..s }
}

impl ServerState {
    /// A fresh controller: stopped, with the given configuration.
    pub fn new(config: Config) -> (r: ServerState)
        ensures
            r.server_handle is None,
            !r.is_running,
            r.config == config,
    {
        ServerState { server_handle: None, is_running: false, config }
    }

    /// Starts the listener: when one is recorded as running nothing happens;
    /// otherwise the new handle is recorded and the runtime is asked to
    /// spawn a listener bound to the current configuration snapshot.
    pub fn start(&mut self, new_handle: u64) -> (r: StartAction)
        ensures
            *final(self) == spec_start(*old(self), new_handle),
            old(self).is_running ==> r == StartAction::AlreadyRunning,
            !old(self).is_running ==> r == (StartAction::Spawn {
                host: old(self).config.server.internal_address,
                port: old(self).config.server.port,
                handle: new_handle,
            }),
    {
        if self.is_running {
            StartAction::AlreadyRunning
        } else {
            self.server_handle = Some(new_handle);
            self.is_running = true;
            StartAction::Spawn {
                host: self.config.server.internal_address.clone(),
                port: self.config.server.port,
                handle: new_handle,
            }
        }
    }

    /// Stops the listener: the recorded handle, if any, is taken out and
    /// handed back for cancellation; stopping a stopped controller reports
    /// that it was not running and cancels nothing.
    pub fn stop(&mut self) -> (r: StopAction)
        ensures
            *final(self) == spec_stop(*old(self)),
            old(self).server_handle is Some ==> r == (StopAction::Cancel {
                handle: old(self).server_handle->Some_0,
            }),
            old(self).server_handle is None ==> r == StopAction::WasNotRunning,
    {
        let taken = self.server_handle.take();
        self.is_running = false;
        match taken {
            Some(handle) => StopAction::Cancel { handle },
            None => StopAction::WasNotRunning,
        }
    }

    /// Restarts the listener: a stop followed by a start. The two actions
    /// come back in order; the runtime performs the cancellation before the
    /// spawn.
    pub fn restart(&mut self, new_handle: u64) -> (r: (StopAction, StartAction))
        ensures
            *final(self) == spec_start(spec_stop(*old(self)), new_handle),
            final(self).server_handle == Some(new_handle),
            final(self).is_running,
            old(self).server_handle is Some ==> r.0 == (StopAction::Cancel {
                handle: old(self).server_handle->Some_0,
            }),
            old(self).server_handle is None ==> r.0 == StopAction::WasNotRunning,
            r.1 == (StartAction::Spawn {
                host: old(self).config.server.internal_address,
                port: old(self).config.server.port,
                handle: new_handle,
            }),
    {
        let stop_action = self.stop();
        let start_action = self.start(new_handle);
        (stop_action, start_action)
    }

    /// Reconfigures the listener: validates the port and addresses, updates
    /// the configuration, and restarts. On a validation error nothing
    /// changes. The caller persists the settings between validation and
    /// this call; a failure after persistence is not rolled back here, as
    /// the persisted settings already changed.
    pub fn reconfigure(
        &mut self,
        internal_address: String,
        external_address: String,
        port: u16,
        new_handle: u64,
    ) -> (r: Result<(StopAction, StartAction), ConfigError>)
        ensures
            port < 1024 ==> r == Err::<(StopAction, StartAction), ConfigError>(
                ConfigError::PortOutOfRange,
            ) && *final(self) == *old(self),
            port >= 1024 && (internal_address@.len() == 0 || external_address@.len() == 0) ==> r
                == Err::<(StopAction, StartAction), ConfigError>(ConfigError::EmptyAddress)
                && *final(self) == *old(self),
            port >= 1024 && internal_address@.len() > 0 && external_address@.len() > 0 ==> {
                &&& r is Ok
                &&& final(self).config.server.internal_address == internal_address
                &&& final(self).config.server.external_address == external_address
                &&& final(self).config.server.port == port
                &&& final(self).config.server.api_version == old(self).config.server.api_version
                &&& final(self).config.catalog == old(self).config.catalog
                &&& final(self).config.database == old(self).config.database
                &&& final(self).config.data_dir == old(self).config.data_dir
                &&& final(self).server_handle == Some(new_handle)
                &&& final(self).is_running
                &&& (old(self).server_handle is Some ==> r->Ok_0.0 == (StopAction::Cancel {
                    handle: old(self).server_handle->Some_0,
                }))
                &&& (old(self).server_handle is None ==> r->Ok_0.0 == StopAction::WasNotRunning)
                &&& r->Ok_0.1 == (StartAction::Spawn {
                    host: internal_address,
                    port: port,
                    handle: new_handle,
                })
            },
    {
        if port < 1024 {
            return Err(ConfigError::PortOutOfRange);
        }
        if internal_address.as_str().is_empty() || external_address.as_str().is_empty() {
            return Err(ConfigError::EmptyAddress);
        }
        self.config.server.internal_address = internal_address;
        self.config.server.external_address = external_address;
        self.config.server.port = port;
        let actions = self.restart(new_handle);
        Ok(actions)
    }
}

/// Validates a proposed server configuration without touching any state:
/// the port must lie in the accepted range and neither address may be
/// empty. This is the check a caller runs before persisting the settings.
pub fn validate_server_config(internal_address: &str, external_address: &str, port: u16) -> (r:
    Result<(), ConfigError>)
    ensures
        port < 1024 ==> r == Err::<(), ConfigError>(ConfigError::PortOutOfRange),
        port >= 1024 && (internal_address@.len() == 0 || external_address@.len() == 0) ==> r
            == Err::<(), ConfigError>(ConfigError::EmptyAddress),
        (port >= 1024 && internal_address@.len() > 0 && external_address@.len() > 0) <==> r is Ok,
{
    if port < 1024 {
        Err(ConfigError::PortOutOfRange)
    } else if internal_address.is_empty() || external_address.is_empty() {
        Err(ConfigError::EmptyAddress)
    } else {
        Ok(())
    }
}

/// The status string a start outcome reports.
pub fn start_message(action: &StartAction) -> (r: String)
    ensures
        action is AlreadyRunning ==> r@ == "Server is already running"@,
        action matches StartAction::Spawn { host, port, .. } ==> r@
            == "Server started successfully on "@ + host@ + ":"@ + spec_dec(port as int),
{
    match action {
        StartAction::AlreadyRunning => "Server is already running".to_owned(),
        StartAction::Spawn { host, port, .. } => {
            let mut out = "Server started successfully on ".to_owned();
            out.append(host.as_str());
            out.append(":");
            push_u64(&mut out, *port as u64);
            proof {
                assert((("Server started successfully on "@ + host@) + ":"@) + spec_dec(
                    *port as int,
                ) =~= "Server started successfully on "@ + host@ + ":"@ + spec_dec(*port as int));
            }
            out
        },
    }
}

/// The status string a stop outcome reports.
pub fn stop_message(action: &StopAction) -> (r: &'static str)
    ensures
        action is WasNotRunning ==> r@ == "Server was not running"@,
        action is Cancel ==> r@ == "Server stopped successfully"@,
{
    match action {
        StopAction::WasNotRunning => "Server was not running",
        StopAction::Cancel { .. } => "Server stopped successfully",
    }
}

/// The message a rejected reconfiguration reports.
pub fn config_error_message(err: &ConfigError) -> (r: &'static str)
    ensures
        err is PortOutOfRange ==> r@ == "Port must be between 1024 and 65535"@,
        err is EmptyAddress ==> r@ == "Addresses cannot be empty"@,
{
    match err {
        ConfigError::PortOutOfRange => "Port must be between 1024 and 65535",
        ConfigError::EmptyAddress => "Addresses cannot be empty",
    }
}

/// A snapshot of the server settings as a management surface reads them:
/// the two addresses, the port, and the external URL.
pub fn server_config_snapshot(config: &Config) -> (r: (String, String, u16, String))
    ensures
        r.0 == config.server.internal_address,
        r.1 == config.server.external_address,
        r.2 == config.server.port,
        r.3@ == config.spec_external_url(),
{
    (
        config.server.internal_address.clone(),
        config.server.external_address.clone(),
        config.server.port,
        config.external_url(),
    )
}

/// Starting twice without an intervening stop keeps exactly the handle the
/// first start recorded: the second start changes nothing.
pub proof fn lemma_start_twice(s: ServerState, h1: u64, h2: u64)
    requires
        !s.is_running,
    ensures
        spec_start(s, h1).is_running,
        spec_start(spec_start(s, h1), h2) == spec_start(s, h1),
        spec_start(spec_start(s, h1), h2).server_handle == Some(h1),
{
}

/// Stopping a stopped controller changes nothing and cancels nothing: its
/// handle was and stays absent.
pub proof fn lemma_stop_when_stopped(s: ServerState)
    requires
        !s.is_running,
        s.server_handle is None,
    ensures
        spec_stop(s) == s,
{
}

} // verus!
