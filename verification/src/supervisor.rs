//! Supervision of the duplex bridge to the local backend: the state
//! machine the reconnect loop drives. The driver performs the outside
//! work (connect, read, sleep) and reports what happened; each report
//! hands back the actions to perform — a connectivity event for the UI
//! layer, a wait before the next attempt. Connect failures and
//! mid-session losses take the same path; no failure is fatal to the
//! supervisor.
use crate::backoff::BackoffPolicy;
use crate::backoff::advanced_delay;
use vstd::prelude::*;

verus! {

/// Seconds between keepalive probes of a live connection.
pub const KEEPALIVE_INTERVAL_SECS: u64 = 30;

/// Where the bridge stands. Transitions are strictly sequential: one
/// supervisor owns one connection at a time.
pub enum ConnectionState {
    Disconnected,
    Connecting,
    Connected,
}

/// What the supervisor asks its driver to do.
#[derive(Debug, PartialEq, Eq)]
pub enum SupervisorAction {
    /// Report connectivity to the UI layer.
    EmitConnectivity { connected: bool },
    /// Sleep this many seconds before the next attempt.
    Wait { seconds: u64 },
}

/// The reconnect loop's state: where the bridge stands and what the
/// next retry delay is.
pub struct ConnectionSupervisor {
    pub state: ConnectionState,
    pub backoff: BackoffPolicy,
}

impl ConnectionSupervisor {
    pub open spec fn wf(self) -> bool {
        self.backoff.wf()
    }

    pub fn new(backoff: BackoffPolicy) -> (r: Self)
        requires
            backoff.wf(),
        ensures
            r.wf(),
            r.state is Disconnected,
            r.backoff == backoff,
    {
        ConnectionSupervisor { state: ConnectionState::Disconnected, backoff }
    }

    /// The driver is about to attempt a connection.
    pub fn on_attempt(&mut self)
        requires
            old(self).wf(),
            !(old(self).state is Connected),
        ensures
            final(self).wf(),
            final(self).state is Connecting,
            final(self).backoff == old(self).backoff,
    {
        self.state = ConnectionState::Connecting;
    }

    /// The attempt succeeded: connectivity is reported and the backoff
    /// resets, so the next failure waits the initial delay again.
    pub fn on_connected(&mut self) -> (actions: Vec<SupervisorAction>)
        requires
            old(self).wf(),
            old(self).state is Connecting,
        ensures
            final(self).wf(),
            final(self).state is Connected,
            old(self).backoff.same_policy(final(self).backoff),
            final(self).backoff.current_delay == old(self).backoff.initial_delay,
            actions@ == seq![SupervisorAction::EmitConnectivity { connected: true }],
    {
        self.state = ConnectionState::Connected;
        self.backoff.on_success();
        let mut actions: Vec<SupervisorAction> = Vec::new();
        actions.push(SupervisorAction::EmitConnectivity { connected: true });
        proof {
            assert(actions@ =~= seq![SupervisorAction::EmitConnectivity { connected: true }]);
        }
        actions
    }

    /// The attempt failed, or a live connection ended — a read
    /// failure, a keepalive failure or a peer close, all treated
    /// identically: connectivity is reported, the driver waits the
    /// current delay, and the backoff advances.
    pub fn on_connection_end(&mut self) -> (actions: Vec<SupervisorAction>)
        requires
            old(self).wf(),
        ensures
            final(self).wf(),
            final(self).state is Disconnected,
            old(self).backoff.same_policy(final(self).backoff),
            final(self).backoff.current_delay == advanced_delay(
                old(self).backoff.current_delay as int,
                old(self).backoff.multiplier as int,
                old(self).backoff.max_delay as int,
            ),
            actions@ == seq![
                SupervisorAction::EmitConnectivity { connected: false },
                SupervisorAction::Wait { seconds: old(self).backoff.current_delay },
            ],
    {
        self.state = ConnectionState::Disconnected;
        let wait = self.backoff.current_delay;
        self.backoff.on_failure();
        let mut actions: Vec<SupervisorAction> = Vec::new();
        actions.push(SupervisorAction::EmitConnectivity { connected: false });
        actions.push(SupervisorAction::Wait { seconds: wait });
        proof {
            assert(actions@ =~= seq![
                SupervisorAction::EmitConnectivity { connected: false },
                SupervisorAction::Wait { seconds: old(self).backoff.current_delay },
            ]);
        }
        actions
    }
}

} // verus!
