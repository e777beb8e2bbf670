//! When the broker runs the fallback and when it gives the hardware up.
//!
//! Without a local session the broker shows the embedded default itself. It tries
//! that once for each time the seat becomes free, and again when hardware returns.
use vstd::prelude::*;

use crate::authorization::ActiveSession;

verus! {

/// What the broker has to do after it looked for hardware at startup.
#[derive(Clone, Copy, Debug, PartialEq, Eq, Structural)]
pub enum Startup {
    /// The fallback owns the hardware: open the socket and serve.
    Serve,
    /// Look again after this many milliseconds.
    RetryAfter(u64),
    /// The broker was told to stop: remove the socket and end.
    Stop,
}

/// How long the broker waits before it looks for hardware again.
pub const DISCOVERY_RETRY_MS: u64 = 1000;

/// Whether the broker serves, looks for hardware again, or ends.
pub fn broker_main(hardware_ready: bool, running: bool) -> (r: Startup)
    ensures
        r == (if hardware_ready {
            Startup::Serve
        } else if running {
            Startup::RetryAfter(DISCOVERY_RETRY_MS)
        } else {
            Startup::Stop
        }),
{
    if hardware_ready {
        Startup::Serve
    } else if running {
        Startup::RetryAfter(DISCOVERY_RETRY_MS)
    } else {
        Startup::Stop
    }
}

/// Whether two answers of the session manager name the same session.
pub open spec fn same_session(a: Option<ActiveSession>, b: Option<ActiveSession>) -> bool {
    match (a, b) {
        (None, None) => true,
        (Some(x), Some(y)) => x.id@ == y.id@ && x.uid == y.uid,
        _ => false,
    }
}

fn is_same_session(a: &Option<ActiveSession>, b: &Option<ActiveSession>) -> (r: bool)
    ensures
        r == same_session(*a, *b),
{
    match (a, b) {
        (None, None) => true,
        (Some(x), Some(y)) => x.id == y.id && x.uid == y.uid,
        _ => false,
    }
}

/// How a client connection ended.
#[derive(Clone, Copy, Debug, PartialEq, Eq, Structural)]
pub enum ClientEnd {
    /// In order, with or without the acknowledgement of a revocation.
    Finished { logout_acknowledged: bool },
    /// With an error other than a failed fence.
    Failed,
}

/// What the broker does between two looks at the socket.
#[derive(Clone, Copy, Debug, PartialEq, Eq, Structural)]
pub enum IdleStep {
    /// Give the hardware up for a user who logged in.
    HandOff,
    /// Start the fallback.
    StartFallback,
    Nothing,
}

/// What the broker remembers of the fallback and the seat.
pub struct BrokerLoop {
    pub fallback_running: bool,
    pub fallback_attempted: bool,
    pub last_active: Option<ActiveSession>,
}

impl BrokerLoop {
    /// The state before the loop, and whether the fallback is started first.
    pub fn new(initial: Option<ActiveSession>) -> (r: (BrokerLoop, bool))
        ensures
            !r.0.fallback_running,
            !r.0.fallback_attempted,
            r.0.last_active == initial,
            r.1 == (initial is None),
    {
        let start: bool = initial.is_none();
        (
            BrokerLoop {
                fallback_running: false,
                fallback_attempted: false,
                last_active: initial,
            },
            start,
        )
    }

    /// The fallback was started; it runs if it has a worker.
    pub fn fallback_started(&mut self, has_active_worker: bool)
        ensures
            final(self).fallback_running == has_active_worker,
            final(self).fallback_attempted,
            final(self).last_active == old(self).last_active,
    {
        self.fallback_running = has_active_worker;
        self.fallback_attempted = true;
    }

    /// The fallback gave the hardware up to a client.
    pub fn handed_to_client(&mut self)
        ensures
            !final(self).fallback_running,
            final(self).fallback_attempted == old(self).fallback_attempted,
            final(self).last_active == old(self).last_active,
    {
        self.fallback_running = false;
    }

    /// Whether the last frame of a client that ended in order has to be taken off
    /// the panel: it left without the handshake and the broker is not shutting down.
    pub fn must_fence(end: ClientEnd, running: bool) -> (r: bool)
        ensures
            r == (end == (ClientEnd::Finished { logout_acknowledged: false }) && running),
    {
        match end {
            ClientEnd::Finished { logout_acknowledged } => !logout_acknowledged && running,
            ClientEnd::Failed => false,
        }
    }

    /// A client connection ended, and `active` is the session after it.
    pub fn client_ended(&mut self, end: ClientEnd, active: Option<ActiveSession>)
        ensures
            final(self).fallback_running == old(self).fallback_running,
            final(self).last_active == active,
            final(self).fallback_attempted == (match end {
                ClientEnd::Finished { logout_acknowledged } => !logout_acknowledged
                    && active is Some,
                ClientEnd::Failed => active is Some,
            }),
    {
        self.fallback_attempted = match end {
            ClientEnd::Finished { logout_acknowledged } => !logout_acknowledged
                && active.is_some(),
            ClientEnd::Failed => active.is_some(),
        };
        self.last_active = active;
    }

    /// Whether the fallback is started after a client, on a free seat.
    pub fn starts_after_client(&self, running: bool, seat_free: bool) -> (r: bool)
        ensures
            r == (running && !self.fallback_running && !self.fallback_attempted && seat_free),
    {
        running && !self.fallback_running && !self.fallback_attempted && seat_free
    }

    /// No client is waiting: gives the hardware up to a user who logged in, or
    /// starts the fallback on a free seat, once.
    pub fn idle(&mut self, active: Option<ActiveSession>) -> (step: IdleStep)
        ensures
            final(self).fallback_running == old(self).fallback_running,
            same_session(final(self).last_active, active),
            // A free seat never stays without the fallback or an attempt at it.
            active is None ==> final(self).fallback_running || final(self).fallback_attempted,
            ({
                let freed = active is None && !same_session(active, old(self).last_active);
                let attempted = old(self).fallback_attempted && !freed;
                &&& step == (if active is Some && old(self).fallback_running {
                    IdleStep::HandOff
                } else if active is None && !old(self).fallback_running && !attempted {
                    IdleStep::StartFallback
                } else {
                    IdleStep::Nothing
                })
                &&& final(self).fallback_attempted == (match step {
                    IdleStep::HandOff => false,
                    IdleStep::StartFallback => true,
                    IdleStep::Nothing => attempted,
                })
            }),
    {
        let some: bool = active.is_some();
        if !is_same_session(&active, &self.last_active) {
            if !some {
                self.fallback_attempted = false;
            }
            self.last_active = active;
        }
        if some && self.fallback_running {
            self.fallback_attempted = false;
            IdleStep::HandOff
        } else if !some && !self.fallback_running && !self.fallback_attempted {
            self.fallback_attempted = true;
            IdleStep::StartFallback
        } else {
            IdleStep::Nothing
        }
    }

    /// Whether the fallback is polled; otherwise the broker sleeps.
    pub fn polls_fallback(&self, has_recovery: bool, hardware_available: bool) -> (r: bool)
        ensures
            r == (self.fallback_running || has_recovery || !hardware_available),
    {
        self.fallback_running || has_recovery || !hardware_available
    }

    /// The fallback was polled. Hardware that came back allows another attempt.
    pub fn polled(&mut self, has_active_worker: bool, was_available: bool, available: bool)
        ensures
            final(self).fallback_running == has_active_worker,
            final(self).fallback_attempted == (old(self).fallback_attempted && !(!was_available
                && available)),
            final(self).last_active == old(self).last_active,
    {
        self.fallback_running = has_active_worker;
        if !was_available && available {
            self.fallback_attempted = false;
        }
    }
}

} // verus!
