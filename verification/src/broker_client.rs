//! A supervisor's side of the broker connection.
//!
//! The connection itself is outside: a method builds the message to send, and
//! another takes in what came back.
use vstd::prelude::*;

use crate::broker_ipc::{
    decode_claim, decode_events, encode_frame, encode_key_events, encode_message, sendable,
};
use crate::broker_wire::{
    frame_payload, framed, keys_payload, payload_claim, payload_events, WireError, CLAIM, CONFIRM,
    EMIT_KEYS, ERROR, GET_BACKLIGHT, HARDWARE_UNAVAILABLE, LOGOUT_COMPLETE, OK, POLL, PRESENT,
    RELEASE, REVOKED_LOGOUT, REVOKED_REPLACED, SESSION_REVOKED, SET_BACKLIGHT, WAIT_FOR_HARDWARE,
    WAIT_FOR_SESSION,
};
use crate::bytes::{
    be_bytes, be_value, copy_range, get_be, lemma_be_bytes_len, lemma_be_value_bound,
    lemma_pow256_values, put_be,
};
use crate::hardware::{
    input_after, observe_event, HardwareCapability, HardwareEvent, InputState, LogicalFrame, RealBits,
    SyntheticKeyEvent,
};

verus! {

/// Why a worker has to stop.
#[derive(Clone, Copy, Debug, PartialEq, Eq, Structural)]
pub enum StopReason {
    Replaced,
    Logout,
    Shutdown,
}

/// A set of hardware capabilities.
#[derive(Clone, Copy, Debug, PartialEq, Eq, Structural)]
pub struct CapabilitySet {
    pub display: bool,
    pub backlight: bool,
}

impl CapabilitySet {
    pub open spec fn none() -> CapabilitySet {
        CapabilitySet { display: false, backlight: false }
    }

    pub open spec fn all() -> CapabilitySet {
        CapabilitySet { display: true, backlight: true }
    }

    /// Whether a capability is in the set.
    pub open spec fn has(self, capability: HardwareCapability) -> bool {
        match capability {
            HardwareCapability::Display => self.display,
            HardwareCapability::Backlight => self.backlight,
        }
    }

    /// The set with a capability added or taken out.
    pub open spec fn with(self, capability: HardwareCapability, member: bool) -> CapabilitySet {
        match capability {
            HardwareCapability::Display => CapabilitySet { display: member, ..self },
            HardwareCapability::Backlight => CapabilitySet { backlight: member, ..self },
        }
    }

    /// The first capability of the set in wire order.
    pub open spec fn first(self) -> Option<HardwareCapability> {
        if self.display {
            Some(HardwareCapability::Display)
        } else if self.backlight {
            Some(HardwareCapability::Backlight)
        } else {
            None
        }
    }

    /// Adds a capability or takes it out.
    pub fn set(&mut self, capability: HardwareCapability, member: bool)
        ensures
            *final(self) == old(self).with(capability, member),
    {
        match capability {
            HardwareCapability::Display => self.display = member,
            HardwareCapability::Backlight => self.backlight = member,
        }
    }

    pub fn lowest(self) -> (r: Option<HardwareCapability>)
        ensures
            r == self.first(),
    {
        if self.display {
            Some(HardwareCapability::Display)
        } else if self.backlight {
            Some(HardwareCapability::Backlight)
        } else {
            None
        }
    }
}

/// What came of one exchange over the connection.
pub enum Exchange {
    /// The broker's message: a status and a body.
    Message(Vec<u8>),
    /// The connection failed; `disconnect` if the broker is gone.
    Failed { disconnect: bool },
}

/// Why a request failed. Texts of the broker are kept as bytes.
#[derive(Debug)]
pub enum ClientError {
    AlreadyClaimed,
    NotClaimed,
    NotOpen,
    NotRevoked,
    Connection,
    EmptyResponse,
    EmptyClaimResponse,
    Refused(Vec<u8>),
    WaitForSession(Vec<u8>),
    WaitForHardware(Vec<u8>),
    SessionRevoked,
    RevocationWithoutReason,
    UnknownRevocation(u8),
    Unavailable { capability: Option<HardwareCapability>, detail: Vec<u8> },
    UnknownStatus(u8),
    BacklightMalformed,
    Wire(WireError),
}

/// The state of a supervisor's claim on the hardware.
#[derive(Clone, Copy, Debug, PartialEq, Eq, Structural)]
pub struct BrokerHardware {
    /// Whether a connection is held.
    pub connected: bool,
    pub input_state: InputState,
    pub claimed: bool,
    pub session_revoked: bool,
    pub hardware_available: bool,
    pub connection_lost: bool,
    pub missing_capabilities: CapabilitySet,
    pub unavailable_capability: Option<HardwareCapability>,
    pub revoked_reason: Option<StopReason>,
}

/// The capability that the first byte of a body names, if it names one.
pub open spec fn named_capability(body: Seq<u8>) -> Option<HardwareCapability> {
    if body.len() == 0 || body[0] > 1 {
        None
    } else if body[0] == 0 {
        Some(HardwareCapability::Display)
    } else {
        Some(HardwareCapability::Backlight)
    }
}

/// The error of an exchange that gave no body.
pub open spec fn exchange_error(e: ClientError, exchange: Exchange) -> bool {
    match (e, exchange) {
        (ClientError::Connection, Exchange::Failed { .. }) => true,
        (ClientError::EmptyResponse, Exchange::Message(m)) => m@.len() == 0,
        (ClientError::Refused(text), Exchange::Message(m)) => m@.len() > 0 && m@[0] == ERROR
            && text@ == m@.skip(1),
        (ClientError::SessionRevoked, Exchange::Message(m)) => m@.len() > 0 && m@[0]
            == SESSION_REVOKED && revocation_reason(m@.skip(1)) is Some,
        (ClientError::RevocationWithoutReason, Exchange::Message(m)) => m@.len() == 1 && m@[0]
            == SESSION_REVOKED,
        (ClientError::UnknownRevocation(b), Exchange::Message(m)) => m@.len() > 1 && m@[0]
            == SESSION_REVOKED && b == m@[1] && revocation_reason(m@.skip(1)) is None,
        (ClientError::Unavailable { capability, detail }, Exchange::Message(m)) => m@.len() > 0
            && m@[0] == HARDWARE_UNAVAILABLE && capability == named_capability(m@.skip(1))
            && detail@ == detail_of(m@.skip(1)),
        (ClientError::UnknownStatus(b), Exchange::Message(m)) => m@.len() > 0 && b == m@[0] && b
            != OK && b != ERROR && b != SESSION_REVOKED && b != HARDWARE_UNAVAILABLE,
        _ => false,
    }
}

/// What follows the first byte of a body.
pub open spec fn detail_of(body: Seq<u8>) -> Seq<u8> {
    if body.len() == 0 {
        body
    } else {
        body.skip(1)
    }
}

/// The reason that a revocation gives.
pub open spec fn revocation_reason(body: Seq<u8>) -> Option<StopReason> {
    if body.len() == 0 {
        None
    } else if body[0] == REVOKED_REPLACED {
        Some(StopReason::Replaced)
    } else if body[0] == REVOKED_LOGOUT {
        Some(StopReason::Logout)
    } else {
        None
    }
}

impl BrokerHardware {
    /// A client that was never connected.
    pub open spec fn initial() -> BrokerHardware {
        BrokerHardware {
            connected: false,
            input_state: InputState::none(),
            claimed: false,
            session_revoked: false,
            hardware_available: true,
            connection_lost: false,
            missing_capabilities: CapabilitySet::none(),
            unavailable_capability: None,
            revoked_reason: None,
        }
    }

    /// The state after the broker said that the hardware is unavailable.
    pub open spec fn without_hardware(self, body: Seq<u8>) -> BrokerHardware {
        BrokerHardware {
            hardware_available: false,
            unavailable_capability: named_capability(body),
            missing_capabilities: match named_capability(body) {
                Some(capability) => self.missing_capabilities.with(capability, true),
                None => self.missing_capabilities,
            },
            ..self
        }
    }

    /// The state after the broker is gone: its hardware claim is gone with it.
    pub open spec fn disconnected(self) -> BrokerHardware {
        BrokerHardware {
            connected: false,
            claimed: false,
            hardware_available: false,
            connection_lost: true,
            ..self
        }
    }

    /// The state after one exchange.
    pub open spec fn after_exchange(self, exchange: Exchange) -> BrokerHardware {
        match exchange {
            Exchange::Failed { disconnect } => if disconnect {
                self.disconnected()
            } else {
                self
            },
            Exchange::Message(m) => if m@.len() == 0 {
                self
            } else if m@[0] == SESSION_REVOKED {
                BrokerHardware {
                    session_revoked: true,
                    revoked_reason: match revocation_reason(m@.skip(1)) {
                        Some(reason) => Some(reason),
                        None => self.revoked_reason,
                    },
                    ..self
                }
            } else if m@[0] == HARDWARE_UNAVAILABLE {
                self.without_hardware(m@.skip(1))
            } else {
                self
            },
        }
    }

    /// The state after the answer to a claim.
    pub open spec fn after_claim(self, response: Seq<u8>) -> BrokerHardware {
        if response.len() == 0 {
            self
        } else if response[0] == WAIT_FOR_HARDWARE {
            self.without_hardware(response.skip(1))
        } else if response[0] == OK && payload_claim(response.skip(1)) is Ok {
            BrokerHardware {
                connected: true,
                input_state: payload_claim(response.skip(1))->Ok_0.0,
                claimed: true,
                hardware_available: true,
                connection_lost: false,
                missing_capabilities: CapabilitySet::none(),
                unavailable_capability: None,
                ..self
            }
        } else {
            self
        }
    }

    /// The state after one event of the adapter.
    pub open spec fn after_event(self, event: HardwareEvent) -> BrokerHardware {
        match event {
            HardwareEvent::Device { present } => BrokerHardware {
                hardware_available: present,
                missing_capabilities: if present {
                    CapabilitySet::none()
                } else {
                    CapabilitySet::all()
                },
                unavailable_capability: if present {
                    None
                } else {
                    self.unavailable_capability
                },
                ..self
            },
            HardwareEvent::Capability { capability, present } => {
                let missing = self.missing_capabilities.with(capability, !present);
                BrokerHardware {
                    missing_capabilities: missing,
                    unavailable_capability: if present {
                        missing.first()
                    } else {
                        Some(capability)
                    },
                    hardware_available: missing == CapabilitySet::none(),
                    ..self
                }
            },
            _ => BrokerHardware { input_state: input_after(self.input_state, event), ..self },
        }
    }

    /// The state after a batch of events.
    pub open spec fn after_events(self, events: Seq<HardwareEvent>) -> BrokerHardware
        decreases events.len(),
    {
        if events.len() == 0 {
            self
        } else {
            self.after_events(events.drop_last()).after_event(events.last())
        }
    }

    /// A client that was never connected.
    pub fn new() -> (r: BrokerHardware)
        ensures
            r == BrokerHardware::initial(),
    {
        BrokerHardware {
            connected: false,
            input_state: InputState::empty(),
            claimed: false,
            session_revoked: false,
            hardware_available: true,
            connection_lost: false,
            missing_capabilities: CapabilitySet { display: false, backlight: false },
            unavailable_capability: None,
            revoked_reason: None,
        }
    }

    /// Why the worker has to stop: the broker's reason, or a shutdown.
    pub fn revoked_stop_reason(&self) -> (r: StopReason)
        ensures
            r == (match self.revoked_reason {
                Some(reason) => reason,
                None => StopReason::Shutdown,
            }),
    {
        match self.revoked_reason {
            Some(reason) => reason,
            None => StopReason::Shutdown,
        }
    }

    /// The message of a request, if a connection is open.
    pub fn request(&self, operation: u8, payload: &[u8]) -> (r: Result<Vec<u8>, ClientError>)
        ensures
            match r {
                Ok(message) => self.connected && sendable(payload@) && message@ == framed(
                    operation,
                    payload@,
                ),
                Err(ClientError::NotOpen) => !self.connected,
                Err(ClientError::Wire(e)) => self.connected && !sendable(payload@) && e
                    == WireError::TooLarge,
                Err(_) => false,
            },
    {
        if !self.connected {
            return Err(ClientError::NotOpen);
        }
        match encode_message(operation, payload) {
            Ok(message) => Ok(message),
            Err(e) => Err(ClientError::Wire(e)),
        }
    }

    fn record_revocation(&mut self, body: &[u8]) -> (r: Result<(), ClientError>)
        ensures
            *final(self) == (BrokerHardware {
                revoked_reason: match revocation_reason(body@) {
                    Some(reason) => Some(reason),
                    None => old(self).revoked_reason,
                },
                ..*old(self)
            }),
            match r {
                Ok(_) => revocation_reason(body@) is Some,
                Err(ClientError::RevocationWithoutReason) => body@.len() == 0,
                Err(ClientError::UnknownRevocation(b)) => body@.len() > 0 && b == body@[0]
                    && revocation_reason(body@) is None,
                Err(_) => false,
            },
    {
        if body.len() == 0 {
            return Err(ClientError::RevocationWithoutReason);
        }
        match body[0] {
            0 => {
                self.revoked_reason = Some(StopReason::Replaced);
            },
            1 => {
                self.revoked_reason = Some(StopReason::Logout);
            },
            other => {
                return Err(ClientError::UnknownRevocation(other));
            },
        }
        Ok(())
    }

    fn lose_hardware(&mut self, body: &[u8])
        ensures
            *final(self) == old(self).without_hardware(body@),
    {
        self.hardware_available = false;
        self.unavailable_capability = None;
        if body.len() > 0 {
            if let Ok(capability) = HardwareCapability::from_wire(body[0]) {
                self.unavailable_capability = Some(capability);
                self.missing_capabilities.set(capability, true);
            }
        }
    }

    /// Takes in the answer to a request: the body, or why there is none.
    pub fn response(&mut self, exchange: &Exchange) -> (r: Result<Vec<u8>, ClientError>)
        ensures
            *final(self) == old(self).after_exchange(*exchange),
            match (r, *exchange) {
                (Ok(body), Exchange::Message(m)) => m@.len() > 0 && m@[0] == OK && body@ == m@.skip(
                    1,
                ),
                (Ok(_), Exchange::Failed { .. }) => false,
                (Err(e), _) => exchange_error(e, *exchange),
            },
    {
        let message: &Vec<u8> = match exchange {
            Exchange::Message(message) => message,
            Exchange::Failed { disconnect } => {
                if *disconnect {
                    self.connected = false;
                    self.claimed = false;
                    self.hardware_available = false;
                    self.connection_lost = true;
                }
                return Err(ClientError::Connection);
            },
        };
        let n: usize = message.len();
        if n == 0 {
            return Err(ClientError::EmptyResponse);
        }
        let status: u8 = message[0];
        let body: Vec<u8> = copy_range(message.as_slice(), 1, n);
        assert(body@ =~= message@.skip(1));
        if status == OK {
            Ok(body)
        } else if status == ERROR {
            Err(ClientError::Refused(body))
        } else if status == SESSION_REVOKED {
            self.session_revoked = true;
            self.record_revocation(body.as_slice())?;
            Err(ClientError::SessionRevoked)
        } else if status == HARDWARE_UNAVAILABLE {
            self.lose_hardware(body.as_slice());
            let detail: Vec<u8> = if body.len() == 0 {
                Vec::new()
            } else {
                copy_range(body.as_slice(), 1, body.len())
            };
            assert(detail@ =~= detail_of(body@));
            Err(ClientError::Unavailable { capability: self.unavailable_capability, detail })
        } else {
            Err(ClientError::UnknownStatus(status))
        }
    }

    /// The message that claims the hardware.
    pub fn claim_request(&self) -> (r: Result<Vec<u8>, ClientError>)
        ensures
            match r {
                Ok(message) => !self.claimed && message@ == framed(CLAIM, Seq::empty()),
                Err(e) => self.claimed && e is AlreadyClaimed,
            },
    {
        if self.claimed {
            return Err(ClientError::AlreadyClaimed);
        }
        let empty: Vec<u8> = Vec::new();
        assert(empty@ =~= Seq::empty());
        match encode_message(CLAIM, empty.as_slice()) {
            Ok(message) => Ok(message),
            Err(e) => Err(ClientError::Wire(e)),
        }
    }

    /// Takes in the answer to a claim.
    pub fn claim_response(&mut self, response: &[u8]) -> (r: Result<(), ClientError>)
        ensures
            *final(self) == old(self).after_claim(response@),
            match r {
                Ok(_) => response@.len() > 0 && response@[0] == OK && payload_claim(
                    response@.skip(1),
                ) is Ok,
                Err(ClientError::EmptyClaimResponse) => response@.len() == 0,
                Err(ClientError::WaitForHardware(detail)) => response@.len() > 0 && response@[0]
                    == WAIT_FOR_HARDWARE && detail@ == detail_of(response@.skip(1)),
                Err(ClientError::WaitForSession(text)) => response@.len() > 0 && response@[0]
                    == WAIT_FOR_SESSION && text@ == response@.skip(1),
                Err(ClientError::Refused(text)) => response@.len() > 0 && response@[0] != OK
                    && response@[0] != WAIT_FOR_HARDWARE && response@[0] != WAIT_FOR_SESSION
                    && text@ == response@.skip(1),
                Err(ClientError::Wire(e)) => response@.len() > 0 && response@[0] == OK
                    && payload_claim(response@.skip(1)) == Err::<(InputState, RealBits), WireError>(
                    e,
                ),
                Err(_) => false,
            },
    {
        let n: usize = response.len();
        if n == 0 {
            return Err(ClientError::EmptyClaimResponse);
        }
        let status: u8 = response[0];
        let body: Vec<u8> = copy_range(response, 1, n);
        assert(body@ =~= response@.skip(1));
        if status == WAIT_FOR_HARDWARE {
            self.lose_hardware(body.as_slice());
            let detail: Vec<u8> = if body.len() == 0 {
                Vec::new()
            } else {
                copy_range(body.as_slice(), 1, body.len())
            };
            assert(detail@ =~= detail_of(body@));
            return Err(ClientError::WaitForHardware(detail));
        }
        if status == WAIT_FOR_SESSION {
            return Err(ClientError::WaitForSession(body));
        }
        if status != OK {
            return Err(ClientError::Refused(body));
        }
        match decode_claim(body.as_slice()) {
            Ok((input_state, _backlight)) => {
                self.connected = true;
                self.input_state = input_state;
                self.claimed = true;
                self.hardware_available = true;
                self.connection_lost = false;
                self.missing_capabilities = CapabilitySet { display: false, backlight: false };
                self.unavailable_capability = None;
                Ok(())
            },
            Err(e) => Err(ClientError::Wire(e)),
        }
    }

    /// What a reacquisition has to do: release a claim on hardware that is
    /// unavailable, and claim, unless a working claim is held.
    pub fn reacquire(&self) -> (r: Reacquire)
        ensures
            r == (if self.claimed && self.hardware_available {
                Reacquire::Nothing
            } else if self.claimed {
                Reacquire::ReleaseThenClaim
            } else {
                Reacquire::Claim
            }),
    {
        if self.claimed && self.hardware_available {
            Reacquire::Nothing
        } else if self.claimed {
            Reacquire::ReleaseThenClaim
        } else {
            Reacquire::Claim
        }
    }

    fn claimed_request(&self, operation: u8, payload: &[u8]) -> (r: Result<Vec<u8>, ClientError>)
        ensures
            match r {
                Ok(message) => self.claimed && self.connected && sendable(payload@) && message@
                    == framed(operation, payload@),
                Err(ClientError::NotClaimed) => !self.claimed,
                Err(ClientError::NotOpen) => self.claimed && !self.connected,
                Err(ClientError::Wire(e)) => self.claimed && self.connected && !sendable(payload@)
                    && e == WireError::TooLarge,
                Err(_) => false,
            },
    {
        if !self.claimed {
            return Err(ClientError::NotClaimed);
        }
        self.request(operation, payload)
    }

    /// The message that waits up to `millis` milliseconds for events.
    pub fn poll_request(&self, millis: u128) -> (r: Result<Vec<u8>, ClientError>)
        ensures
            match r {
                Ok(message) => self.claimed && !self.session_revoked && self.connected && message@
                    == framed(
                    POLL,
                    be_bytes(
                        if millis > u64::MAX {
                            u64::MAX as nat
                        } else {
                            millis as nat
                        },
                        8,
                    ),
                ),
                Err(ClientError::NotClaimed) => !self.claimed,
                Err(ClientError::SessionRevoked) => self.claimed && self.session_revoked,
                Err(ClientError::NotOpen) => self.claimed && !self.session_revoked
                    && !self.connected,
                Err(_) => false,
            },
    {
        if !self.claimed {
            return Err(ClientError::NotClaimed);
        }
        if self.session_revoked {
            return Err(ClientError::SessionRevoked);
        }
        let bounded: u64 = if millis > 0xffff_ffff_ffff_ffff {
            0xffff_ffff_ffff_ffff
        } else {
            millis as u64
        };
        let mut payload: Vec<u8> = Vec::new();
        put_be(&mut payload, bounded, 8);
        proof {
            lemma_be_bytes_len(bounded as nat, 8);
            assert(payload@ =~= be_bytes(bounded as nat, 8));
        }
        self.request(POLL, payload.as_slice())
    }

    fn observe(&mut self, event: HardwareEvent)
        ensures
            *final(self) == old(self).after_event(event),
    {
        match event {
            HardwareEvent::Device { present } => {
                if present {
                    self.missing_capabilities = CapabilitySet { display: false, backlight: false };
                    self.unavailable_capability = None;
                } else {
                    self.missing_capabilities = CapabilitySet { display: true, backlight: true };
                }
                self.hardware_available = present;
            },
            HardwareEvent::Capability { capability, present } => {
                self.missing_capabilities.set(capability, !present);
                if present {
                    self.unavailable_capability = self.missing_capabilities.lowest();
                } else {
                    self.unavailable_capability = Some(capability);
                }
                self.hardware_available = !self.missing_capabilities.display
                    && !self.missing_capabilities.backlight;
            },
            _ => observe_event(&mut self.input_state, event),
        }
    }

    /// Takes in the answer to a poll: the events, which also update this state.
    pub fn poll_response(&mut self, exchange: &Exchange) -> (r: Result<
        Vec<HardwareEvent>,
        ClientError,
    >)
        ensures
            match (r, *exchange) {
                (Ok(events), Exchange::Message(m)) => m@.len() > 0 && m@[0] == OK && payload_events(
                    m@.skip(1),
                ) == Ok::<Seq<HardwareEvent>, WireError>(events@) && *final(self) == old(self).after_events(events@),
                (Err(ClientError::Wire(e)), Exchange::Message(m)) => m@.len() > 0 && m@[0] == OK
                    && payload_events(m@.skip(1)) == Err::<Seq<HardwareEvent>, WireError>(e)
                    && *final(self) == *old(self),
                (Ok(_), Exchange::Failed { .. }) => false,
                (Err(e), _) => exchange_error(e, *exchange) && *final(self)
                    == old(self).after_exchange(*exchange),
            },
    {
        let body: Vec<u8> = self.response(exchange)?;
        let events: Vec<HardwareEvent> = match decode_events(body.as_slice()) {
            Ok(events) => events,
            Err(e) => {
                return Err(ClientError::Wire(e));
            },
        };
        let ghost before = *self;
        let mut i: usize = 0;
        while i < events.len()
            invariant
                i <= events@.len(),
                *self == before.after_events(events@.take(i as int)),
            decreases events@.len() - i,
        {
            self.observe(events[i]);
            i += 1;
            assert(events@.take(i as int).drop_last() =~= events@.take(i - 1));
        }
        assert(events@.take(i as int) =~= events@);
        Ok(events)
    }

    /// The message that presents a frame.
    pub fn present_request(&self, frame: &LogicalFrame) -> (r: Result<Vec<u8>, ClientError>)
        ensures
            ({
                let fits = frame@.width <= u32::MAX && frame@.height <= u32::MAX && frame@.stride
                    <= u32::MAX;
                match r {
                    Ok(message) => self.claimed && self.connected && fits && sendable(
                        frame_payload(frame@),
                    ) && message@ == framed(PRESENT, frame_payload(frame@)),
                    Err(ClientError::NotClaimed) => !self.claimed,
                    Err(ClientError::NotOpen) => self.claimed && fits && !self.connected,
                    Err(ClientError::Wire(WireError::Count)) => self.claimed && !fits,
                    Err(ClientError::Wire(WireError::TooLarge)) => self.claimed && fits
                        && self.connected && !sendable(frame_payload(frame@)),
                    Err(_) => false,
                }
            }),
    {
        if !self.claimed {
            return Err(ClientError::NotClaimed);
        }
        match encode_frame(frame) {
            Ok(payload) => self.request(PRESENT, payload.as_slice()),
            Err(e) => Err(ClientError::Wire(e)),
        }
    }

    /// The message that asks whether this client still owns the hardware.
    pub fn confirm_request(&self) -> (r: Result<Vec<u8>, ClientError>)
        ensures
            match r {
                Ok(message) => self.claimed && self.connected && message@ == framed(
                    CONFIRM,
                    Seq::empty(),
                ),
                Err(ClientError::NotClaimed) => !self.claimed,
                Err(ClientError::NotOpen) => self.claimed && !self.connected,
                Err(_) => false,
            },
    {
        let empty: Vec<u8> = Vec::new();
        assert(empty@ =~= Seq::empty());
        self.claimed_request(CONFIRM, empty.as_slice())
    }

    /// The message that emits keys.
    pub fn emit_request(&self, events: &[SyntheticKeyEvent]) -> (r: Result<Vec<u8>, ClientError>)
        ensures
            match r {
                Ok(message) => self.claimed && self.connected && events@.len() <= u32::MAX
                    && sendable(keys_payload(events@)) && message@ == framed(
                    EMIT_KEYS,
                    keys_payload(events@),
                ),
                Err(ClientError::NotClaimed) => !self.claimed,
                Err(ClientError::NotOpen) => self.claimed && events@.len() <= u32::MAX
                    && !self.connected,
                Err(ClientError::Wire(WireError::Count)) => self.claimed && events@.len()
                    > u32::MAX,
                Err(ClientError::Wire(WireError::TooLarge)) => self.claimed && events@.len()
                    <= u32::MAX && self.connected && !sendable(keys_payload(events@)),
                Err(_) => false,
            },
    {
        if !self.claimed {
            return Err(ClientError::NotClaimed);
        }
        match encode_key_events(events) {
            Ok(payload) => self.request(EMIT_KEYS, payload.as_slice()),
            Err(e) => Err(ClientError::Wire(e)),
        }
    }

    /// The message that asks for the backlight level.
    pub fn get_backlight_request(&self) -> (r: Result<Vec<u8>, ClientError>)
        ensures
            match r {
                Ok(message) => self.claimed && self.connected && message@ == framed(
                    GET_BACKLIGHT,
                    Seq::empty(),
                ),
                Err(ClientError::NotClaimed) => !self.claimed,
                Err(ClientError::NotOpen) => self.claimed && !self.connected,
                Err(_) => false,
            },
    {
        let empty: Vec<u8> = Vec::new();
        assert(empty@ =~= Seq::empty());
        self.claimed_request(GET_BACKLIGHT, empty.as_slice())
    }

    /// The backlight level in the body of an answer.
    pub fn backlight_level(body: &[u8]) -> (r: Result<RealBits, ClientError>)
        ensures
            match r {
                Ok(level) => body@.len() == 8 && level.bits == be_value(body@),
                Err(e) => body@.len() != 8 && e is BacklightMalformed,
            },
    {
        if body.len() != 8 {
            return Err(ClientError::BacklightMalformed);
        }
        proof {
            lemma_pow256_values();
            lemma_be_value_bound(body@);
            assert(body@.subrange(0, 8) =~= body@);
        }
        let bits: u64 = get_be(body, 0, 8);
        Ok(RealBits { bits })
    }

    /// The message that sets the backlight level.
    pub fn set_backlight_request(&self, level: RealBits) -> (r: Result<Vec<u8>, ClientError>)
        ensures
            match r {
                Ok(message) => self.claimed && self.connected && message@ == framed(
                    SET_BACKLIGHT,
                    be_bytes(level.bits as nat, 8),
                ),
                Err(ClientError::NotClaimed) => !self.claimed,
                Err(ClientError::NotOpen) => self.claimed && !self.connected,
                Err(_) => false,
            },
    {
        let mut payload: Vec<u8> = Vec::new();
        put_be(&mut payload, level.bits, 8);
        proof {
            lemma_be_bytes_len(level.bits as nat, 8);
            assert(payload@ =~= be_bytes(level.bits as nat, 8));
        }
        self.claimed_request(SET_BACKLIGHT, payload.as_slice())
    }

    /// The message that acknowledges a revocation.
    pub fn logout_complete(&self) -> (r: Result<Vec<u8>, ClientError>)
        ensures
            match r {
                Ok(message) => self.session_revoked && self.connected && message@ == framed(
                    LOGOUT_COMPLETE,
                    Seq::empty(),
                ),
                Err(ClientError::NotRevoked) => !self.session_revoked,
                Err(ClientError::NotOpen) => self.session_revoked && !self.connected,
                Err(_) => false,
            },
    {
        if !self.session_revoked {
            return Err(ClientError::NotRevoked);
        }
        let empty: Vec<u8> = Vec::new();
        assert(empty@ =~= Seq::empty());
        self.request(LOGOUT_COMPLETE, empty.as_slice())
    }

    /// What a release has to do. A revoked claim is only forgotten.
    pub fn release(&self) -> (r: Release)
        ensures
            match r {
                Release::Nothing => !self.claimed,
                Release::Forget => self.claimed && (self.session_revoked || !self.connected),
                Release::Send(message) => self.claimed && !self.session_revoked && self.connected
                    && message@ == framed(RELEASE, Seq::empty()),
            },
    {
        if !self.claimed {
            return Release::Nothing;
        }
        if self.session_revoked {
            return Release::Forget;
        }
        let empty: Vec<u8> = Vec::new();
        assert(empty@ =~= Seq::empty());
        match self.request(RELEASE, empty.as_slice()) {
            Ok(message) => Release::Send(message),
            Err(_) => Release::Forget,
        }
    }

    /// Forgets the claim and the connection, whatever the broker answered.
    pub fn released(&mut self)
        ensures
            *final(self) == (BrokerHardware { connected: false, claimed: false, ..*old(self) }),
    {
        self.connected = false;
        self.claimed = false;
    }
}

/// What a reacquisition has to do.
#[derive(Clone, Copy, Debug, PartialEq, Eq, Structural)]
pub enum Reacquire {
    Nothing,
    Claim,
    ReleaseThenClaim,
}

/// What a release has to do.
pub enum Release {
    /// Nothing is claimed.
    Nothing,
    /// Forget the claim without telling the broker.
    Forget,
    /// Tell the broker, then forget the claim.
    Send(Vec<u8>),
}

/// Once the broker is gone, nothing is claimed and no request can be sent.
pub proof fn law_disconnect_drops_the_claim(client: BrokerHardware)
    ensures
        ({
            let after = client.after_exchange(Exchange::Failed { disconnect: true });
            &&& !after.claimed
            &&& !after.connected
            &&& !after.hardware_available
            &&& after.connection_lost
        }),
{
}

/// The hardware is available exactly while no capability is missing: the answer to
/// a claim establishes it, and every event keeps it.
pub proof fn law_availability_follows_missing_capabilities(
    client: BrokerHardware,
    response: Seq<u8>,
    event: HardwareEvent,
)
    ensures
        ({
            let claimed = client.after_claim(response);
            response.len() > 0 && response[0] == OK && payload_claim(response.skip(1)) is Ok
                ==> claimed.hardware_available && claimed.missing_capabilities
                == CapabilitySet::none()
        }),
        client.hardware_available == (client.missing_capabilities == CapabilitySet::none())
            ==> ({
            let after = client.after_event(event);
            after.hardware_available == (after.missing_capabilities == CapabilitySet::none())
        }),
{
}

/// A revocation is never forgotten by later exchanges or events.
pub proof fn law_revocation_is_final(client: BrokerHardware, exchange: Exchange, event: HardwareEvent)
    requires
        client.session_revoked,
    ensures
        client.after_exchange(exchange).session_revoked,
        client.after_event(event).session_revoked,
{
}

} // verus!
