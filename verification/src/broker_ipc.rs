//! Writing and reading the messages between the broker and a supervisor.
use vstd::prelude::*;

use crate::broker_wire::{
    claim_payload, events_payload, frame_payload, framed, keys_payload, lemma_consumer_key_of,
    lemma_keyboard_key_of, payload_claim, payload_events, payload_frame, payload_keys, put_be32,
    put_be64, put_event, put_event_list, put_flag, put_input, put_key, put_key_list, put_measure,
    put_modifiers, put_touch, put_u8, take_be32, take_be64, take_event, take_event_list, take_flag,
    take_input, take_key, take_key_list, take_measure, take_modifiers, take_real, take_touch,
    take_u8, touch_phase_code, Taken, WireError, MAX_BATCH, MAX_MESSAGE_BYTES,
};
use crate::bytes::{
    append_slice, be_bytes, be_value, copy_range, get_be, lemma_be_bytes_len, lemma_be_round_trip,
    lemma_be_value_bound, lemma_pow256_values,
};
use crate::hardware::{
    modifier_at, ConsumerKey, FrameView, HardwareCapability, HardwareEvent, InputState, KeyboardKey,
    LogicalFrame, Modifier, ModifierState, OutputKey, RealBits, SyntheticKeyEvent, TouchEvent,
    TouchPhase,
};

verus! {

/// How reading one value off the front of a byte string turned out.
pub open spec fn outcome<T>(r: Result<T, WireError>, p: Taken<T>, rest: Seq<u8>) -> bool {
    match r {
        Ok(v) => p == Ok::<(T, Seq<u8>), WireError>((v, rest)),
        Err(e) => p == Err::<(T, Seq<u8>), WireError>(e),
    }
}

/// Whether a payload is short enough to be sent.
pub open spec fn sendable(payload: Seq<u8>) -> bool {
    1 + payload.len() <= MAX_MESSAGE_BYTES
}

/// A message, unless its payload is too long.
pub fn encode_message(operation: u8, payload: &[u8]) -> (r: Result<Vec<u8>, WireError>)
    ensures
        r is Ok == sendable(payload@),
        r matches Ok(message) ==> message@ == framed(operation, payload@),
        r matches Err(e) ==> e == WireError::TooLarge,
{
    let n: usize = payload.len();
    if n >= MAX_MESSAGE_BYTES {
        return Err(WireError::TooLarge);
    }
    let mut message: Vec<u8> = Vec::new();
    crate::bytes::put_be(&mut message, (1 + n) as u64, 4);
    message.push(operation);
    append_slice(&mut message, payload);
    assert(message@ =~= framed(operation, payload@));
    Ok(message)
}

/// The length that a message announces in its first four bytes.
pub open spec fn announced(s: Seq<u8>) -> int {
    be_value(s.take(4)) as int
}

/// The length that a header announces, if a message can have it.
pub fn message_length(header: &[u8]) -> (r: Result<usize, WireError>)
    requires
        header@.len() >= 4,
    ensures
        r is Ok == (0 < announced(header@) <= MAX_MESSAGE_BYTES),
        r matches Ok(length) ==> length == announced(header@),
        r matches Err(e) ==> e == WireError::Length,
{
    proof {
        lemma_pow256_values();
        assert(header@.take(4) =~= header@.subrange(0, 4));
    }
    let length: u64 = get_be(header, 0, 4);
    if length > 0 && length <= MAX_MESSAGE_BYTES as u64 {
        Ok(length as usize)
    } else {
        Err(WireError::Length)
    }
}

/// What taking one message out of a buffer gives, and what it leaves.
pub open spec fn message_in(s: Seq<u8>) -> (Result<Option<Seq<u8>>, WireError>, Seq<u8>) {
    if s.len() < 4 {
        (Ok(None), s)
    } else if !(0 < announced(s) <= MAX_MESSAGE_BYTES) {
        (Err(WireError::Length), s)
    } else if s.len() < 4 + announced(s) {
        (Ok(None), s)
    } else {
        (Ok(Some(s.subrange(4, 4 + announced(s)))), s.skip(4 + announced(s)))
    }
}

/// Takes the first complete message out of a buffer. An incomplete one stays.
pub fn take_message(input: &mut Vec<u8>) -> (r: Result<Option<Vec<u8>>, WireError>)
    ensures
        final(input)@ == message_in(old(input)@).1,
        match (r, message_in(old(input)@).0) {
            (Ok(None), Ok(None)) => true,
            (Ok(Some(message)), Ok(Some(expected))) => message@ == expected,
            (Err(e), Err(f)) => e == f,
            _ => false,
        },
{
    let n: usize = input.len();
    if n < 4 {
        return Ok(None);
    }
    let length: usize = message_length(input.as_slice())?;
    if n - 4 < length {
        return Ok(None);
    }
    let message: Vec<u8> = copy_range(input.as_slice(), 4, 4 + length);
    let rest: Vec<u8> = copy_range(input.as_slice(), 4 + length, n);
    assert(rest@ =~= input@.skip(4 + length));
    *input = rest;
    Ok(Some(message))
}

/// A message is taken out of a buffer as it was put there, and nothing else is touched.
pub proof fn law_message_round_trip(operation: u8, payload: Seq<u8>, later: Seq<u8>)
    requires
        sendable(payload),
    ensures
        message_in(framed(operation, payload) + later) == (
            Ok::<Option<Seq<u8>>, WireError>(Some(seq![operation] + payload)),
            later,
        ),
{
    let s = framed(operation, payload) + later;
    let n = (1 + payload.len()) as nat;
    lemma_be_bytes_len(n, 4);
    lemma_pow256_values();
    lemma_be_round_trip(n, 4);
    assert(s.take(4) =~= be_bytes(n, 4));
    assert(s.subrange(4, (4 + n) as int) =~= seq![operation] + payload);
    assert(s.skip((4 + n) as int) =~= later);
}

/// No part of a message but the whole is ever taken for a message.
pub proof fn law_partial_message_waits(operation: u8, payload: Seq<u8>, n: int)
    requires
        sendable(payload),
        0 <= n < framed(operation, payload).len(),
    ensures
        message_in(framed(operation, payload).take(n)) == (
            Ok::<Option<Seq<u8>>, WireError>(None),
            framed(operation, payload).take(n),
        ),
{
    let whole = framed(operation, payload);
    let s = whole.take(n);
    let length = (1 + payload.len()) as nat;
    lemma_be_bytes_len(length, 4);
    lemma_pow256_values();
    lemma_be_round_trip(length, 4);
    if n >= 4 {
        assert(s.take(4) =~= be_bytes(length, 4));
    }
}

/// Collects received bytes until they make a message.
pub struct MessageReader {
    input: Vec<u8>,
}

/// What a reader has to do next.
pub enum ReadStep {
    /// The connection is being stopped.
    Stopped,
    /// A complete message.
    Message(Vec<u8>),
    /// More bytes are needed.
    Receive,
}

impl View for MessageReader {
    type V = Seq<u8>;

    closed spec fn view(&self) -> Seq<u8> {
        self.input@
    }
}

impl MessageReader {
    /// Nothing received yet.
    pub fn new() -> (r: MessageReader)
        ensures
            r@ == Seq::<u8>::empty(),
    {
        MessageReader { input: Vec::new() }
    }

    /// A stop comes before any message; a complete message before more bytes.
    pub fn next(&mut self, stopping: bool) -> (r: Result<ReadStep, WireError>)
        ensures
            stopping ==> r == Ok::<ReadStep, WireError>(ReadStep::Stopped) && final(self)@ == old(self)@,
            !stopping ==> final(self)@ == message_in(old(self)@).1 && match (
                r,
                message_in(old(self)@).0,
            ) {
                (Ok(ReadStep::Receive), Ok(None)) => true,
                (Ok(ReadStep::Message(message)), Ok(Some(expected))) => message@ == expected,
                (Err(e), Err(f)) => e == f,
                _ => false,
            },
    {
        if stopping {
            return Ok(ReadStep::Stopped);
        }
        match take_message(&mut self.input)? {
            Some(message) => Ok(ReadStep::Message(message)),
            None => Ok(ReadStep::Receive),
        }
    }

    /// Keeps received bytes. A buffer longer than any message is refused.
    pub fn received(&mut self, bytes: &[u8]) -> (r: Result<(), WireError>)
        ensures
            final(self)@ == old(self)@ + bytes@,
            r is Ok == (old(self)@.len() + bytes@.len() <= MAX_MESSAGE_BYTES + 4),
            r matches Err(e) ==> e == WireError::BufferFull,
    {
        append_slice(&mut self.input, bytes);
        if self.input.len() <= MAX_MESSAGE_BYTES + 4 {
            Ok(())
        } else {
            Err(WireError::BufferFull)
        }
    }

    /// The peer closed: an end between messages is orderly, one inside a message is not.
    pub fn closed(&self) -> (r: Result<(), WireError>)
        ensures
            r is Ok == (self@.len() == 0),
            r matches Err(e) ==> e == WireError::ClosedMidMessage,
    {
        if self.input.len() == 0 {
            Ok(())
        } else {
            Err(WireError::ClosedMidMessage)
        }
    }
}

/// Sends one message piece by piece.
pub struct MessageWriter {
    message: Vec<u8>,
    written: usize,
}

/// What a writer has to do next.
#[derive(Clone, Copy, Debug, PartialEq, Eq, Structural)]
pub enum WriteStep {
    /// Everything was sent.
    Done,
    /// Send the bytes from this place on.
    Send(usize),
}

impl MessageWriter {
    /// What was sent is a prefix of the message.
    pub closed spec fn wf(self) -> bool {
        self.written <= self.message@.len()
    }

    /// The whole message.
    pub closed spec fn message(self) -> Seq<u8> {
        self.message@
    }

    /// How much of it was sent.
    pub closed spec fn sent_bytes(self) -> int {
        self.written as int
    }

    /// A message of which nothing was sent yet, unless it is too long.
    pub fn new(operation: u8, payload: &[u8]) -> (r: Result<MessageWriter, WireError>)
        ensures
            r is Ok == sendable(payload@),
            r matches Ok(w) ==> w.wf() && w.message() == framed(operation, payload@)
                && w.sent_bytes() == 0,
            r matches Err(e) ==> e == WireError::TooLarge,
    {
        let message: Vec<u8> = encode_message(operation, payload)?;
        Ok(MessageWriter { message, written: 0 })
    }

    /// The bytes of the message.
    pub fn bytes(&self) -> (r: &[u8])
        ensures
            r@ == self.message(),
    {
        self.message.as_slice()
    }

    /// A stop interrupts a message that is not finished.
    pub fn next(&self, stopping: bool) -> (r: Result<WriteStep, WireError>)
        requires
            self.wf(),
        ensures
            r == (if self.sent_bytes() == self.message().len() {
                Ok::<WriteStep, WireError>(WriteStep::Done)
            } else if stopping {
                Err(WireError::Interrupted)
            } else {
                Ok(WriteStep::Send(self.sent_bytes() as usize))
            }),
    {
        if self.written == self.message.len() {
            Ok(WriteStep::Done)
        } else if stopping {
            Err(WireError::Interrupted)
        } else {
            Ok(WriteStep::Send(self.written))
        }
    }

    /// Some bytes were sent; none means that the peer closed.
    pub fn sent(&mut self, count: usize) -> (r: Result<(), WireError>)
        requires
            old(self).wf(),
            count <= old(self).message().len() - old(self).sent_bytes(),
        ensures
            final(self).wf(),
            final(self).message() == old(self).message(),
            final(self).sent_bytes() == old(self).sent_bytes() + count,
            r is Ok == (count > 0),
            r matches Err(e) ==> e == WireError::ClosedWhileWriting,
    {
        if count == 0 {
            return Err(WireError::ClosedWhileWriting);
        }
        assert(self.written + count <= self.message.len());
        self.written = self.written + count;
        Ok(())
    }
}

/// Appends one byte.
fn push_u8(output: &mut Vec<u8>, v: u8)
    ensures
        forall|t: Seq<u8>|
            #![trigger put_u8(v, t)]
            old(output)@ + put_u8(v, t) == final(output)@ + t,
{
    let ghost before = output@;
    output.push(v);
    assert forall|t: Seq<u8>| before + #[trigger] put_u8(v, t) == output@ + t by {
        reveal(put_u8);
        assert(before + (seq![v] + t) =~= output@ + t);
    }
}

fn push_flag(output: &mut Vec<u8>, v: bool)
    ensures
        forall|t: Seq<u8>|
            #![trigger put_flag(v, t)]
            old(output)@ + put_flag(v, t) == final(output)@ + t,
{
    push_u8(
        output,
        if v {
            1
        } else {
            0
        },
    );
}

/// Appends a number as a big-endian word, if it fits one.
pub fn put_u32(output: &mut Vec<u8>, value: usize) -> (r: Result<(), WireError>)
    ensures
        r is Ok == (value <= u32::MAX),
        r is Ok ==> forall|t: Seq<u8>|
            #![trigger put_be32(value as nat, t)]
            old(output)@ + put_be32(value as nat, t) == final(output)@ + t,
        r is Err ==> final(output)@ == old(output)@,
        r matches Err(e) ==> e == WireError::Count,
{
    if value as u64 > 0xffff_ffff {
        return Err(WireError::Count);
    }
    let ghost before = output@;
    crate::bytes::put_be(output, value as u64, 4);
    assert forall|t: Seq<u8>| before + #[trigger] put_be32(value as nat, t) == output@ + t by {
        reveal(put_be32);
        assert(before + (be_bytes(value as nat, 4) + t) =~= output@ + t);
    }
    Ok(())
}

fn push_id(output: &mut Vec<u8>, v: u32)
    ensures
        forall|t: Seq<u8>|
            #![trigger put_be32(v as nat, t)]
            old(output)@ + put_be32(v as nat, t) == final(output)@ + t,
{
    let ghost before = output@;
    crate::bytes::put_be(output, v as u64, 4);
    assert forall|t: Seq<u8>| before + #[trigger] put_be32(v as nat, t) == output@ + t by {
        reveal(put_be32);
        assert(before + (be_bytes(v as nat, 4) + t) =~= output@ + t);
    }
}

fn push_real(output: &mut Vec<u8>, v: RealBits)
    ensures
        forall|t: Seq<u8>|
            #![trigger put_be64(v.bits as nat, t)]
            old(output)@ + put_be64(v.bits as nat, t) == final(output)@ + t,
{
    let ghost before = output@;
    crate::bytes::put_be(output, v.bits, 8);
    assert forall|t: Seq<u8>| before + #[trigger] put_be64(v.bits as nat, t) == output@ + t by {
        reveal(put_be64);
        assert(before + (be_bytes(v.bits as nat, 8) + t) =~= output@ + t);
    }
}

/// Appends the state of Fn and the modifiers.
pub fn encode_input_state(output: &mut Vec<u8>, state: InputState)
    ensures
        forall|t: Seq<u8>|
            #![trigger put_input(state, t)]
            old(output)@ + put_input(state, t) == final(output)@ + t,
{
    proof {
        reveal(put_input);
    }
    push_flag(output, state.fn_active);
    let v: ModifierState = state.modifiers;
    let ghost before = output@;
    let mut i: u8 = 0;
    while i < 8
        invariant
            i <= 8,
            forall|t: Seq<u8>|
                #![trigger put_modifiers(v, i as int, t)]
                #![trigger put_modifiers(v, 0, t)]
                before + put_modifiers(v, 0, t) == output@ + put_modifiers(v, i as int, t),
        decreases 8 - i,
    {
        if let Some(modifier) = Modifier::from_index(i) {
            assert(modifier == modifier_at(i as int));
            let ghost at = output@;
            push_flag(output, v.is_active(modifier));
            assert forall|t: Seq<u8>|
                #![trigger put_modifiers(v, i + 1, t)]
                #![trigger put_modifiers(v, 0, t)]
                before + put_modifiers(v, 0, t) == output@ + put_modifiers(v, i + 1, t) by {
                let later = put_modifiers(v, i + 1, t);
                assert(put_modifiers(v, i as int, t) == put_flag(
                    v.active(modifier_at(i as int)),
                    later,
                ));
                assert(at + put_flag(v.active(modifier_at(i as int)), later) == output@ + later);
            }
        }
        i += 1;
    }
}

fn push_measure(output: &mut Vec<u8>, v: Option<RealBits>)
    ensures
        forall|t: Seq<u8>|
            #![trigger put_measure(v, t)]
            old(output)@ + put_measure(v, t) == final(output)@ + t,
{
    match v {
        Some(value) => {
            push_u8(output, 1);
            push_real(output, value);
        },
        None => push_u8(output, 0),
    }
}

fn touch_phase_byte(v: TouchPhase) -> (b: u8)
    ensures
        b == touch_phase_code(v),
{
    match v {
        TouchPhase::Down => 0,
        TouchPhase::Move => 1,
        TouchPhase::Up => 2,
        TouchPhase::Cancel => 3,
    }
}

/// Appends one report of a contact.
pub fn encode_touch(output: &mut Vec<u8>, event: &TouchEvent)
    ensures
        forall|t: Seq<u8>|
            #![trigger put_touch(*event, t)]
            old(output)@ + put_touch(*event, t) == final(output)@ + t,
{
    proof {
        reveal(put_touch);
    }
    push_u8(output, touch_phase_byte(event.phase));
    push_id(output, event.id);
    push_real(output, event.time);
    push_real(output, event.x);
    push_real(output, event.y);
    encode_input_state(output, InputState { fn_active: false, modifiers: event.modifiers });
    push_measure(output, event.pressure);
    push_measure(output, event.width);
    push_measure(output, event.height);
}

fn encode_event(output: &mut Vec<u8>, event: &HardwareEvent)
    ensures
        forall|t: Seq<u8>|
            #![trigger put_event(*event, t)]
            old(output)@ + put_event(*event, t) == final(output)@ + t,
{
    proof {
        reveal(put_event);
    }
    match event {
        HardwareEvent::Fn { active } => {
            push_u8(output, 0);
            push_flag(output, *active);
        },
        HardwareEvent::Modifier { modifier, active } => {
            push_u8(output, 1);
            push_u8(output, modifier.index() as u8);
            push_flag(output, *active);
        },
        HardwareEvent::Touch(touch) => {
            push_u8(output, 2);
            encode_touch(output, touch);
        },
        HardwareEvent::Device { present } => {
            push_u8(output, 3);
            push_flag(output, *present);
        },
        HardwareEvent::Visibility { visible } => {
            push_u8(output, 4);
            push_flag(output, *visible);
        },
        HardwareEvent::Capability { capability, present } => {
            push_u8(output, 5);
            push_u8(output, capability.to_wire());
            push_flag(output, *present);
        },
    }
}

/// A batch of events, unless there are too many to count.
pub fn encode_events(events: &[HardwareEvent]) -> (r: Result<Vec<u8>, WireError>)
    ensures
        r is Ok == (events@.len() <= u32::MAX),
        r matches Ok(output) ==> output@ == events_payload(events@),
        r matches Err(e) ==> e == WireError::Count,
{
    let mut output: Vec<u8> = Vec::new();
    let ghost empty = output@;
    put_u32(&mut output, events.len())?;
    let ghost before = output@;
    let mut i: usize = 0;
    assert(events@.skip(0) =~= events@);
    while i < events.len()
        invariant
            i <= events@.len(),
            forall|t: Seq<u8>|
                #![trigger put_event_list(events@.skip(i as int), t)]
                #![trigger put_event_list(events@, t)]
                before + put_event_list(events@, t) == output@ + put_event_list(
                    events@.skip(i as int),
                    t,
                ),
        decreases events@.len() - i,
    {
        let ghost at = output@;
        encode_event(&mut output, &events[i]);
        assert forall|t: Seq<u8>|
            #![trigger put_event_list(events@.skip(i + 1), t)]
            #![trigger put_event_list(events@, t)]
            before + put_event_list(events@, t) == output@ + put_event_list(
                events@.skip(i + 1),
                t,
            ) by {
            let later = put_event_list(events@.skip(i + 1), t);
            assert(events@.skip(i as int).drop_first() =~= events@.skip(i + 1));
            assert(put_event_list(events@.skip(i as int), t) == put_event(
                events@[i as int],
                later,
            ));
            assert(at + put_event(events@[i as int], later) == output@ + later);
        }
        i += 1;
    }
    proof {
        assert(events@.skip(i as int) =~= Seq::empty());
        let list = put_event_list(events@, Seq::empty());
        assert(before + list == output@ + Seq::<u8>::empty());
        assert(output@ + Seq::<u8>::empty() =~= output@);
        assert(empty + put_be32(events@.len(), list) == before + list);
        assert(empty + events_payload(events@) =~= events_payload(events@));
    }
    Ok(output)
}

/// Appends one press or release.
pub fn encode_key_event(output: &mut Vec<u8>, event: SyntheticKeyEvent)
    ensures
        forall|t: Seq<u8>|
            #![trigger put_key(event, t)]
            old(output)@ + put_key(event, t) == final(output)@ + t,
{
    proof {
        reveal(put_key);
    }
    match event.key {
        OutputKey::Keyboard(key) => {
            push_u8(output, 0);
            push_u8(output, key.to_wire());
        },
        OutputKey::Consumer(key) => {
            push_u8(output, 1);
            push_u8(output, key.to_wire());
        },
    }
    push_flag(output, event.active);
}

/// A batch of keys, unless there are too many to count.
pub fn encode_key_events(events: &[SyntheticKeyEvent]) -> (r: Result<Vec<u8>, WireError>)
    ensures
        r is Ok == (events@.len() <= u32::MAX),
        r matches Ok(output) ==> output@ == keys_payload(events@),
        r matches Err(e) ==> e == WireError::Count,
{
    let mut output: Vec<u8> = Vec::new();
    let ghost empty = output@;
    put_u32(&mut output, events.len())?;
    let ghost before = output@;
    let mut i: usize = 0;
    assert(events@.skip(0) =~= events@);
    while i < events.len()
        invariant
            i <= events@.len(),
            forall|t: Seq<u8>|
                #![trigger put_key_list(events@.skip(i as int), t)]
                #![trigger put_key_list(events@, t)]
                before + put_key_list(events@, t) == output@ + put_key_list(
                    events@.skip(i as int),
                    t,
                ),
        decreases events@.len() - i,
    {
        let ghost at = output@;
        encode_key_event(&mut output, events[i]);
        assert forall|t: Seq<u8>|
            #![trigger put_key_list(events@.skip(i + 1), t)]
            #![trigger put_key_list(events@, t)]
            before + put_key_list(events@, t) == output@ + put_key_list(events@.skip(i + 1), t) by {
            let later = put_key_list(events@.skip(i + 1), t);
            assert(events@.skip(i as int).drop_first() =~= events@.skip(i + 1));
            assert(put_key_list(events@.skip(i as int), t) == put_key(events@[i as int], later));
            assert(at + put_key(events@[i as int], later) == output@ + later);
        }
        i += 1;
    }
    proof {
        assert(events@.skip(i as int) =~= Seq::empty());
        let list = put_key_list(events@, Seq::empty());
        assert(before + list == output@ + Seq::<u8>::empty());
        assert(output@ + Seq::<u8>::empty() =~= output@);
        assert(empty + put_be32(events@.len(), list) == before + list);
        assert(empty + keys_payload(events@) =~= keys_payload(events@));
    }
    Ok(output)
}

/// A frame, unless one of its sizes does not fit a word.
pub fn encode_frame(frame: &LogicalFrame) -> (r: Result<Vec<u8>, WireError>)
    ensures
        r is Ok == (frame@.width <= u32::MAX && frame@.height <= u32::MAX && frame@.stride
            <= u32::MAX),
        r matches Ok(output) ==> output@ == frame_payload(frame@),
        r matches Err(e) ==> e == WireError::Count,
{
    let mut output: Vec<u8> = Vec::new();
    let ghost empty = output@;
    put_u32(&mut output, frame.width())?;
    put_u32(&mut output, frame.height())?;
    put_u32(&mut output, frame.stride())?;
    let ghost head = output@;
    append_slice(&mut output, frame.pixels());
    proof {
        let f = frame@;
        let stride = put_be32(f.stride as nat, f.pixels);
        let height = put_be32(f.height as nat, stride);
        assert(empty + put_be32(f.width as nat, height) == head + f.pixels);
        assert(empty + frame_payload(f) =~= frame_payload(f));
    }
    Ok(output)
}

/// The answer to a claim.
pub fn encode_claim(input: InputState, backlight: RealBits) -> (output: Vec<u8>)
    ensures
        output@ == claim_payload(input, backlight),
{
    let mut output: Vec<u8> = Vec::new();
    let ghost empty = output@;
    encode_input_state(&mut output, input);
    let ghost head = output@;
    crate::bytes::put_be(&mut output, backlight.bits, 8);
    proof {
        let tail = be_bytes(backlight.bits as nat, 8);
        assert(empty + put_input(input, tail) == head + tail);
        assert(empty + claim_payload(input, backlight) =~= claim_payload(input, backlight));
    }
    output
}

/// Reads the fields of one payload.
pub struct Reader<'a> {
    bytes: &'a [u8],
    at: usize,
}

impl<'a> Reader<'a> {
    pub closed spec fn wf(self) -> bool {
        self.at <= self.bytes@.len()
    }

    /// What is still to be read.
    pub closed spec fn rest(self) -> Seq<u8> {
        self.bytes@.skip(self.at as int)
    }

    /// Reads `bytes` from the start.
    pub fn new(bytes: &'a [u8]) -> (r: Reader<'a>)
        ensures
            r.wf(),
            r.rest() == bytes@,
    {
        let r = Reader { bytes, at: 0 };
        assert(r.rest() =~= bytes@);
        r
    }

    /// How much is still to be read.
    pub fn remaining(&self) -> (n: usize)
        requires
            self.wf(),
        ensures
            n == self.rest().len(),
    {
        self.bytes.len() - self.at
    }

    /// Everything that is still to be read.
    pub fn remainder(&self) -> (r: Vec<u8>)
        requires
            self.wf(),
        ensures
            r@ == self.rest(),
    {
        let r: Vec<u8> = copy_range(self.bytes, self.at, self.bytes.len());
        assert(r@ =~= self.rest());
        r
    }

    fn byte(&mut self, short: WireError) -> (r: Result<u8, WireError>)
        requires
            old(self).wf(),
        ensures
            final(self).wf(),
            outcome(r, take_u8(old(self).rest(), short), final(self).rest()),
    {
        proof {
            reveal(take_u8);
        }
        if self.at >= self.bytes.len() {
            return Err(short);
        }
        let v: u8 = self.bytes[self.at];
        let ghost before = self.rest();
        self.at = self.at + 1;
        assert(self.rest() =~= before.skip(1));
        Ok(v)
    }

    fn word(&mut self, short: WireError) -> (r: Result<u32, WireError>)
        requires
            old(self).wf(),
        ensures
            final(self).wf(),
            outcome(r, take_be32(old(self).rest(), short), final(self).rest()),
    {
        proof {
            reveal(take_be32);
        }
        if self.bytes.len() - self.at < 4 {
            return Err(short);
        }
        let v: u64 = get_be(self.bytes, self.at, 4);
        proof {
            lemma_pow256_values();
            assert(self.rest().take(4) =~= self.bytes@.subrange(self.at as int, self.at + 4));
        }
        let ghost before = self.rest();
        self.at = self.at + 4;
        assert(self.rest() =~= before.skip(4));
        Ok(v as u32)
    }

    /// Reads a count or a size.
    pub fn read_u32(&mut self) -> (r: Result<u32, WireError>)
        requires
            old(self).wf(),
        ensures
            final(self).wf(),
            outcome(
                r,
                take_be32(old(self).rest(), WireError::PayloadTruncated),
                final(self).rest(),
            ),
    {
        self.word(WireError::PayloadTruncated)
    }

    /// Reads a number, with the error for one that is cut off.
    pub fn read_real(&mut self, short: WireError) -> (r: Result<RealBits, WireError>)
        requires
            old(self).wf(),
        ensures
            final(self).wf(),
            outcome(r, take_real(old(self).rest(), short), final(self).rest()),
    {
        proof {
            reveal(take_be64);
        }
        if self.bytes.len() - self.at < 8 {
            return Err(short);
        }
        let bits: u64 = get_be(self.bytes, self.at, 8);
        proof {
            lemma_pow256_values();
            assert(self.rest().take(8) =~= self.bytes@.subrange(self.at as int, self.at + 8));
        }
        let ghost before = self.rest();
        self.at = self.at + 8;
        assert(self.rest() =~= before.skip(8));
        Ok(RealBits { bits })
    }

    /// Reads a flag, which is exactly zero or one.
    pub fn read_bool(&mut self) -> (r: Result<bool, WireError>)
        requires
            old(self).wf(),
        ensures
            final(self).wf(),
            outcome(r, take_flag(old(self).rest()), final(self).rest()),
    {
        let b: u8 = self.byte(WireError::BooleanTruncated)?;
        if b <= 1 {
            Ok(b != 0)
        } else {
            Err(WireError::BooleanInvalid)
        }
    }

    /// Reads the state of Fn and the modifiers.
    pub fn decode_input_state(&mut self) -> (r: Result<InputState, WireError>)
        requires
            old(self).wf(),
        ensures
            final(self).wf(),
            outcome(r, take_input(old(self).rest()), final(self).rest()),
    {
        proof {
            reveal(take_input);
        }
        let first: u8 = self.byte(WireError::InputTruncated)?;
        let ghost start = self.rest();
        let mut v: ModifierState = ModifierState::empty();
        let mut i: u8 = 0;
        while i < 8
            invariant
                i <= 8,
                self.wf(),
                take_input(old(self).rest()) == (match take_modifiers(v, i as int, self.rest()) {
                    Err(e) => Err::<(InputState, Seq<u8>), WireError>(e),
                    Ok((modifiers, t)) => Ok(
                        (InputState { fn_active: first != 0, modifiers }, t),
                    ),
                }),
            decreases 8 - i,
        {
            let b: u8 = self.byte(WireError::ModifierTruncated)?;
            if let Some(modifier) = Modifier::from_index(i) {
                assert(modifier == modifier_at(i as int));
                v.set(modifier, b != 0);
            }
            i += 1;
        }
        Ok(InputState { fn_active: first != 0, modifiers: v })
    }

    fn measure(&mut self, short: WireError) -> (r: Result<Option<RealBits>, WireError>)
        requires
            old(self).wf(),
        ensures
            final(self).wf(),
            outcome(r, take_measure(old(self).rest(), short), final(self).rest()),
    {
        if self.read_bool()? {
            let v: RealBits = self.read_real(short)?;
            Ok(Some(v))
        } else {
            Ok(None)
        }
    }

    /// Reads one report of a contact.
    pub fn decode_touch(&mut self) -> (r: Result<TouchEvent, WireError>)
        requires
            old(self).wf(),
        ensures
            final(self).wf(),
            outcome(r, take_touch(old(self).rest()), final(self).rest()),
    {
        proof {
            reveal(take_touch);
        }
        let b: u8 = self.byte(WireError::TouchTruncated)?;
        let phase: TouchPhase = match b {
            0 => TouchPhase::Down,
            1 => TouchPhase::Move,
            2 => TouchPhase::Up,
            3 => TouchPhase::Cancel,
            _ => {
                return Err(WireError::UnknownTouchPhase(b));
            },
        };
        let id: u32 = self.word(WireError::TouchIdTruncated)?;
        let time: RealBits = self.read_real(WireError::TouchTime)?;
        let x: RealBits = self.read_real(WireError::TouchX)?;
        let y: RealBits = self.read_real(WireError::TouchY)?;
        let state: InputState = self.decode_input_state()?;
        let pressure: Option<RealBits> = self.measure(WireError::TouchPressure)?;
        let width: Option<RealBits> = self.measure(WireError::TouchWidth)?;
        let height: Option<RealBits> = self.measure(WireError::TouchHeight)?;
        Ok(TouchEvent { phase, id, time, x, y, modifiers: state.modifiers, pressure, width, height })
    }

    fn event(&mut self) -> (r: Result<HardwareEvent, WireError>)
        requires
            old(self).wf(),
        ensures
            final(self).wf(),
            outcome(r, take_event(old(self).rest()), final(self).rest()),
    {
        proof {
            reveal(take_event);
        }
        let kind: u8 = self.byte(WireError::EventTruncated)?;
        match kind {
            0 => {
                let active: bool = self.read_bool()?;
                Ok(HardwareEvent::Fn { active })
            },
            1 => {
                let index: u8 = self.byte(WireError::ModifierEventTruncated)?;
                match Modifier::from_index(index) {
                    Some(modifier) => {
                        let active: bool = self.read_bool()?;
                        Ok(HardwareEvent::Modifier { modifier, active })
                    },
                    None => Err(WireError::InvalidModifier),
                }
            },
            2 => {
                let touch: TouchEvent = self.decode_touch()?;
                Ok(HardwareEvent::Touch(touch))
            },
            3 => {
                let present: bool = self.read_bool()?;
                Ok(HardwareEvent::Device { present })
            },
            4 => {
                let visible: bool = self.read_bool()?;
                Ok(HardwareEvent::Visibility { visible })
            },
            5 => {
                let code: u8 = self.byte(WireError::CapabilityTruncated)?;
                match HardwareCapability::from_wire(code) {
                    Ok(capability) => {
                        let present: bool = self.read_bool()?;
                        Ok(HardwareEvent::Capability { capability, present })
                    },
                    Err(unknown) => Err(WireError::UnknownCapability(unknown)),
                }
            },
            _ => Err(WireError::UnknownEvent(kind)),
        }
    }

    fn key(&mut self) -> (r: Result<SyntheticKeyEvent, WireError>)
        requires
            old(self).wf(),
        ensures
            final(self).wf(),
            outcome(r, take_key(old(self).rest()), final(self).rest()),
    {
        broadcast use {lemma_keyboard_key_of, lemma_consumer_key_of};

        proof {
            reveal(take_key);
        }
        if self.bytes.len() - self.at < 3 {
            return Err(WireError::KeyTruncated);
        }
        let kind: u8 = self.bytes[self.at];
        let value: u8 = self.bytes[self.at + 1];
        let active: u8 = self.bytes[self.at + 2];
        let ghost before = self.rest();
        self.at = self.at + 3;
        assert(self.rest() =~= before.skip(3));
        let key: OutputKey = match kind {
            0 => match KeyboardKey::from_wire(value) {
                Ok(key) => OutputKey::Keyboard(key),
                Err(unknown) => {
                    return Err(WireError::UnknownKeyboardKey(unknown));
                },
            },
            1 => match ConsumerKey::from_wire(value) {
                Ok(key) => OutputKey::Consumer(key),
                Err(unknown) => {
                    return Err(WireError::UnknownConsumerKey(unknown));
                },
            },
            _ => {
                return Err(WireError::UnknownKeyKind(kind));
            },
        };
        if active > 1 {
            return Err(WireError::KeyStateInvalid);
        }
        Ok(SyntheticKeyEvent { key, active: active != 0 })
    }
}

/// The answer to a claim.
pub fn decode_claim(payload: &[u8]) -> (r: Result<(InputState, RealBits), WireError>)
    ensures
        r == payload_claim(payload@),
{
    let mut reader: Reader = Reader::new(payload);
    let input: InputState = reader.decode_input_state()?;
    if reader.remaining() != 8 {
        return Err(WireError::ClaimMalformed);
    }
    let rest: Vec<u8> = reader.remainder();
    proof {
        lemma_pow256_values();
        lemma_be_value_bound(rest@);
        assert(rest@.subrange(0, 8) =~= rest@);
    }
    let bits: u64 = get_be(rest.as_slice(), 0, 8);
    Ok((input, RealBits { bits }))
}

/// The batch of events in a payload.
pub fn decode_events(payload: &[u8]) -> (r: Result<Vec<HardwareEvent>, WireError>)
    ensures
        match r {
            Ok(events) => payload_events(payload@) == Ok::<Seq<HardwareEvent>, WireError>(events@)
                && events@.len() <= MAX_BATCH,
            Err(e) => payload_events(payload@) == Err::<Seq<HardwareEvent>, WireError>(e),
        },
{
    let mut reader: Reader = Reader::new(payload);
    let count: u32 = reader.read_u32()?;
    if count as usize > MAX_BATCH {
        return Err(WireError::EventBatch);
    }
    let ghost start = reader.rest();
    let mut events: Vec<HardwareEvent> = Vec::new();
    let mut i: u32 = 0;
    assert(forall|later: Seq<HardwareEvent>| Seq::<HardwareEvent>::empty() + later =~= later);
    while i < count
        invariant
            i <= count <= MAX_BATCH,
            events@.len() == i,
            reader.wf(),
            take_be32(payload@, WireError::PayloadTruncated) == Ok::<(u32, Seq<u8>), WireError>(
                (count, start),
            ),
            match take_event_list(reader.rest(), (count - i) as nat) {
                Ok((later, t)) => take_event_list(start, count as nat) == Ok::<
                    (Seq<HardwareEvent>, Seq<u8>),
                    WireError,
                >((events@ + later, t)),
                Err(e) => take_event_list(start, count as nat) == Err::<
                    (Seq<HardwareEvent>, Seq<u8>),
                    WireError,
                >(e),
            },
        decreases count - i,
    {
        let ghost before = events@;
        let event: HardwareEvent = reader.event()?;
        events.push(event);
        proof {
            if let Ok((later, t)) = take_event_list(reader.rest(), (count - i - 1) as nat) {
                assert(before + (seq![event] + later) =~= events@ + later);
            }
        }
        i += 1;
    }
    assert(events@ + Seq::<HardwareEvent>::empty() =~= events@);
    if reader.remaining() != 0 {
        return Err(WireError::EventTrailing);
    }
    Ok(events)
}

/// The batch of keys in a payload.
pub fn decode_key_events(payload: &[u8]) -> (r: Result<Vec<SyntheticKeyEvent>, WireError>)
    ensures
        match r {
            Ok(events) => payload_keys(payload@) == Ok::<Seq<SyntheticKeyEvent>, WireError>(events@)
                && events@.len() <= MAX_BATCH,
            Err(e) => payload_keys(payload@) == Err::<Seq<SyntheticKeyEvent>, WireError>(e),
        },
{
    let mut reader: Reader = Reader::new(payload);
    let count: u32 = reader.read_u32()?;
    if count as usize > MAX_BATCH {
        return Err(WireError::KeyBatch);
    }
    let ghost start = reader.rest();
    let mut events: Vec<SyntheticKeyEvent> = Vec::new();
    let mut i: u32 = 0;
    assert(forall|later: Seq<SyntheticKeyEvent>| Seq::<SyntheticKeyEvent>::empty() + later =~= later);
    while i < count
        invariant
            i <= count <= MAX_BATCH,
            events@.len() == i,
            reader.wf(),
            take_be32(payload@, WireError::PayloadTruncated) == Ok::<(u32, Seq<u8>), WireError>(
                (count, start),
            ),
            match take_key_list(reader.rest(), (count - i) as nat) {
                Ok((later, t)) => take_key_list(start, count as nat) == Ok::<
                    (Seq<SyntheticKeyEvent>, Seq<u8>),
                    WireError,
                >((events@ + later, t)),
                Err(e) => take_key_list(start, count as nat) == Err::<
                    (Seq<SyntheticKeyEvent>, Seq<u8>),
                    WireError,
                >(e),
            },
        decreases count - i,
    {
        let ghost before = events@;
        let event: SyntheticKeyEvent = reader.key()?;
        events.push(event);
        proof {
            if let Ok((later, t)) = take_key_list(reader.rest(), (count - i - 1) as nat) {
                assert(before + (seq![event] + later) =~= events@ + later);
            }
        }
        i += 1;
    }
    assert(events@ + Seq::<SyntheticKeyEvent>::empty() =~= events@);
    if reader.remaining() != 0 {
        return Err(WireError::KeyTrailing);
    }
    Ok(events)
}

/// The frame in a payload.
pub fn decode_frame(payload: &[u8]) -> (r: Result<LogicalFrame, WireError>)
    ensures
        match r {
            Ok(frame) => payload_frame(payload@) == Ok::<FrameView, WireError>(frame@)
                && frame.correlation() is None,
            Err(e) => payload_frame(payload@) == Err::<FrameView, WireError>(e),
        },
{
    let mut reader: Reader = Reader::new(payload);
    let width: u32 = reader.read_u32()?;
    let height: u32 = reader.read_u32()?;
    let stride: u32 = reader.read_u32()?;
    if width != 2008 {
        return Err(WireError::FrameWidth);
    }
    if height != 60 {
        return Err(WireError::FrameHeight);
    }
    if stride < 8032 {
        return Err(WireError::FrameStride);
    }
    if reader.remaining() as u64 != stride as u64 * 60 {
        return Err(WireError::FramePixels);
    }
    let pixels: Vec<u8> = reader.remainder();
    Ok(LogicalFrame::from_parts(width as usize, height as usize, stride as usize, pixels))
}

} // verus!
