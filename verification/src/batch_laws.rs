//! A batch has one length: it is refused with a byte more and with a byte less.
use vstd::prelude::*;

use crate::broker_wire::{
    payload_events, payload_keys, take_be32, take_be64, take_event, take_event_list, take_input,
    take_key, take_key_list, take_measure, take_measures, take_modifiers, take_place,
    take_touch, take_u8, Taken, WireError,
};
use crate::hardware::{modifier_at, ModifierState};

verus! {

/// What was read off the front of some bytes is read off the same bytes with more behind
/// them, which are then left too.
pub open spec fn same_with_more<T>(taken: Taken<T>, longer: Taken<T>, more: Seq<u8>) -> bool {
    taken matches Ok((v, t)) ==> longer == Ok::<(T, Seq<u8>), WireError>((v, t + more))
}

broadcast proof fn lemma_more_u8(s: Seq<u8>, more: Seq<u8>, short: WireError)
    ensures
        #![trigger take_u8(s + more, short)]
        same_with_more(take_u8(s, short), take_u8(s + more, short), more),
{
    reveal(take_u8);
    if s.len() >= 1 {
        assert((s + more).skip(1) =~= s.skip(1) + more);
    }
}

broadcast proof fn lemma_more_be32(s: Seq<u8>, more: Seq<u8>, short: WireError)
    ensures
        #![trigger take_be32(s + more, short)]
        same_with_more(take_be32(s, short), take_be32(s + more, short), more),
{
    reveal(take_be32);
    if s.len() >= 4 {
        assert((s + more).skip(4) =~= s.skip(4) + more);
        assert((s + more).take(4) =~= s.take(4));
    }
}

broadcast proof fn lemma_more_be64(s: Seq<u8>, more: Seq<u8>, short: WireError)
    ensures
        #![trigger take_be64(s + more, short)]
        same_with_more(take_be64(s, short), take_be64(s + more, short), more),
{
    reveal(take_be64);
    if s.len() >= 8 {
        assert((s + more).skip(8) =~= s.skip(8) + more);
        assert((s + more).take(8) =~= s.take(8));
    }
}

broadcast group group_more {
    lemma_more_u8,
    lemma_more_be32,
    lemma_more_be64,
}

proof fn lemma_more_modifiers(v: ModifierState, n: int, s: Seq<u8>, more: Seq<u8>)
    ensures
        same_with_more(take_modifiers(v, n, s), take_modifiers(v, n, s + more), more),
    decreases 8 - n,
{
    broadcast use group_more;

    if n < 8 {
        if let Ok((b, t)) = take_u8(s, WireError::ModifierTruncated) {
            lemma_more_modifiers(v.with(modifier_at(n), b != 0), n + 1, t, more);
        }
    }
}

proof fn lemma_more_touch(s: Seq<u8>, more: Seq<u8>)
    ensures
        same_with_more(take_touch(s), take_touch(s + more), more),
{
    broadcast use group_more;

    reveal(take_touch);
    reveal(take_input);
    assert(forall|t: Seq<u8>|
        same_with_more(take_place(t), #[trigger] take_place(t + more), more));
    assert(forall|t: Seq<u8>, short: WireError|
        same_with_more(take_measure(t, short), #[trigger] take_measure(t + more, short), more));
    assert(forall|t: Seq<u8>|
        same_with_more(take_measures(t), #[trigger] take_measures(t + more), more));
    assert forall|t: Seq<u8>|
        same_with_more(take_input(t), #[trigger] take_input(t + more), more) by {
        if let Ok((b, rest)) = take_u8(t, WireError::InputTruncated) {
            lemma_more_modifiers(ModifierState::none(), 0, rest, more);
        }
    }
}

proof fn lemma_more_event(s: Seq<u8>, more: Seq<u8>)
    ensures
        same_with_more(take_event(s), take_event(s + more), more),
{
    broadcast use group_more;

    reveal(take_event);
    if let Ok((b, t)) = take_u8(s, WireError::EventTruncated) {
        lemma_more_touch(t, more);
    }
}

proof fn lemma_more_events(s: Seq<u8>, n: nat, more: Seq<u8>)
    ensures
        same_with_more(take_event_list(s, n), take_event_list(s + more, n), more),
    decreases n,
{
    if n > 0 {
        lemma_more_event(s, more);
        if let Ok((v, t)) = take_event(s) {
            lemma_more_events(t, (n - 1) as nat, more);
        }
    }
}

proof fn lemma_more_keys(s: Seq<u8>, n: nat, more: Seq<u8>)
    ensures
        same_with_more(take_key_list(s, n), take_key_list(s + more, n), more),
    decreases n,
{
    if n > 0 {
        reveal(take_key);
        if s.len() >= 3 {
            assert((s + more).skip(3) =~= s.skip(3) + more);
            lemma_more_keys(s.skip(3), (n - 1) as nat, more);
        }
    }
}

/// A payload that is a batch of events is none with anything behind it, and none without
/// its end.
pub proof fn law_a_batch_of_events_has_one_length(s: Seq<u8>, more: Seq<u8>)
    requires
        more.len() > 0,
    ensures
        !(payload_events(s) is Ok && payload_events(s + more) is Ok),
{
    broadcast use group_more;

    if let Ok((count, t)) = take_be32(s, WireError::PayloadTruncated) {
        lemma_more_events(t, count as nat, more);
    }
}

/// A payload that is a batch of keys is none with anything behind it, and none without its
/// end.
pub proof fn law_a_batch_of_keys_has_one_length(s: Seq<u8>, more: Seq<u8>)
    requires
        more.len() > 0,
    ensures
        !(payload_keys(s) is Ok && payload_keys(s + more) is Ok),
{
    broadcast use group_more;

    if let Ok((count, t)) = take_be32(s, WireError::PayloadTruncated) {
        lemma_more_keys(t, count as nat, more);
    }
}

} // verus!
