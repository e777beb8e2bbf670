//! What a client holds on the hardware: keys that are down and contacts that touch.
use vstd::prelude::*;

use crate::hardware::{
    each_key, tap, HardwareEvent, OutputKey, SyntheticKeyEvent, TouchEvent, TouchPhase,
};

verus! {

/// The keys that a client holds down on the virtual keyboard, each once, in the
/// order in which they went down.
pub struct HeldKeys {
    keys: Vec<OutputKey>,
}

/// The held keys after one event.
pub open spec fn keys_after(keys: Seq<OutputKey>, event: SyntheticKeyEvent) -> Seq<OutputKey> {
    if event.active {
        if keys.contains(event.key) {
            keys
        } else {
            keys.push(event.key)
        }
    } else if keys.contains(event.key) {
        keys.remove(keys.index_of(event.key))
    } else {
        keys
    }
}

/// The held keys after a batch of events.
pub open spec fn keys_after_all(keys: Seq<OutputKey>, events: Seq<SyntheticKeyEvent>) -> Seq<
    OutputKey,
>
    decreases events.len(),
{
    if events.len() == 0 {
        keys
    } else {
        keys_after(keys_after_all(keys, events.drop_last()), events.last())
    }
}

impl View for HeldKeys {
    type V = Seq<OutputKey>;

    closed spec fn view(&self) -> Seq<OutputKey> {
        self.keys@
    }
}

impl HeldKeys {
    /// No key is held twice.
    pub open spec fn wf(self) -> bool {
        self@.no_duplicates()
    }

    /// Nothing is held.
    pub fn new() -> (r: HeldKeys)
        ensures
            r.wf(),
            r@ == Seq::<OutputKey>::empty(),
    {
        HeldKeys { keys: Vec::new() }
    }

    fn position(&self, key: OutputKey) -> (r: Option<usize>)
        requires
            self.wf(),
        ensures
            match r {
                Some(i) => i < self@.len() && self@[i as int] == key && self@.contains(key) && i
                    == self@.index_of(key),
                None => !self@.contains(key),
            },
    {
        let mut i: usize = 0;
        while i < self.keys.len()
            invariant
                i <= self@.len(),
                self.wf(),
                forall|j: int| 0 <= j < i ==> #[trigger] self@[j] != key,
            decreases self@.len() - i,
        {
            if self.keys[i] == key {
                proof {
                    assert(self@.contains(key));
                    let found = self@.index_of(key);
                    assert(self@[found] == key && self@[i as int] == key);
                }
                return Some(i);
            }
            i += 1;
        }
        None
    }

    /// Whether a key is held.
    pub fn contains(&self, key: OutputKey) -> (r: bool)
        requires
            self.wf(),
        ensures
            r == self@.contains(key),
    {
        match self.position(key) {
            Some(_) => true,
            None => false,
        }
    }

    fn observe_one(&mut self, event: SyntheticKeyEvent)
        requires
            old(self).wf(),
        ensures
            final(self).wf(),
            final(self)@ == keys_after(old(self)@, event),
    {
        let position: Option<usize> = self.position(event.key);
        match position {
            Some(i) => {
                if !event.active {
                    let _removed: OutputKey = self.keys.remove(i);
                }
            },
            None => {
                if event.active {
                    self.keys.push(event.key);
                }
            },
        }
    }

    /// Takes note of keys that went down or up.
    pub fn observe(&mut self, events: &[SyntheticKeyEvent])
        requires
            old(self).wf(),
        ensures
            final(self).wf(),
            final(self)@ == keys_after_all(old(self)@, events@),
    {
        let ghost before = self@;
        let mut i: usize = 0;
        while i < events.len()
            invariant
                i <= events@.len(),
                self.wf(),
                self@ == keys_after_all(before, events@.take(i as int)),
            decreases events@.len() - i,
        {
            self.observe_one(events[i]);
            i += 1;
            assert(events@.take(i as int).drop_last() =~= events@.take(i - 1));
        }
        assert(events@.take(i as int) =~= events@);
    }

    /// Forgets every key, and gives the events that bring them up, last key first.
    pub fn release(&mut self) -> (events: Vec<SyntheticKeyEvent>)
        requires
            old(self).wf(),
        ensures
            final(self).wf(),
            final(self)@ == Seq::<OutputKey>::empty(),
            events@ == each_key(old(self)@.reverse(), false),
    {
        let mut events: Vec<SyntheticKeyEvent> = Vec::new();
        let n: usize = self.keys.len();
        let mut j: usize = n;
        while j > 0
            invariant
                j <= n == self@.len(),
                self@ == old(self)@,
                events@ == each_key(self@.reverse().take(n - j), false),
            decreases j,
        {
            j -= 1;
            events.push(SyntheticKeyEvent { key: self.keys[j], active: false });
            assert(events@ =~= each_key(self@.reverse().take(n - j), false));
        }
        assert(self@.reverse().take(n as int) =~= self@.reverse());
        self.keys.clear();
        events
    }
}

/// Whether `key` is down after events, if it was `before` them.
pub open spec fn down_after(key: OutputKey, before: bool, events: Seq<SyntheticKeyEvent>) -> bool
    decreases events.len(),
{
    if events.len() == 0 {
        before
    } else if events.last().key == key {
        events.last().active
    } else {
        down_after(key, before, events.drop_last())
    }
}

proof fn lemma_keys_after(keys: Seq<OutputKey>, event: SyntheticKeyEvent, key: OutputKey)
    requires
        keys.no_duplicates(),
    ensures
        keys_after(keys, event).no_duplicates(),
        keys_after(keys, event).contains(key) == if event.key == key {
            event.active
        } else {
            keys.contains(key)
        },
{
    if event.active {
        if !keys.contains(event.key) {
            let after = keys.push(event.key);
            assert(after[keys.len() as int] == event.key);
            if keys.contains(key) {
                let i = keys.index_of(key);
                assert(after[i] == key);
            }
        }
    } else if keys.contains(event.key) {
        let at = keys.index_of(event.key);
        let after = keys.remove(at);
        assert(keys[at] == event.key);
        assert(forall|i: int| 0 <= i < at ==> after[i] == keys[i]);
        assert(forall|i: int| at <= i < after.len() ==> after[i] == keys[i + 1]);
        if event.key != key && keys.contains(key) {
            let i = keys.index_of(key);
            if i < at {
                assert(after[i] == key);
            } else {
                assert(after[i - 1] == key);
            }
        }
    }
}

proof fn lemma_keys_after_all(
    keys: Seq<OutputKey>,
    events: Seq<SyntheticKeyEvent>,
    key: OutputKey,
)
    requires
        keys.no_duplicates(),
    ensures
        keys_after_all(keys, events).no_duplicates(),
        keys_after_all(keys, events).contains(key) == down_after(key, keys.contains(key), events),
    decreases events.len(),
{
    if events.len() > 0 {
        lemma_keys_after_all(keys, events.drop_last(), key);
        lemma_keys_after(keys_after_all(keys, events.drop_last()), events.last(), key);
    }
}

proof fn lemma_down_after(key: OutputKey, before: bool, events: Seq<SyntheticKeyEvent>, at: int)
    requires
        0 <= at < events.len(),
        events[at].key == key,
        forall|i: int| at <= i < events.len() && events[i].key == key ==> !#[trigger] events[i].active,
    ensures
        !down_after(key, before, events),
    decreases events.len(),
{
    if at < events.len() - 1 {
        let shorter = events.drop_last();
        assert forall|i: int| at <= i < shorter.len() && shorter[i].key == key implies !#[trigger] shorter[i].active by {
            assert(shorter[i] == events[i]);
        }
        lemma_down_after(key, before, shorter, at);
        assert(events.last() == events[events.len() - 1]);
    }
}

/// A tap leaves none of its keys down, and every other key as it was.
pub proof fn law_tap_releases_its_keys(
    held: Seq<OutputKey>,
    key: OutputKey,
    modifiers: Seq<OutputKey>,
    other: OutputKey,
)
    requires
        held.no_duplicates(),
    ensures
        ({
            let after = keys_after_all(held, tap(key, modifiers));
            &&& !after.contains(key)
            &&& modifiers.contains(other) ==> !after.contains(other)
            &&& other != key && !modifiers.contains(other) ==> after.contains(other)
                == held.contains(other)
        }),
{
    let events = tap(key, modifiers);
    let n = modifiers.len() as int;
    lemma_keys_after_all(held, events, key);
    lemma_keys_after_all(held, events, other);
    assert forall|i: int| n + 1 <= i < events.len() implies !#[trigger] events[i].active by {}
    assert(events[n + 1].key == key);
    lemma_down_after(key, held.contains(key), events, n + 1);
    if modifiers.contains(other) {
        let i = modifiers.index_of(other);
        let at = n + 2 + (n - 1 - i);
        assert(events[at].key == modifiers.reverse()[n - 1 - i]);
        lemma_down_after(other, held.contains(other), events, at);
    } else if other != key {
        lemma_untouched(other, held.contains(other), events);
    }
}

proof fn lemma_untouched(key: OutputKey, before: bool, events: Seq<SyntheticKeyEvent>)
    requires
        forall|i: int| 0 <= i < events.len() ==> #[trigger] events[i].key != key,
    ensures
        down_after(key, before, events) == before,
    decreases events.len(),
{
    if events.len() > 0 {
        assert(events.last() == events[events.len() - 1]);
        assert forall|i: int| 0 <= i < events.drop_last().len() implies #[trigger] events.drop_last()[i].key
            != key by {
            assert(events.drop_last()[i] == events[i]);
        }
        lemma_untouched(key, before, events.drop_last());
    }
}

/// The events that bring up every held key leave nothing down.
pub proof fn law_releasing_brings_every_key_up(held: Seq<OutputKey>)
    requires
        held.no_duplicates(),
    ensures
        keys_after_all(held, each_key(held.reverse(), false)) == Seq::<OutputKey>::empty(),
{
    let events = each_key(held.reverse(), false);
    let after = keys_after_all(held, events);
    if after.len() > 0 {
        let key = after[0];
        assert(after.contains(key));
        lemma_keys_after_all(held, events, key);
        if held.contains(key) {
            let at = held.len() - 1 - held.index_of(key);
            assert(events[at].key == held.reverse()[at]);
            lemma_down_after(key, true, events, at);
        } else {
            assert forall|i: int| 0 <= i < events.len() implies #[trigger] events[i].key != key by {
                assert(events[i].key == held.reverse()[i]);
                assert(held.contains(held[held.len() - 1 - i]));
            }
            lemma_untouched(key, false, events);
        }
    }
    assert(after =~= Seq::<OutputKey>::empty());
}

/// The contacts that are down, at most one for each identity, by identity.
pub struct ActiveContacts {
    contacts: Vec<TouchEvent>,
}

/// Strictly ascending identities.
pub open spec fn by_identity(s: Seq<TouchEvent>) -> bool {
    forall|i: int, j: int| 0 <= i < j < s.len() ==> #[trigger] s[i].id < #[trigger] s[j].id
}

/// The contacts by identity.
pub open spec fn contact_map(s: Seq<TouchEvent>) -> Map<u32, TouchEvent> {
    Map::new(
        |id: u32| exists|i: int| 0 <= i < s.len() && #[trigger] s[i].id == id,
        |id: u32| s[choose|i: int| 0 <= i < s.len() && #[trigger] s[i].id == id],
    )
}

/// The contacts after one event: the last report of each contact that is down.
pub open spec fn contacts_after(contacts: Map<u32, TouchEvent>, event: HardwareEvent) -> Map<
    u32,
    TouchEvent,
> {
    match event {
        HardwareEvent::Touch(touch) => match touch.phase {
            TouchPhase::Down | TouchPhase::Move => contacts.insert(touch.id, touch),
            TouchPhase::Up | TouchPhase::Cancel => contacts.remove(touch.id),
        },
        _ => contacts,
    }
}

/// The contacts after a batch of events.
pub open spec fn contacts_after_all(
    contacts: Map<u32, TouchEvent>,
    events: Seq<HardwareEvent>,
) -> Map<u32, TouchEvent>
    decreases events.len(),
{
    if events.len() == 0 {
        contacts
    } else {
        contacts_after(contacts_after_all(contacts, events.drop_last()), events.last())
    }
}

/// The report that ends a contact without lifting it.
pub open spec fn cancelled(touch: TouchEvent) -> TouchEvent {
    TouchEvent { phase: TouchPhase::Cancel, ..touch }
}

/// The cancellations of all contacts.
pub open spec fn cancellations(s: Seq<TouchEvent>) -> Seq<HardwareEvent> {
    Seq::new(s.len(), |i: int| HardwareEvent::Touch(cancelled(s[i])))
}

proof fn lemma_contact_map(s: Seq<TouchEvent>, i: int)
    requires
        by_identity(s),
        0 <= i < s.len(),
    ensures
        contact_map(s).dom().contains(s[i].id),
        contact_map(s)[s[i].id] == s[i],
{
    let j = choose|j: int| 0 <= j < s.len() && #[trigger] s[j].id == s[i].id;
    assert(s[j].id == s[i].id);
    assert(i == j);
}

impl ActiveContacts {
    /// Each contact is held once, in order of identity.
    pub open spec fn wf(self) -> bool {
        by_identity(self.ordered())
    }

    /// The contacts in order of identity.
    pub closed spec fn ordered(self) -> Seq<TouchEvent> {
        self.contacts@
    }

    /// Nothing touches.
    pub fn new() -> (r: ActiveContacts)
        ensures
            r.wf(),
            r.ordered() == Seq::<TouchEvent>::empty(),
    {
        ActiveContacts { contacts: Vec::new() }
    }

    fn find(&self, id: u32) -> (at: usize)
        requires
            self.wf(),
        ensures
            at <= self.contacts@.len(),
            forall|i: int| 0 <= i < at ==> #[trigger] self.contacts@[i].id < id,
            forall|i: int| at <= i < self.contacts@.len() ==> #[trigger] self.contacts@[i].id >= id,
    {
        let mut at: usize = 0;
        while at < self.contacts.len() && self.contacts[at].id < id
            invariant
                at <= self.contacts@.len(),
                self.wf(),
                forall|i: int| 0 <= i < at ==> #[trigger] self.contacts@[i].id < id,
            decreases self.contacts@.len() - at,
        {
            at += 1;
        }
        at
    }

    fn put(&mut self, touch: TouchEvent)
        requires
            old(self).wf(),
        ensures
            final(self).wf(),
            contact_map(final(self).ordered()) == contact_map(old(self).ordered()).insert(
                touch.id,
                touch,
            ),
    {
        let at: usize = self.find(touch.id);
        let ghost before = self.contacts@;
        if at < self.contacts.len() && self.contacts[at].id == touch.id {
            self.contacts.set(at, touch);
        } else {
            self.contacts.insert(at, touch);
        }
        proof {
            let after = self.contacts@;
            let replaced = at < before.len() && before[at as int].id == touch.id;
            assert(by_identity(after)) by {
                assert forall|i: int, j: int| 0 <= i < j < after.len() implies #[trigger] after[i].id
                    < #[trigger] after[j].id by {
                    if replaced {
                        assert(before[i].id < before[j].id);
                    } else {
                        if i < at && j > at {
                            assert(before[i].id < before[j - 1].id);
                        } else if i > at {
                            assert(before[i - 1].id < before[j - 1].id);
                        } else if j < at {
                            assert(before[i].id < before[j].id);
                        } else if i == at {
                            assert(before[j - 1].id >= touch.id);
                            assert(before[at as int].id >= touch.id);
                            assert(before[at as int].id != touch.id);
                            if j - 1 > at {
                                assert(before[at as int].id < before[j - 1].id);
                            }
                        }
                    }
                }
            }
            lemma_contact_map(after, at as int);
            let expected = contact_map(before).insert(touch.id, touch);
            assert forall|id: u32| contact_map(after).dom().contains(id) == #[trigger] expected.dom().contains(id) && (contact_map(after).dom().contains(id)
                ==> contact_map(after)[id] == expected[id]) by {
                if id != touch.id {
                    if exists|i: int| 0 <= i < before.len() && #[trigger] before[i].id == id {
                        let i = choose|i: int| 0 <= i < before.len() && #[trigger] before[i].id == id;
                        let k = if replaced || i < at {
                            i
                        } else {
                            i + 1
                        };
                        assert(after[k] == before[i]);
                        lemma_contact_map(after, k);
                        lemma_contact_map(before, i);
                    }
                    if exists|i: int| 0 <= i < after.len() && #[trigger] after[i].id == id {
                        let i = choose|i: int| 0 <= i < after.len() && #[trigger] after[i].id == id;
                        assert(i != at);
                        let k = if replaced || i < at {
                            i
                        } else {
                            i - 1
                        };
                        assert(before[k] == after[i]);
                    }
                }
            }
            assert(contact_map(after) =~= expected);
        }
    }

    fn drop_contact(&mut self, id: u32)
        requires
            old(self).wf(),
        ensures
            final(self).wf(),
            contact_map(final(self).ordered()) == contact_map(old(self).ordered()).remove(id),
    {
        let at: usize = self.find(id);
        let ghost before = self.contacts@;
        let mut found: bool = false;
        if at < self.contacts.len() && self.contacts[at].id == id {
            let _removed: TouchEvent = self.contacts.remove(at);
            found = true;
        }
        proof {
            let after = self.contacts@;
            assert(by_identity(after)) by {
                assert forall|i: int, j: int| 0 <= i < j < after.len() implies #[trigger] after[i].id
                    < #[trigger] after[j].id by {
                    if found {
                        let a = if i < at {
                            i
                        } else {
                            i + 1
                        };
                        let b = if j < at {
                            j
                        } else {
                            j + 1
                        };
                        assert(after[i] == before[a] && after[j] == before[b]);
                        assert(before[a].id < before[b].id);
                    }
                }
            }
            let expected = contact_map(before).remove(id);
            assert forall|other: u32| contact_map(after).dom().contains(other) == #[trigger] expected.dom().contains(other) && (contact_map(after).dom().contains(other)
                ==> contact_map(after)[other] == expected[other]) by {
                if exists|i: int| 0 <= i < after.len() && #[trigger] after[i].id == other {
                    let i = choose|i: int| 0 <= i < after.len() && #[trigger] after[i].id == other;
                    let k = if !found || i < at {
                        i
                    } else {
                        i + 1
                    };
                    assert(before[k] == after[i]);
                    if other == id {
                        if found {
                            if k < at {
                                assert(before[k].id < before[at as int].id);
                            } else {
                                assert(before[at as int].id < before[k].id);
                            }
                        } else {
                            if k < at {
                                assert(before[k].id < id);
                            } else if k > at {
                                assert(before[at as int].id < before[k].id);
                            }
                        }
                    }
                    lemma_contact_map(after, i);
                    lemma_contact_map(before, k);
                }
                if other != id && exists|i: int| 0 <= i < before.len() && #[trigger] before[i].id == other {
                    let i = choose|i: int| 0 <= i < before.len() && #[trigger] before[i].id == other;
                    let k = if !found || i < at {
                        i
                    } else {
                        i - 1
                    };
                    assert(after[k] == before[i]);
                }
            }
            assert(contact_map(after) =~= expected);
        }
    }

    /// Takes note of reported contacts.
    pub fn observe(&mut self, events: &[HardwareEvent])
        requires
            old(self).wf(),
        ensures
            final(self).wf(),
            contact_map(final(self).ordered()) == contacts_after_all(
                contact_map(old(self).ordered()),
                events@,
            ),
    {
        let ghost before = contact_map(self.ordered());
        let mut i: usize = 0;
        while i < events.len()
            invariant
                i <= events@.len(),
                self.wf(),
                contact_map(self.ordered()) == contacts_after_all(before, events@.take(i as int)),
            decreases events@.len() - i,
        {
            if let HardwareEvent::Touch(touch) = events[i] {
                match touch.phase {
                    TouchPhase::Down => self.put(touch),
                    TouchPhase::Move => self.put(touch),
                    TouchPhase::Up => self.drop_contact(touch.id),
                    TouchPhase::Cancel => self.drop_contact(touch.id),
                }
            }
            i += 1;
            assert(events@.take(i as int).drop_last() =~= events@.take(i - 1));
        }
        assert(events@.take(i as int) =~= events@);
    }

    /// Forgets every contact, and gives their cancellations in order of identity.
    pub fn cancel(&mut self) -> (events: Vec<HardwareEvent>)
        requires
            old(self).wf(),
        ensures
            final(self).wf(),
            final(self).ordered() == Seq::<TouchEvent>::empty(),
            events@ == cancellations(old(self).ordered()),
    {
        let mut events: Vec<HardwareEvent> = Vec::new();
        let mut i: usize = 0;
        while i < self.contacts.len()
            invariant
                i <= self.contacts@.len(),
                self.contacts@ == old(self).ordered(),
                events@ == cancellations(self.contacts@.take(i as int)),
            decreases self.contacts@.len() - i,
        {
            let touch: TouchEvent = self.contacts[i];
            events.push(
                HardwareEvent::Touch(TouchEvent { phase: TouchPhase::Cancel, ..touch }),
            );
            i += 1;
            assert(events@ =~= cancellations(self.contacts@.take(i as int)));
        }
        assert(self.contacts@.take(i as int) =~= self.contacts@);
        self.contacts.clear();
        events
    }
}

proof fn lemma_cancelled_prefix(s: Seq<TouchEvent>, n: int)
    requires
        by_identity(s),
        0 <= n <= s.len(),
    ensures
        ({
            let after = contacts_after_all(contact_map(s), cancellations(s).take(n));
            forall|id: u32| #[trigger]
                after.dom().contains(id) <==> exists|i: int| n <= i < s.len() && #[trigger] s[i].id == id
        }),
    decreases n,
{
    let events = cancellations(s).take(n);
    if n > 0 {
        lemma_cancelled_prefix(s, n - 1);
        assert(events.drop_last() =~= cancellations(s).take(n - 1));
        assert(events.last() == HardwareEvent::Touch(cancelled(s[n - 1])));
        let before = contacts_after_all(contact_map(s), events.drop_last());
        let after = before.remove(s[n - 1].id);
        assert forall|id: u32| #[trigger] after.dom().contains(id) <==> exists|i: int|
            n <= i < s.len() && #[trigger] s[i].id == id by {
            if after.dom().contains(id) {
                let i = choose|i: int| n - 1 <= i < s.len() && #[trigger] s[i].id == id;
                assert(i != n - 1);
            }
            if exists|i: int| n <= i < s.len() && #[trigger] s[i].id == id {
                let i = choose|i: int| n <= i < s.len() && #[trigger] s[i].id == id;
                assert(s[n - 1].id < s[i].id);
                assert(before.dom().contains(id));
            }
        }
    } else {
        assert(events =~= Seq::empty());
    }
}

/// The cancellations of the contacts that are down end every one of them.
pub proof fn law_cancellations_end_every_contact(s: Seq<TouchEvent>)
    requires
        by_identity(s),
    ensures
        contacts_after_all(contact_map(s), cancellations(s)) == Map::<u32, TouchEvent>::empty(),
{
    let n = s.len() as int;
    lemma_cancelled_prefix(s, n);
    assert(cancellations(s).take(n) =~= cancellations(s));
    assert(contacts_after_all(contact_map(s), cancellations(s)) =~= Map::<u32, TouchEvent>::empty());
}

} // verus!
