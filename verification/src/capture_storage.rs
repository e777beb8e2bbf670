//! Raw records in storage that a collector and one writer map.
//!
//! Storage is a sequence of words: a header of sixty-four, then sixty-four for each
//! record. The writer hands out the words to be written, in order. A record counts
//! only once its block is complete, and the revision in the header is odd for as
//! long as an update is under way, so a writer that dies leaves whole records and
//! never a header that passes for consistent.
use vstd::prelude::*;

use crate::bytes::{
    array_of, get_le, le_bytes, le_value, lemma_array_of, lemma_le_bytes_len, lemma_le_canonical,
    lemma_le_value_bound, lemma_pow256_values, put_le,
};
use crate::events::Record;
use crate::observer::{Counters, Report, MAX_RECORDS};
use crate::record_codec::{decode_record, encode_record};
use crate::record_layout::{
    allocation_error, block_record, carried_allocation, encodable, law_block_denotes_its_record,
    record_block, RecordError, RECORD_BYTES,
};

verus! {

/// Bytes of the header.
pub const HEADER_BYTES: usize = 512;

/// Words of the header and of each record.
pub const BLOCK_WORDS: usize = 64;

/// The first word: the bytes of `SLVRAW01`.
pub const MAGIC: u64 = 0x3130_5741_5256_4c53;

/// The second word.
pub const VERSION: u64 = 2;

/// Which process a storage is for.
#[derive(Clone, Copy, Debug, PartialEq, Eq, Structural)]
pub enum SourceRole {
    Worker,
    Broker,
    Supervisor,
}

impl SourceRole {
    /// The number of a role in a header.
    pub open spec fn code(self) -> u64 {
        match self {
            SourceRole::Worker => 1,
            SourceRole::Broker => 2,
            SourceRole::Supervisor => 3,
        }
    }

    /// The number of this role in a header.
    pub fn to_word(self) -> (w: u64)
        ensures
            w == self.code(),
    {
        match self {
            SourceRole::Worker => 1,
            SourceRole::Broker => 2,
            SourceRole::Supervisor => 3,
        }
    }
}

/// Why storage is refused.
#[derive(Clone, Copy, Debug, PartialEq, Eq, Structural)]
pub enum StorageError {
    Capacity,
    TicketTaken,
    Role,
    NotRegular,
    Unsealed,
    NotWritable,
    SizeBound,
    Version,
    ExpectedRole,
    PageSize,
    Layout,
    Truncated,
    Used,
    Claimed,
    Full,
    CommittedCount,
    Discontinuous,
    Record(RecordError),
}

impl StorageError {
    /// The words of an error.
    pub open spec fn text(self) -> Seq<char> {
        match self {
            StorageError::Capacity => "raw capture capacity outside 1..=65536"@,
            StorageError::TicketTaken => "worker capture ticket already taken"@,
            StorageError::Role => "capture ticket is for another role"@,
            StorageError::NotRegular => "raw storage is not a regular memfd"@,
            StorageError::Unsealed => "raw storage lacks immutable size seals"@,
            StorageError::NotWritable => "raw storage is not writable"@,
            StorageError::SizeBound => "raw storage size outside bound"@,
            StorageError::Version => "unsupported raw storage version"@,
            StorageError::ExpectedRole =>
            "raw storage is not exactly one source of the expected role"@,
            StorageError::PageSize => "invalid raw capture page size"@,
            StorageError::Layout => "invalid raw storage layout"@,
            StorageError::Truncated => "truncated raw storage layout"@,
            StorageError::Used => "raw storage already used"@,
            StorageError::Claimed => "raw storage already claimed"@,
            StorageError::Full => "raw recording storage full"@,
            StorageError::CommittedCount => "raw committed count exceeds capacity"@,
            StorageError::Discontinuous => "raw record sequence is discontinuous"@,
            StorageError::Record(e) => e.text(),
        }
    }

    /// The words of this error.
    pub fn message(self) -> (s: &'static str)
        ensures
            s@ == self.text(),
    {
        match self {
            StorageError::Capacity => "raw capture capacity outside 1..=65536",
            StorageError::TicketTaken => "worker capture ticket already taken",
            StorageError::Role => "capture ticket is for another role",
            StorageError::NotRegular => "raw storage is not a regular memfd",
            StorageError::Unsealed => "raw storage lacks immutable size seals",
            StorageError::NotWritable => "raw storage is not writable",
            StorageError::SizeBound => "raw storage size outside bound",
            StorageError::Version => "unsupported raw storage version",
            StorageError::ExpectedRole =>
            "raw storage is not exactly one source of the expected role",
            StorageError::PageSize => "invalid raw capture page size",
            StorageError::Layout => "invalid raw storage layout",
            StorageError::Truncated => "truncated raw storage layout",
            StorageError::Used => "raw storage already used",
            StorageError::Claimed => "raw storage already claimed",
            StorageError::Full => "raw recording storage full",
            StorageError::CommittedCount => "raw committed count exceeds capacity",
            StorageError::Discontinuous => "raw record sequence is discontinuous",
            StorageError::Record(e) => e.message(),
        }
    }
}

/// One word to be written.
#[derive(Clone, Copy, Debug, PartialEq, Eq, Structural)]
pub struct WordWrite {
    pub index: usize,
    pub value: u64,
}

/// The place of the writer's claim.
pub const CLAIM_WORD: usize = 6;

/// The place of the revision.
pub const REVISION_WORD: usize = 7;

/// The place of the number of complete records.
pub const COMMITTED_WORD: usize = 8;

/// The place that says whether a writer ever wrote the counters.
pub const INITIALIZED_WORD: usize = 51;

/// The writer of one storage.
#[derive(Clone, Copy, Debug, PartialEq, Eq, Structural)]
pub struct MappedWriter {
    pub capacity: usize,
    pub committed: usize,
    pub revision: u64,
    pub role: SourceRole,
}

/// The next revision. Revisions wrap around after the largest number.
pub open spec fn next_revision(revision: u64) -> u64 {
    if revision == u64::MAX {
        0
    } else {
        (revision + 1) as u64
    }
}

impl MappedWriter {
    /// The writer once it has begun to write: its revision is odd.
    pub open spec fn begun(self) -> MappedWriter {
        MappedWriter {
            revision: if self.revision % 2 == 0 {
                next_revision(self.revision)
            } else {
                self.revision
            },
            ..self
        }
    }

    /// The writer once it has written a record.
    pub open spec fn appended(self) -> MappedWriter {
        MappedWriter { committed: (self.committed + 1) as usize, ..self.begun() }
    }

    /// The writer once it has written the counters: its revision is even.
    pub open spec fn updated(self) -> MappedWriter {
        MappedWriter { revision: next_revision(self.begun().revision), ..self }
    }
}

/// The words written to begin: the odd revision, unless it stands already.
pub open spec fn begin_writes(w: MappedWriter) -> Seq<WordWrite> {
    if w.revision % 2 == 0 {
        seq![WordWrite { index: REVISION_WORD, value: next_revision(w.revision) }]
    } else {
        Seq::empty()
    }
}

/// Word `i` of a byte string.
pub open spec fn byte_word(s: Seq<u8>, i: int) -> u64 {
    le_value(s.subrange(8 * i, 8 * i + 8)) as u64
}

/// The words of a record's block, in its place.
pub open spec fn block_writes(place: int, block: Seq<u8>, n: int) -> Seq<WordWrite> {
    Seq::new(
        n as nat,
        |i: int|
            WordWrite { index: (64 + 64 * place + i) as usize, value: byte_word(block, i) },
    )
}

/// The words written for a record: begin, its block, and then that it counts.
pub open spec fn append_writes(w: MappedWriter, record: Record) -> Seq<WordWrite> {
    begin_writes(w) + block_writes(w.committed as int, record_block(record), 64) + seq![
        WordWrite { index: COMMITTED_WORD, value: (w.committed + 1) as u64 },
    ]
}

/// The counters as words, in the order of their places from nine on.
pub open spec fn counter_words(c: Counters) -> Seq<u64> {
    seq![
        c.attempted_records,
        c.lost,
        c.clock_failures,
        c.failed_operations,
        c.decode_failures,
        c.after_close,
        if c.closed {
            1
        } else {
            0
        },
        match c.closed_at_ns {
            Some(ns) => ns,
            None => u64::MAX,
        },
        c.clock_resolution_ns,
    ]
}

/// The words of the counters and the clock samples.
pub open spec fn counter_writes(c: Counters) -> Seq<WordWrite> {
    Seq::new(9, |i: int| WordWrite { index: (9 + i) as usize, value: counter_words(c)[i] })
        + Seq::new(
        32,
        |i: int| WordWrite { index: (19 + i) as usize, value: c.clock_read_samples_ns@[i] },
    )
}

/// The words written for the counters: begin, the counters, and then that they hold.
pub open spec fn metadata_writes(w: MappedWriter, c: Counters) -> Seq<WordWrite> {
    begin_writes(w) + counter_writes(c) + seq![
        WordWrite { index: INITIALIZED_WORD, value: 1 },
        WordWrite { index: REVISION_WORD, value: next_revision(w.begun().revision) },
    ]
}

/// The words of storage after some were written, in order.
pub open spec fn written(words: Seq<u64>, writes: Seq<WordWrite>) -> Seq<u64>
    decreases writes.len(),
{
    if writes.len() == 0 {
        words
    } else {
        let before = written(words, writes.drop_last());
        if writes.last().index < before.len() {
            before.update(writes.last().index as int, writes.last().value)
        } else {
            before
        }
    }
}

fn wrapping_next(revision: u64) -> (r: u64)
    ensures
        r == next_revision(revision),
{
    if revision == 0xffff_ffff_ffff_ffff {
        0
    } else {
        revision + 1
    }
}

impl MappedWriter {
    fn begin(&mut self, writes: &mut Vec<WordWrite>)
        ensures
            *final(self) == old(self).begun(),
            final(writes)@ == old(writes)@ + begin_writes(*old(self)),
    {
        let ghost before = writes@;
        if self.revision % 2 == 0 {
            self.revision = wrapping_next(self.revision);
            writes.push(WordWrite { index: REVISION_WORD, value: self.revision });
        }
        assert(writes@ =~= before + begin_writes(*old(self)));
    }

    /// The words that add a record, unless storage is full or the record has no block.
    pub fn append(&mut self, record: &Record) -> (r: Result<Vec<WordWrite>, StorageError>)
        requires
            old(self).committed <= old(self).capacity <= MAX_RECORDS,
        ensures
            match r {
                Ok(writes) => {
                    &&& old(self).committed < old(self).capacity
                    &&& encodable(record.kind)
                    &&& *final(self) == old(self).appended()
                    &&& writes@ == append_writes(*old(self), *record)
                },
                Err(StorageError::Full) => old(self).committed == old(self).capacity && *final(self)
                    == *old(self),
                Err(StorageError::Record(e)) => old(self).committed < old(self).capacity
                    && *final(self) == *old(self) && (carried_allocation(record.kind) matches Some(a)
                    && !a.valid() && allocation_error(a) == Some(e)),
                Err(_) => false,
            },
    {
        if self.committed >= self.capacity {
            return Err(StorageError::Full);
        }
        let block: Vec<u8> = match encode_record(record) {
            Ok(block) => block,
            Err(e) => {
                return Err(StorageError::Record(e));
            },
        };
        let mut writes: Vec<WordWrite> = Vec::new();
        self.begin(&mut writes);
        let ghost head = writes@;
        assert(head =~= begin_writes(*old(self)));
        let place: usize = self.committed;
        let mut i: usize = 0;
        while i < 64
            invariant
                i <= 64,
                place < MAX_RECORDS,
                block@.len() == 512,
                writes@ == head + block_writes(place as int, block@, i as int),
            decreases 64 - i,
        {
            proof {
                lemma_pow256_values();
            }
            let value: u64 = get_le(block.as_slice(), 8 * i, 8);
            writes.push(WordWrite { index: 64 + 64 * place + i, value });
            i += 1;
            assert(writes@ =~= head + block_writes(place as int, block@, i as int));
        }
        self.committed = place + 1;
        writes.push(WordWrite { index: COMMITTED_WORD, value: self.committed as u64 });
        assert(writes@ =~= append_writes(*old(self), *record));
        Ok(writes)
    }

    /// The words that bring the counters up to date.
    pub fn update_metadata(&mut self, c: &Counters) -> (writes: Vec<WordWrite>)
        ensures
            *final(self) == old(self).updated(),
            writes@ == metadata_writes(*old(self), *c),
    {
        let mut writes: Vec<WordWrite> = Vec::new();
        self.begin(&mut writes);
        let ghost head = writes@;
        assert(head =~= begin_writes(*old(self)));
        writes.push(WordWrite { index: 9, value: c.attempted_records });
        writes.push(WordWrite { index: 10, value: c.lost });
        writes.push(WordWrite { index: 11, value: c.clock_failures });
        writes.push(WordWrite { index: 12, value: c.failed_operations });
        writes.push(WordWrite { index: 13, value: c.decode_failures });
        writes.push(WordWrite { index: 14, value: c.after_close });
        let closed: u64 = if c.closed {
            1
        } else {
            0
        };
        writes.push(WordWrite { index: 15, value: closed });
        let closed_at: u64 = match c.closed_at_ns {
            Some(ns) => ns,
            None => 0xffff_ffff_ffff_ffff,
        };
        writes.push(WordWrite { index: 16, value: closed_at });
        writes.push(WordWrite { index: 17, value: c.clock_resolution_ns });
        let ghost nine = Seq::new(
            9,
            |i: int| WordWrite { index: (9 + i) as usize, value: counter_words(*c)[i] },
        );
        assert(writes@ =~= head + nine);
        let mut i: usize = 0;
        while i < 32
            invariant
                i <= 32,
                writes@ == head + nine + Seq::new(
                    i as nat,
                    |i: int|
                        WordWrite { index: (19 + i) as usize, value: c.clock_read_samples_ns@[i] },
                ),
            decreases 32 - i,
        {
            writes.push(WordWrite { index: 19 + i, value: c.clock_read_samples_ns[i] });
            i += 1;
            assert(writes@ =~= head + nine + Seq::new(
                i as nat,
                |i: int| WordWrite { index: (19 + i) as usize, value: c.clock_read_samples_ns@[i] },
            ));
        }
        writes.push(WordWrite { index: INITIALIZED_WORD, value: 1 });
        self.revision = wrapping_next(self.revision);
        writes.push(WordWrite { index: REVISION_WORD, value: self.revision });
        assert(writes@ =~= metadata_writes(*old(self), *c));
        writes
    }
}

/// The words of storage that was just made.
pub open spec fn fresh_words(capacity: nat, role: SourceRole) -> Seq<u64> {
    Seq::new(
        64 * (1 + capacity),
        |i: int|
            if i == 0 {
                MAGIC
            } else if i == 1 {
                VERSION
            } else if i == 2 {
                role.code()
            } else if i == 3 {
                1
            } else if i == 4 {
                capacity as u64
            } else if i == 5 {
                RECORD_BYTES as u64
            } else {
                0
            },
    )
}

/// The owner of one storage. It hands out one writer's ticket.
#[derive(Clone, Copy, Debug, PartialEq, Eq, Structural)]
pub struct Collector {
    pub capacity: usize,
    pub role: SourceRole,
    pub ticket_taken: bool,
}

impl Collector {
    /// A collector for a worker, and the words of its storage.
    pub fn new(capacity: usize) -> (r: Result<(Collector, Vec<u64>), StorageError>)
        ensures
            match r {
                Ok((collector, words)) => {
                    &&& 1 <= capacity <= MAX_RECORDS
                    &&& collector == (Collector {
                        capacity,
                        role: SourceRole::Worker,
                        ticket_taken: false,
                    })
                    &&& words@ == fresh_words(capacity as nat, SourceRole::Worker)
                },
                Err(e) => !(1 <= capacity <= MAX_RECORDS) && e == StorageError::Capacity,
            },
    {
        Collector::for_role(capacity, SourceRole::Worker)
    }

    /// A collector for one role, and the words of its storage.
    pub fn for_role(capacity: usize, role: SourceRole) -> (r: Result<
        (Collector, Vec<u64>),
        StorageError,
    >)
        ensures
            match r {
                Ok((collector, words)) => {
                    &&& 1 <= capacity <= MAX_RECORDS
                    &&& collector == (Collector { capacity, role, ticket_taken: false })
                    &&& words@ == fresh_words(capacity as nat, role)
                },
                Err(e) => !(1 <= capacity <= MAX_RECORDS) && e == StorageError::Capacity,
            },
    {
        if capacity < 1 || capacity > MAX_RECORDS {
            return Err(StorageError::Capacity);
        }
        let mut words: Vec<u64> = Vec::new();
        words.push(MAGIC);
        words.push(VERSION);
        words.push(role.to_word());
        words.push(1);
        words.push(capacity as u64);
        words.push(RECORD_BYTES as u64);
        let total: usize = BLOCK_WORDS * (1 + capacity);
        let mut i: usize = 6;
        assert(words@ =~= fresh_words(capacity as nat, role).take(6));
        while i < total
            invariant
                6 <= i <= total,
                total == 64 * (1 + capacity),
                words@ == fresh_words(capacity as nat, role).take(i as int),
            decreases total - i,
        {
            words.push(0);
            i += 1;
            assert(words@ =~= fresh_words(capacity as nat, role).take(i as int));
        }
        assert(words@ =~= fresh_words(capacity as nat, role));
        Ok((Collector { capacity, role, ticket_taken: false }, words))
    }

    /// Takes the one ticket. It is for this collector's role.
    pub fn take_storage(&mut self, role: SourceRole) -> (r: Result<(), StorageError>)
        ensures
            match r {
                Ok(()) => role == old(self).role && !old(self).ticket_taken && *final(self) == (
                Collector { ticket_taken: true, ..*old(self) }),
                Err(StorageError::Role) => role != old(self).role && *final(self) == *old(self),
                Err(StorageError::TicketTaken) => role == old(self).role && old(self).ticket_taken
                    && *final(self) == *old(self),
                Err(_) => false,
            },
    {
        if role != self.role {
            return Err(StorageError::Role);
        }
        if self.ticket_taken {
            return Err(StorageError::TicketTaken);
        }
        self.ticket_taken = true;
        Ok(())
    }

    /// Takes the one ticket of a worker's storage.
    pub fn take_worker_storage(&mut self) -> (r: Result<(), StorageError>)
        ensures
            match r {
                Ok(()) => old(self).role == SourceRole::Worker && !old(self).ticket_taken
                    && *final(self) == (Collector { ticket_taken: true, ..*old(self) }),
                Err(StorageError::Role) => old(self).role != SourceRole::Worker && *final(self)
                    == *old(self),
                Err(StorageError::TicketTaken) => old(self).role == SourceRole::Worker && old(
                    self,
                ).ticket_taken && *final(self) == *old(self),
                Err(_) => false,
            },
    {
        self.take_storage(SourceRole::Worker)
    }
}

/// What the system says of a descriptor.
#[derive(Clone, Copy, Debug, PartialEq, Eq, Structural)]
pub struct DescriptorFacts {
    pub regular: bool,
    pub size_sealed: bool,
    pub read_write: bool,
    pub size: i64,
}

/// Why a descriptor is refused before anything is mapped.
pub open spec fn descriptor_error(facts: DescriptorFacts) -> Option<StorageError> {
    if !facts.regular {
        Some(StorageError::NotRegular)
    } else if !facts.size_sealed {
        Some(StorageError::Unsealed)
    } else if !facts.read_write {
        Some(StorageError::NotWritable)
    } else if !(HEADER_BYTES <= facts.size <= HEADER_BYTES + MAX_RECORDS * RECORD_BYTES) {
        Some(StorageError::SizeBound)
    } else {
        None
    }
}

/// Why mapped words are refused to a writer of a role, before the claim.
pub open spec fn layout_error(words: Seq<u64>, role: SourceRole) -> Option<StorageError> {
    if words[0] != MAGIC || words[1] != VERSION {
        Some(StorageError::Version)
    } else if words[2] != role.code() || words[3] != 1 {
        Some(StorageError::ExpectedRole)
    } else if !(1 <= words[4] <= MAX_RECORDS) || words[5] != RECORD_BYTES {
        Some(StorageError::Layout)
    } else if words.len() != 64 * (1 + words[4]) {
        Some(StorageError::Truncated)
    } else if words[7] != 0 || words[8] != 0 || words[51] != 0 {
        Some(StorageError::Used)
    } else {
        None
    }
}

/// Checks a descriptor before anything is mapped.
pub fn check_descriptor(facts: DescriptorFacts) -> (r: Result<(), StorageError>)
    ensures
        match r {
            Ok(()) => descriptor_error(facts) is None,
            Err(e) => descriptor_error(facts) == Some(e),
        },
{
    if !facts.regular {
        return Err(StorageError::NotRegular);
    }
    if !facts.size_sealed {
        return Err(StorageError::Unsealed);
    }
    if !facts.read_write {
        return Err(StorageError::NotWritable);
    }
    if facts.size < 512 || facts.size > 33_554_944 {
        return Err(StorageError::SizeBound);
    }
    Ok(())
}

/// Checks mapped words before the claim, and gives the number of records that fit.
pub fn check_layout(words: &Vec<u64>, role: SourceRole) -> (r: Result<usize, StorageError>)
    requires
        words@.len() >= 64,
    ensures
        match r {
            Ok(capacity) => layout_error(words@, role) is None && capacity == words@[4],
            Err(e) => layout_error(words@, role) == Some(e),
        },
{
    if words[0] != MAGIC || words[1] != VERSION {
        return Err(StorageError::Version);
    }
    if words[2] != role.to_word() || words[3] != 1 {
        return Err(StorageError::ExpectedRole);
    }
    let declared: u64 = words[4];
    if declared < 1 || declared > MAX_RECORDS as u64 || words[5] != RECORD_BYTES as u64 {
        return Err(StorageError::Layout);
    }
    let capacity: usize = declared as usize;
    if words.len() != BLOCK_WORDS * (1 + capacity) {
        return Err(StorageError::Truncated);
    }
    if words[REVISION_WORD] != 0 || words[COMMITTED_WORD] != 0 || words[INITIALIZED_WORD] != 0 {
        return Err(StorageError::Used);
    }
    Ok(capacity)
}

/// The words that touch every page of storage once.
pub fn page_words(page_bytes: i64, bytes: usize) -> (r: Result<Vec<usize>, StorageError>)
    requires
        bytes <= 33_554_944,
    ensures
        match r {
            Ok(places) => {
                &&& page_bytes >= 8 && page_bytes % 8 == 0
                &&& forall|i: int|
                    0 <= i < places@.len() ==> #[trigger] places@[i] == i * (page_bytes / 8)
                &&& places@.len() * page_bytes >= bytes
                &&& (places@.len() - 1) * page_bytes < bytes
            },
            Err(e) => !(page_bytes >= 8 && page_bytes % 8 == 0) && e == StorageError::PageSize,
        },
{
    if page_bytes < 8 || page_bytes % 8 != 0 {
        return Err(StorageError::PageSize);
    }
    let mut places: Vec<usize> = Vec::new();
    let step: i64 = page_bytes / 8;
    let mut left: i64 = bytes as i64;
    let mut at: usize = 0;
    assert(0 * page_bytes == 0 && 0 * step == 0 && -1 * page_bytes < 0);
    while left > 0
        invariant
            left <= bytes <= 33_554_944,
            page_bytes == 8 * step,
            step >= 1,
            left == bytes - places@.len() * page_bytes,
            left > 0 ==> at == places@.len() * step,
            left > -page_bytes,
            forall|i: int| 0 <= i < places@.len() ==> #[trigger] places@[i] == i * step,
        decreases left + page_bytes,
    {
        let ghost n = places@.len();
        places.push(at);
        assert((n + 1) * page_bytes == n * page_bytes + page_bytes) by (nonlinear_arith);
        assert((n + 1) * step == n * step + step) by (nonlinear_arith);
        assert(n * page_bytes == 8 * (n * step)) by (nonlinear_arith)
            requires
                page_bytes == 8 * step,
        ;
        if left > page_bytes {
            at = at + step as usize;
        }
        left = left - page_bytes;
    }
    assert((places@.len() - 1) * page_bytes == places@.len() * page_bytes - page_bytes)
        by (nonlinear_arith);
    Ok(places)
}

impl MappedWriter {
    /// The writer of storage whose claim held `found` before this claim was made.
    pub fn claim(capacity: usize, role: SourceRole, found: u64) -> (r: Result<
        MappedWriter,
        StorageError,
    >)
        ensures
            match r {
                Ok(writer) => found == 0 && writer == (MappedWriter {
                    capacity,
                    committed: 0,
                    revision: 0,
                    role,
                }),
                Err(e) => found != 0 && e == StorageError::Claimed,
            },
    {
        if found != 0 {
            return Err(StorageError::Claimed);
        }
        Ok(MappedWriter { capacity, committed: 0, revision: 0, role })
    }

    /// Takes storage for a role: checks the descriptor and the layout, then claims it.
    pub fn receive_for_role(
        facts: DescriptorFacts,
        words: &mut Vec<u64>,
        role: SourceRole,
    ) -> (r: Result<MappedWriter, StorageError>)
        requires
            old(words)@.len() * 8 == facts.size || descriptor_error(facts) is Some,
        ensures
            match r {
                Ok(writer) => {
                    &&& descriptor_error(facts) is None
                    &&& layout_error(old(words)@, role) is None
                    &&& old(words)@[6] == 0
                    &&& writer == (MappedWriter {
                        capacity: old(words)@[4] as usize,
                        committed: 0,
                        revision: 0,
                        role,
                    })
                    &&& final(words)@ == old(words)@.update(6, 1)
                },
                Err(e) => {
                    &&& final(words)@ == old(words)@
                    &&& e == (match descriptor_error(facts) {
                        Some(why) => why,
                        None => match layout_error(old(words)@, role) {
                            Some(why) => why,
                            None => StorageError::Claimed,
                        },
                    })
                    &&& descriptor_error(facts) is None && layout_error(old(words)@, role) is None
                        ==> old(words)@[6] != 0
                },
            },
    {
        check_descriptor(facts)?;
        let capacity: usize = check_layout(words, role)?;
        let writer: MappedWriter = MappedWriter::claim(capacity, role, words[CLAIM_WORD])?;
        words.set(CLAIM_WORD, 1);
        Ok(writer)
    }
}

/// The block of record `i`.
pub open spec fn block_bytes(words: Seq<u64>, i: int) -> Seq<u8> {
    Seq::new(512, |k: int| le_bytes(words[64 + 64 * i + k / 8] as nat, 8)[k % 8])
}

/// Record `i`, which carries the number `i + 1`.
pub open spec fn stored_record(words: Seq<u64>, i: int) -> Result<Record, StorageError> {
    match block_record(block_bytes(words, i)) {
        Err(e) => Err(StorageError::Record(e)),
        Ok(record) => if record.sequence == i + 1 {
            Ok(record)
        } else {
            Err(StorageError::Discontinuous)
        },
    }
}

/// The first `n` records, or why the first unreadable one of them cannot be read.
pub open spec fn stored_records(words: Seq<u64>, n: int) -> Result<Seq<Record>, StorageError>
    decreases n,
{
    if n <= 0 {
        Ok(Seq::empty())
    } else {
        match stored_records(words, n - 1) {
            Err(e) => Err(e),
            Ok(records) => match stored_record(words, n - 1) {
                Err(e) => Err(e),
                Ok(record) => Ok(records.push(record)),
            },
        }
    }
}

/// The counters in a header. A header that does not hold says nothing of closing.
pub open spec fn stored_counters(words: Seq<u64>, holds: bool) -> Counters {
    Counters {
        attempted_records: words[9],
        lost: words[10],
        clock_failures: words[11],
        failed_operations: words[12],
        decode_failures: words[13],
        after_close: words[14],
        closed: holds && words[15] == 1,
        closed_at_ns: if !holds || words[16] == u64::MAX {
            None
        } else {
            Some(words[16])
        },
        clock_resolution_ns: words[17],
        clock_read_samples_ns: array_of::<u64, 32>(words.subrange(19, 51)),
    }
}

/// Two readings of the revision agree on an even number.
pub open spec fn revisions_agree(before: u64, after: u64) -> bool {
    before == after && after % 2 == 0
}

/// What was read of storage.
pub struct RawReport {
    pub report: Report,
    pub initialized: bool,
    /// Whether the header was read outside any update. It says nothing of the source.
    pub metadata_consistent: bool,
    pub storage_bytes: usize,
}

/// The most attempts at a consistent reading.
pub const SNAPSHOT_ATTEMPTS: usize = 3;

/// Whether storage is read once more after some attempts: only while the header was
/// being updated, and not for ever.
pub fn reads_again(raw: &RawReport, attempts: usize) -> (r: bool)
    ensures
        r == (!raw.metadata_consistent && attempts < SNAPSHOT_ATTEMPTS),
{
    !raw.metadata_consistent && attempts < SNAPSHOT_ATTEMPTS
}

fn read_block(words: &Vec<u64>, i: usize) -> (block: Vec<u8>)
    requires
        i < MAX_RECORDS,
        64 * (i + 2) <= words@.len(),
    ensures
        block@ == block_bytes(words@, i as int),
        block@.len() == 512,
{
    let mut block: Vec<u8> = Vec::new();
    let mut w: usize = 0;
    while w < 64
        invariant
            w <= 64,
            i < MAX_RECORDS,
            64 * (i + 2) <= words@.len(),
            block@ == block_bytes(words@, i as int).take(8 * w),
        decreases 64 - w,
    {
        let ghost before = block@;
        put_le(&mut block, words[64 + 64 * i + w], 8);
        proof {
            lemma_le_bytes_len(words@[64 + 64 * i + w as int] as nat, 8);
            assert(block@ =~= block_bytes(words@, i as int).take(8 * (w + 1)));
        }
        w += 1;
    }
    assert(block@ =~= block_bytes(words@, i as int));
    block
}

fn read_samples(words: &Vec<u64>) -> (samples: [u64; 32])
    requires
        words@.len() >= 64,
    ensures
        samples == array_of::<u64, 32>(words@.subrange(19, 51)),
{
    let mut samples: [u64; 32] = [0;32];
    let mut i: usize = 0;
    while i < 32
        invariant
            i <= 32,
            words@.len() >= 64,
            forall|j: int| 0 <= j < i ==> samples@[j] == words@[19 + j],
        decreases 32 - i,
    {
        samples[i] = words[19 + i];
        i += 1;
    }
    proof {
        lemma_array_of(samples);
        assert(samples@ =~= words@.subrange(19, 51));
    }
    samples
}

/// Reads storage once, between two readings of the revision.
pub fn snapshot_mapping(words: &Vec<u64>, before: u64, after: u64, capacity: usize) -> (r: Result<
    RawReport,
    StorageError,
>)
    requires
        capacity <= MAX_RECORDS,
        words@.len() == 64 * (1 + capacity),
    ensures
        match r {
            Ok(raw) => {
                &&& words@[8] <= capacity
                &&& stored_records(words@, words@[8] as int) == Ok::<Seq<Record>, StorageError>(
                    raw.report.records@,
                )
                &&& raw.report.capacity == capacity
                &&& raw.report.record_bytes == RECORD_BYTES
                &&& raw.initialized == (words@[51] == 1)
                &&& raw.metadata_consistent == revisions_agree(before, after)
                &&& raw.report.counters == stored_counters(
                    words@,
                    raw.initialized && raw.metadata_consistent,
                )
                &&& raw.storage_bytes == 512 * (1 + capacity)
            },
            Err(e) => if words@[8] > capacity {
                e == StorageError::CommittedCount
            } else {
                stored_records(words@, words@[8] as int) == Err::<Seq<Record>, StorageError>(e)
            },
        },
{
    let committed: u64 = words[COMMITTED_WORD];
    if committed > capacity as u64 {
        return Err(StorageError::CommittedCount);
    }
    let count: usize = committed as usize;
    let mut records: Vec<Record> = Vec::new();
    let mut i: usize = 0;
    while i < count
        invariant
            i <= count,
            count == words@[8],
            count <= capacity <= MAX_RECORDS,
            words@.len() == 64 * (1 + capacity),
            stored_records(words@, i as int) == Ok::<Seq<Record>, StorageError>(records@),
        decreases count - i,
    {
        let block: Vec<u8> = read_block(words, i);
        let ghost all = stored_records(words@, count as int);
        match decode_record(block.as_slice()) {
            Err(e) => {
                proof {
                    lemma_first_unreadable(words@, i as int, count as int);
                }
                return Err(StorageError::Record(e));
            },
            Ok(record) => {
                if record.sequence != i as u64 + 1 {
                    proof {
                        lemma_first_unreadable(words@, i as int, count as int);
                    }
                    return Err(StorageError::Discontinuous);
                }
                records.push(record);
            },
        }
        i += 1;
    }
    let initialized: bool = words[INITIALIZED_WORD] == 1;
    let consistent: bool = before == after && after % 2 == 0;
    let holds: bool = initialized && consistent;
    let closed_at: u64 = words[16];
    let counters = Counters {
        attempted_records: words[9],
        lost: words[10],
        clock_failures: words[11],
        failed_operations: words[12],
        decode_failures: words[13],
        after_close: words[14],
        closed: holds && words[15] == 1,
        closed_at_ns: if !holds || closed_at == 0xffff_ffff_ffff_ffff {
            None
        } else {
            Some(closed_at)
        },
        clock_resolution_ns: words[17],
        clock_read_samples_ns: read_samples(words),
    };
    Ok(
        RawReport {
            report: Report { records, capacity, record_bytes: RECORD_BYTES, counters },
            initialized,
            metadata_consistent: consistent,
            storage_bytes: 512 * (1 + capacity),
        },
    )
}

/// The first unreadable record decides why storage cannot be read.
proof fn lemma_first_unreadable(words: Seq<u64>, i: int, n: int)
    requires
        0 <= i < n,
        stored_records(words, i) is Ok,
        stored_record(words, i) is Err,
    ensures
        stored_records(words, n) == Err::<Seq<Record>, StorageError>(stored_record(words, i)->Err_0),
    decreases n,
{
    if n > i + 1 {
        lemma_first_unreadable(words, i, n - 1);
    }
}

/// Storage agrees with its writer.
pub open spec fn agrees(words: Seq<u64>, w: MappedWriter) -> bool {
    &&& w.committed <= w.capacity <= MAX_RECORDS
    &&& words.len() == 64 * (1 + w.capacity)
    &&& words[7] == w.revision
    &&& words[8] == w.committed
    &&& stored_records(words, w.committed as int) is Ok
}

proof fn lemma_written_len(words: Seq<u64>, writes: Seq<WordWrite>)
    ensures
        written(words, writes).len() == words.len(),
    decreases writes.len(),
{
    if writes.len() > 0 {
        lemma_written_len(words, writes.drop_last());
    }
}

/// A word that no write names is kept.
proof fn lemma_written_keeps(words: Seq<u64>, writes: Seq<WordWrite>, at: int)
    requires
        0 <= at < words.len(),
        forall|i: int| 0 <= i < writes.len() ==> (#[trigger] writes[i]).index != at,
    ensures
        written(words, writes)[at] == words[at],
    decreases writes.len(),
{
    lemma_written_len(words, writes);
    if writes.len() > 0 {
        lemma_written_len(words, writes.drop_last());
        assert forall|i: int| 0 <= i < writes.drop_last().len() implies (
        #[trigger] writes.drop_last()[i]).index != at by {
            assert(writes.drop_last()[i] == writes[i]);
        }
        lemma_written_keeps(words, writes.drop_last(), at);
    }
}

/// A word holds what the last write to it wrote.
proof fn lemma_written_last(words: Seq<u64>, writes: Seq<WordWrite>, k: int)
    requires
        0 <= k < writes.len(),
        writes[k].index < words.len(),
        forall|i: int|
            k < i < writes.len() ==> (#[trigger] writes[i]).index != writes[k].index,
    ensures
        written(words, writes)[writes[k].index as int] == writes[k].value,
    decreases writes.len(),
{
    lemma_written_len(words, writes);
    lemma_written_len(words, writes.drop_last());
    if k < writes.len() - 1 {
        let before = writes.drop_last();
        assert(before[k] == writes[k]);
        assert forall|i: int| k < i < before.len() implies (#[trigger] before[i]).index
            != before[k].index by {
            assert(before[i] == writes[i]);
        }
        lemma_written_last(words, before, k);
        assert(writes[writes.len() - 1].index != writes[k].index);
    }
}

/// Equal blocks hold equal records.
proof fn lemma_records_kept(a: Seq<u64>, b: Seq<u64>, n: int)
    requires
        a.len() == b.len(),
        0 <= n,
        64 * (1 + n) <= a.len(),
        forall|i: int| 64 <= i < 64 * (1 + n) ==> #[trigger] a[i] == b[i],
    ensures
        stored_records(a, n) == stored_records(b, n),
    decreases n,
{
    if n > 0 {
        lemma_records_kept(a, b, n - 1);
        assert forall|k: int| 0 <= k < 512 implies #[trigger] block_bytes(a, n - 1)[k]
            == block_bytes(b, n - 1)[k] by {
            assert(a[64 + 64 * (n - 1) + k / 8] == b[64 + 64 * (n - 1) + k / 8]);
        }
        assert(block_bytes(a, n - 1) =~= block_bytes(b, n - 1));
    }
}

/// The words of a block spell the block.
proof fn lemma_block_spelled(words: Seq<u64>, place: int, block: Seq<u8>)
    requires
        block.len() == 512,
        0 <= place,
        64 * (place + 2) <= words.len(),
        forall|i: int|
            0 <= i < 64 ==> #[trigger] words[64 + 64 * place + i] == byte_word(block, i),
    ensures
        block_bytes(words, place) == block,
{
    assert forall|k: int| 0 <= k < 512 implies #[trigger] block_bytes(words, place)[k]
        == block[k] by {
        let i = k / 8;
        let part = block.subrange(8 * i, 8 * i + 8);
        assert(words[64 + 64 * place + i] == byte_word(block, i));
        lemma_pow256_values();
        lemma_le_value_bound(part);
        lemma_le_canonical(part);
        assert(part[k % 8] == block[k]);
    }
    assert(block_bytes(words, place) =~= block);
}

/// What the writes of a record touch: the revision, its own block, and at the very
/// end the number of records.
proof fn lemma_append_indexes(w: MappedWriter, record: Record, k: int)
    requires
        w.committed < w.capacity <= MAX_RECORDS,
        0 <= k < append_writes(w, record).len(),
    ensures
        ({
            let all = append_writes(w, record);
            let write = all[k];
            let head = begin_writes(w).len();
            &&& all.len() == head + 65
            &&& k < head ==> write.index == 7 && write.value == w.begun().revision
            &&& head <= k < head + 64 ==> write.index == 64 + 64 * w.committed + (k - head)
                && write.value == byte_word(record_block(record), k - head)
            &&& k == head + 64 ==> write.index == 8 && write.value == w.committed + 1
        }),
{
}

/// Adding a record and reading storage back gives all records before it and then it.
pub proof fn law_append_is_read_back(words: Seq<u64>, w: MappedWriter, record: Record)
    requires
        agrees(words, w),
        w.committed < w.capacity,
        encodable(record.kind),
        record.sequence == w.committed + 1,
    ensures
        ({
            let after = written(words, append_writes(w, record));
            &&& agrees(after, w.appended())
            &&& stored_records(after, w.committed + 1) == Ok::<Seq<Record>, StorageError>(
                stored_records(words, w.committed as int)->Ok_0.push(record),
            )
        }),
{
    let all = append_writes(w, record);
    let after = written(words, all);
    let head = begin_writes(w).len() as int;
    let c = w.committed as int;
    lemma_written_len(words, all);
    assert forall|k: int| 0 <= k < all.len() implies #[trigger] all[k] == all[k] && (k < head
        ==> all[k].index == 7) && (head <= k < head + 64 ==> all[k].index == 64 + 64 * c + (k
        - head)) && (k == head + 64 ==> all[k].index == 8) by {
        lemma_append_indexes(w, record, k);
    }
    lemma_append_indexes(w, record, 0);
    assert forall|i: int| 64 <= i < 64 * (1 + c) implies #[trigger] words[i] == after[i] by {
        lemma_written_keeps(words, all, i);
    }
    lemma_records_kept(words, after, c);
    assert forall|i: int| 0 <= i < 64 implies #[trigger] after[64 + 64 * c + i] == byte_word(
        record_block(record),
        i,
    ) by {
        lemma_append_indexes(w, record, head + i);
        lemma_written_last(words, all, head + i);
    }
    law_block_denotes_its_record(record);
    lemma_block_spelled(after, c, record_block(record));
    lemma_append_indexes(w, record, head + 64);
    lemma_written_last(words, all, head + 64);
    if head == 0 {
        lemma_written_keeps(words, all, 7);
    } else {
        lemma_written_last(words, all, 0);
    }
}

/// A writer that dies while it adds a record leaves every record before it readable,
/// and no part of the new one counts.
pub proof fn law_interrupted_append_keeps_the_records(
    words: Seq<u64>,
    w: MappedWriter,
    record: Record,
    done: int,
)
    requires
        agrees(words, w),
        w.committed < w.capacity,
        0 <= done < append_writes(w, record).len(),
    ensures
        ({
            let left = written(words, append_writes(w, record).take(done));
            &&& left[8] == words[8]
            &&& stored_records(left, left[8] as int) == stored_records(words, words[8] as int)
        }),
{
    let all = append_writes(w, record);
    let part = all.take(done);
    let left = written(words, part);
    let c = w.committed as int;
    lemma_written_len(words, part);
    assert forall|k: int| 0 <= k < part.len() implies (#[trigger] part[k]).index != 8 && (
    part[k].index == 7 || part[k].index >= 64 * (1 + c)) by {
        lemma_append_indexes(w, record, k);
    }
    lemma_written_keeps(words, part, 8);
    assert forall|i: int| 64 <= i < 64 * (1 + c) implies #[trigger] words[i] == left[i] by {
        lemma_written_keeps(words, part, i);
    }
    lemma_records_kept(words, left, c);
}

/// What the writes of the counters touch: header words alone, and at the very end
/// the revision.
proof fn lemma_metadata_indexes(w: MappedWriter, c: Counters, k: int)
    requires
        0 <= k < metadata_writes(w, c).len(),
    ensures
        ({
            let all = metadata_writes(w, c);
            let write = all[k];
            let head = begin_writes(w).len();
            &&& all.len() == head + 43
            &&& k < head ==> write.index == 7 && write.value == w.begun().revision
            &&& head <= k < head + 9 ==> write.index == 9 + (k - head) && write.value
                == counter_words(c)[k - head]
            &&& head + 9 <= k < head + 41 ==> write.index == 19 + (k - head - 9) && write.value
                == c.clock_read_samples_ns@[k - head - 9]
            &&& k == head + 41 ==> write.index == 51 && write.value == 1
            &&& k == head + 42 ==> write.index == 7 && write.value == w.updated().revision
        }),
{
}

/// Updating the counters and reading storage back gives those counters, unless they
/// say that the source closed at the largest time, which stands for none. The records
/// are as before.
pub proof fn law_counters_are_read_back(words: Seq<u64>, w: MappedWriter, c: Counters)
    requires
        agrees(words, w),
        c.closed_at_ns != Some(u64::MAX),
    ensures
        ({
            let after = written(words, metadata_writes(w, c));
            &&& agrees(after, w.updated())
            &&& stored_records(after, w.committed as int) == stored_records(
                words,
                w.committed as int,
            )
            &&& after[51] == 1
            &&& revisions_agree(after[7], after[7])
            &&& stored_counters(after, true) == c
        }),
{
    let all = metadata_writes(w, c);
    let after = written(words, all);
    let head = begin_writes(w).len() as int;
    lemma_written_len(words, all);
    lemma_metadata_indexes(w, c, 0);
    assert forall|k: int| 0 <= k < all.len() implies #[trigger] all[k] == all[k] && (k < head
        ==> all[k].index == 7) && (head <= k < head + 9 ==> all[k].index == 9 + (k - head)) && (
    head + 9 <= k < head + 41 ==> all[k].index == 19 + (k - head - 9)) && (k == head + 41
        ==> all[k].index == 51) && (k == head + 42 ==> all[k].index == 7) by {
        lemma_metadata_indexes(w, c, k);
    }
    lemma_written_keeps(words, all, 8);
    assert forall|i: int| 64 <= i < 64 * (1 + w.committed) implies #[trigger] words[i]
        == after[i] by {
        lemma_written_keeps(words, all, i);
    }
    lemma_records_kept(words, after, w.committed as int);
    assert forall|i: int| 0 <= i < 9 implies #[trigger] after[9 + i] == counter_words(c)[i] by {
        lemma_metadata_indexes(w, c, head + i);
        lemma_written_last(words, all, head + i);
    }
    assert forall|i: int| 0 <= i < 32 implies #[trigger] after[19 + i]
        == c.clock_read_samples_ns@[i] by {
        lemma_metadata_indexes(w, c, head + 9 + i);
        lemma_written_last(words, all, head + 9 + i);
    }
    lemma_metadata_indexes(w, c, head + 41);
    lemma_written_last(words, all, head + 41);
    lemma_metadata_indexes(w, c, head + 42);
    lemma_written_last(words, all, head + 42);
    let samples = after.subrange(19, 51);
    assert forall|i: int| 0 <= i < 32 implies #[trigger] samples[i]
        == c.clock_read_samples_ns@[i] by {
        assert(samples[i] == after[19 + i]);
    }
    assert(samples =~= c.clock_read_samples_ns@);
    lemma_array_of(c.clock_read_samples_ns);
    assert(after[9 + 0int] == c.attempted_records);
    assert(after[9 + 1int] == c.lost);
    assert(after[9 + 2int] == c.clock_failures);
    assert(after[9 + 3int] == c.failed_operations);
    assert(after[9 + 4int] == c.decode_failures);
    assert(after[9 + 5int] == c.after_close);
    assert(after[9 + 6int] == counter_words(c)[6]);
    assert(after[9 + 7int] == counter_words(c)[7]);
    assert(after[9 + 8int] == c.clock_resolution_ns);
}

/// A header whose update has begun and is not complete never passes for consistent.
pub proof fn law_interrupted_update_is_inconsistent(
    words: Seq<u64>,
    w: MappedWriter,
    c: Counters,
    done: int,
)
    requires
        agrees(words, w),
        0 <= done < metadata_writes(w, c).len(),
        w.revision % 2 == 1 || done > 0,
    ensures
        ({
            let left = written(words, metadata_writes(w, c).take(done));
            &&& left[7] == w.begun().revision
            &&& forall|before: u64| !#[trigger] revisions_agree(before, left[7])
        }),
{
    let all = metadata_writes(w, c);
    let part = all.take(done);
    let head = begin_writes(w).len() as int;
    lemma_metadata_indexes(w, c, 0);
    lemma_written_len(words, part);
    assert forall|k: int| 0 <= k < part.len() implies #[trigger] part[k] == all[k] && (k >= head
        ==> part[k].index != 7) by {
        lemma_metadata_indexes(w, c, k);
    }
    if head == 0 {
        lemma_written_keeps(words, part, 7);
    } else {
        lemma_written_last(words, part, 0);
    }
}

/// Storage that was just made passes for one writer of its role, and for no other.
pub proof fn law_fresh_storage_has_one_role(capacity: nat, role: SourceRole, other: SourceRole)
    requires
        1 <= capacity <= MAX_RECORDS,
    ensures
        layout_error(fresh_words(capacity, role), role) is None,
        fresh_words(capacity, role)[6] == 0,
        other != role ==> layout_error(fresh_words(capacity, role), other) == Some(
            StorageError::ExpectedRole,
        ),
        stored_records(fresh_words(capacity, role), 0) == Ok::<Seq<Record>, StorageError>(
            Seq::empty(),
        ),
{
}

} // verus!
