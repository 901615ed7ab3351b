use crate::record::Record;
use vstd::prelude::*;

verus! {

/// Why a log operation failed.
#[derive(Debug, Clone, Copy, PartialEq, Eq, Structural)]
pub enum LogError {
    /// The offset asked for is not below the number of stored records.
    OutOfRange,
}

/// The message stored at `offset`, if the log holds that many records.
pub open spec fn read_spec(log: Seq<Seq<u8>>, offset: int) -> Option<Seq<u8>> {
    if 0 <= offset < log.len() {
        Some(log[offset])
    } else {
        None
    }
}

/// An ordered, append-only sequence of records. The record at position `i`
/// always carries offset `i`.
#[derive(Debug)]
pub struct Log {
    records: Vec<Record>,
}

impl View for Log {
    type V = Seq<Seq<u8>>;

    /// The stored messages in append order; a message's index is its offset.
    closed spec fn view(&self) -> Seq<Seq<u8>> {
        self.records@.map_values(|r: Record| r.message@)
    }
}

impl Log {
    /// Every record carries its own position as offset.
    pub closed spec fn wf(&self) -> bool {
        forall|i: int| 0 <= i < self.records@.len() ==> #[trigger] self.records@[i].offset == i
    }

    /// An empty log.
    pub fn new() -> (log: Log)
        ensures
            log.wf(),
            log@ == Seq::<Seq<u8>>::empty(),
    {
        let log = Log { records: Vec::new() };
        assert(log@ =~= Seq::<Seq<u8>>::empty());
        log
    }

    /// Stores `record` at the end of the log and returns the offset it was
    /// given: the number of records held before the call. The offset passed
    /// in is ignored.
    pub fn append(&mut self, record: Record) -> (r: u64)
        requires
            old(self).wf(),
        ensures
            final(self).wf(),
            final(self)@ == old(self)@.push(record.message@),
            r == old(self)@.len(),
    {
        let offset = self.records.len() as u64;
        let mut record = record;
        record.offset = offset;
        let ghost before = self.records@;
        self.records.push(record);
        assert(self.records@.map_values(|r: Record| r.message@) =~= before.map_values(
            |r: Record| r.message@,
        ).push(record.message@));
        offset
    }

    /// A copy of the record stored at `offset`, or `OutOfRange` when the log
    /// holds no more than `offset` records.
    pub fn read(&self, offset: u64) -> (r: Result<Record, LogError>)
        requires
            self.wf(),
        ensures
            match r {
                Ok(rec) => read_spec(self@, offset as int) == Some(rec.message@) && rec.offset
                    == offset,
                Err(e) => read_spec(self@, offset as int) is None && e == LogError::OutOfRange,
            },
    {
        if offset >= self.records.len() as u64 {
            return Err(LogError::OutOfRange);
        }
        let i = offset as usize;
        let message = self.records[i].message.clone();
        assert(message@ =~= self.records@[i as int].message@);
        Ok(Record { message, offset: self.records[i].offset })
    }

    /// The number of stored records, which is also the next offset to assign.
    pub fn size(&self) -> (r: usize)
        ensures
            r == self@.len(),
    {
        self.records.len()
    }
}

/// `logs` is a run of appends made one after another: each log is the one
/// before it with `msgs[j]` appended, and `offsets[j]` is what that append
/// returned. This is exactly what `Log::append` promises of each call.
pub open spec fn is_append_run(logs: Seq<Log>, msgs: Seq<Seq<u8>>, offsets: Seq<u64>) -> bool {
    &&& logs.len() == msgs.len() + 1
    &&& offsets.len() == msgs.len()
    &&& forall|j: int|
        0 <= j < msgs.len() ==> logs[j + 1]@ == logs[j]@.push(msgs[j]) && #[trigger] offsets[j]
            == logs[j]@.len()
}

proof fn lemma_run_prefix(logs: Seq<Log>, msgs: Seq<Seq<u8>>, offsets: Seq<u64>, j: int)
    requires
        is_append_run(logs, msgs, offsets),
        0 <= j <= msgs.len(),
    ensures
        logs[j]@ == logs[0]@ + msgs.subrange(0, j),
    decreases j,
{
    if j == 0 {
        assert(logs[0]@ + msgs.subrange(0, 0) =~= logs[0]@);
    } else {
        lemma_run_prefix(logs, msgs, offsets, j - 1);
        assert(offsets[j - 1] == logs[j - 1]@.len());
        assert(logs[0]@ + msgs.subrange(0, j) =~= (logs[0]@ + msgs.subrange(0, j - 1)).push(
            msgs[j - 1],
        ));
    }
}

/// Appends made in turn to a log of length `L` (whatever order the callers
/// reach it in) return exactly the offsets `L, L+1, ..., L+K-1`, each once,
/// and the log then holds every message exactly once, after the old ones.
pub proof fn lemma_batch_offsets_contiguous(logs: Seq<Log>, msgs: Seq<Seq<u8>>, offsets: Seq<u64>)
    requires
        is_append_run(logs, msgs, offsets),
    ensures
        logs.last()@ == logs[0]@ + msgs,
        forall|j: int| 0 <= j < msgs.len() ==> #[trigger] offsets[j] == logs[0]@.len() + j,
        offsets.no_duplicates(),
        offsets.to_set() == Set::new(
            |k: u64| logs[0]@.len() <= k < logs[0]@.len() + msgs.len(),
        ),
{
    let n = msgs.len() as int;
    let base = logs[0]@.len();
    lemma_run_prefix(logs, msgs, offsets, n);
    assert(msgs.subrange(0, n) =~= msgs);
    assert forall|j: int| 0 <= j < n implies #[trigger] offsets[j] == base + j by {
        lemma_run_prefix(logs, msgs, offsets, j);
    }
    assert(offsets.to_set() =~= Set::new(|k: u64| base <= k < base + n)) by {
        assert forall|k: u64| base <= k < base + n implies offsets.to_set().contains(k) by {
            assert(offsets[k - base] == k);
        }
    }
}

/// Appending `N` messages one after another to an empty log returns the
/// offsets `0, ..., N-1`, each exactly once and in that order.
pub proof fn lemma_offsets_dense(logs: Seq<Log>, msgs: Seq<Seq<u8>>, offsets: Seq<u64>)
    requires
        is_append_run(logs, msgs, offsets),
        logs[0]@ == Seq::<Seq<u8>>::empty(),
    ensures
        forall|j: int| 0 <= j < msgs.len() ==> #[trigger] offsets[j] == j,
        offsets.no_duplicates(),
        offsets.to_set() == Set::new(|k: u64| k < msgs.len()),
{
    lemma_batch_offsets_contiguous(logs, msgs, offsets);
    assert(offsets.to_set() =~= Set::new(|k: u64| k < msgs.len()));
}

/// After `N` appends to an empty log, reading offset `i < N` gives the message
/// of the `(i+1)`-th append, unchanged.
pub proof fn lemma_read_after_appends(
    logs: Seq<Log>,
    msgs: Seq<Seq<u8>>,
    offsets: Seq<u64>,
    i: int,
)
    requires
        is_append_run(logs, msgs, offsets),
        logs[0]@ == Seq::<Seq<u8>>::empty(),
        0 <= i < msgs.len(),
    ensures
        read_spec(logs.last()@, i) == Some(msgs[i]),
{
    lemma_batch_offsets_contiguous(logs, msgs, offsets);
    assert(Seq::<Seq<u8>>::empty() + msgs =~= msgs);
}

/// On a log of exactly `N` records built by `N` appends, reading offset `N`
/// or beyond fails; on an empty log every read fails.
pub proof fn lemma_read_past_end(logs: Seq<Log>, msgs: Seq<Seq<u8>>, offsets: Seq<u64>, i: int)
    requires
        is_append_run(logs, msgs, offsets),
        logs[0]@ == Seq::<Seq<u8>>::empty(),
        i >= msgs.len(),
    ensures
        read_spec(logs.last()@, i) is None,
        read_spec(Seq::empty(), i) is None,
{
    lemma_batch_offsets_contiguous(logs, msgs, offsets);
    assert(Seq::<Seq<u8>>::empty() + msgs =~= msgs);
}

} // verus!
