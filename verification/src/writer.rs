//! When the transcript file is due to be synced.

use vstd::prelude::*;
use vstd::string::*;

use crate::clock::{elapsed, elapsed_spec};

verus! {

/// The file is synced once this many bytes were written to it.
pub const FLUSH_SIZE_THRESHOLD: usize = 200;

/// The file is synced by the first write that comes this many nanoseconds after the last sync.
pub const FLUSH_TIME_THRESHOLD: u128 = 2_000_000_000;

/// Keeps account of the bytes that were appended to a file since it was last synced, so that
/// whoever watches the file sees updates without excessive delay.
pub struct BufferedFileWriter {
    bytes_written: usize,
    last_flush: u128,
    flush_size_threshold: usize,
    flush_time_threshold: u128,
}

/// What a `BufferedFileWriter` stands for.
pub struct WriterState {
    /// Bytes appended since the last sync.
    pub unsynced: nat,
    /// The clock at the last sync.
    pub last_flush: nat,
    /// The number of unsynced bytes that calls for a sync.
    pub size_threshold: nat,
    /// The time since the last sync that calls for one.
    pub time_threshold: nat,
}

impl WriterState {
    /// The account of a file that was just opened.
    pub open spec fn opened(now: nat) -> WriterState {
        WriterState {
            unsynced: 0,
            last_flush: now,
            size_threshold: FLUSH_SIZE_THRESHOLD as nat,
            time_threshold: FLUSH_TIME_THRESHOLD as nat,
        }
    }

    /// The account after `bytes` more bytes were appended.
    pub open spec fn appended(self, bytes: nat) -> WriterState {
        WriterState { unsynced: self.unsynced + bytes, ..self }
    }

    /// Whether the file has to be synced at `now`.
    pub open spec fn due(self, now: nat) -> bool {
        self.unsynced >= self.size_threshold || elapsed_spec(self.last_flush, now)
            >= self.time_threshold
    }

    /// The account after a sync.
    pub open spec fn synced(self, now: nat) -> WriterState {
        WriterState { unsynced: 0, last_flush: now, ..self }
    }

    /// A whole write: the bytes are appended, the clock then reads `checked`, and if a sync is due
    /// it is done by `done`.
    pub open spec fn written(self, bytes: nat, checked: nat, done: nat) -> WriterState {
        let after = self.appended(bytes);
        if after.due(checked) {
            after.synced(done)
        } else {
            after
        }
    }
}

impl View for BufferedFileWriter {
    type V = WriterState;

    closed spec fn view(&self) -> WriterState {
        WriterState {
            unsynced: self.bytes_written as nat,
            last_flush: self.last_flush as nat,
            size_threshold: self.flush_size_threshold as nat,
            time_threshold: self.flush_time_threshold as nat,
        }
    }
}

impl BufferedFileWriter {
    /// The account of a file that was opened at `now`.
    pub fn new(now: u128) -> (w: Self)
        ensures
            w@ == WriterState::opened(now as nat),
    {
        BufferedFileWriter {
            bytes_written: 0,
            last_flush: now,
            flush_size_threshold: FLUSH_SIZE_THRESHOLD,
            flush_time_threshold: FLUSH_TIME_THRESHOLD,
        }
    }

    /// Whether the account can take `data` without passing the largest number of bytes that it can
    /// count.
    pub fn has_room(&self, data: &str) -> (r: bool)
        ensures
            r == (self@.unsynced + data.spec_bytes().len() <= usize::MAX),
    {
        data.as_bytes().len() <= usize::MAX - self.bytes_written
    }

    /// Counts `data`, which was appended to the file, and tells whether the file has to be synced
    /// now.
    pub fn write(&mut self, data: &str, now: u128) -> (due: bool)
        requires
            old(self)@.unsynced + data.spec_bytes().len() <= usize::MAX,
        ensures
            final(self)@ == old(self)@.appended(data.spec_bytes().len()),
            due == final(self)@.due(now as nat),
    {
        self.bytes_written = self.bytes_written + data.as_bytes().len();
        self.bytes_written >= self.flush_size_threshold || elapsed(self.last_flush, now)
            >= self.flush_time_threshold
    }

    /// Notes that the file was synced at `now`.
    pub fn flush(&mut self, now: u128)
        ensures
            final(self)@ == old(self)@.synced(now as nat),
    {
        self.bytes_written = 0;
        self.last_flush = now;
    }
}

/// One thing that happens to the file. A flush that fails changes nothing, so it is none.
pub enum FileRecord {
    /// A write of `bytes` bytes: the clock reads `checked` once they are appended, and `done` after
    /// the sync, if one is due.
    Write { bytes: nat, checked: nat, done: nat },
    /// A write of `bytes` bytes that are appended, without a sync: the one that is due at `checked`
    /// fails.
    FailedSync { bytes: nat, checked: nat },
    /// A sync that is asked for, and done when the clock reads `done`.
    Flush { done: nat },
}

/// The bytes that a record appends.
pub open spec fn bytes_of(record: FileRecord) -> nat {
    match record {
        FileRecord::Write { bytes, checked, done } => bytes,
        FileRecord::FailedSync { bytes, checked } => bytes,
        FileRecord::Flush { done } => 0,
    }
}

/// Whether the file is synced by what the record tells of.
pub open spec fn syncs(s: WriterState, record: FileRecord) -> bool {
    match record {
        FileRecord::Write { bytes, checked, done } => s.appended(bytes).due(checked),
        FileRecord::FailedSync { bytes, checked } => false,
        FileRecord::Flush { done } => true,
    }
}

/// The account after what a record tells of.
pub open spec fn recorded(s: WriterState, record: FileRecord) -> WriterState {
    match record {
        FileRecord::Write { bytes, checked, done } => s.written(bytes, checked, done),
        FileRecord::FailedSync { bytes, checked } => s.appended(bytes),
        FileRecord::Flush { done } => s.synced(done),
    }
}

/// The account after a row of records.
pub open spec fn recorded_all(s: WriterState, records: Seq<FileRecord>) -> WriterState
    decreases records.len(),
{
    if records.len() == 0 {
        s
    } else {
        recorded(recorded_all(s, records.drop_last()), records.last())
    }
}

/// The bytes that a row of records appends.
pub open spec fn total_bytes(records: Seq<FileRecord>) -> nat
    decreases records.len(),
{
    if records.len() == 0 {
        0
    } else {
        total_bytes(records.drop_last()) + bytes_of(records.last())
    }
}

/// How many of the records lie after the last sync.
pub open spec fn since_last_sync(s: WriterState, records: Seq<FileRecord>) -> nat
    decreases records.len(),
{
    if records.len() == 0 {
        0
    } else if syncs(recorded_all(s, records.drop_last()), records.last()) {
        0
    } else {
        since_last_sync(s, records.drop_last()) + 1
    }
}

/// As long as no sync fails, a file never has as many unsynced bytes as the threshold, and a write
/// leaves unsynced bytes only where less time than the threshold has passed since the last sync.
pub proof fn law_syncs_are_timely(opened: nat, records: Seq<FileRecord>)
    requires
        forall|i: int| 0 <= i < records.len() ==> !(#[trigger] records[i] is FailedSync),
    ensures
        ({
            let s = recorded_all(WriterState::opened(opened), records);
            &&& s.unsynced < 200
            &&& records.len() > 0 ==> match records.last() {
                FileRecord::Write { bytes, checked, done } => s.unsynced > 0 ==> checked
                    < s.last_flush + 2_000_000_000,
                _ => s.unsynced == 0,
            }
        }),
{
    lemma_thresholds_stay(opened, records);
    if records.len() > 0 {
        lemma_thresholds_stay(opened, records.drop_last());
        assert(!(records[records.len() - 1] is FailedSync));
    }
}

/// The account holds exactly the bytes that were appended after the last sync, whatever syncs
/// failed: none is forgotten and none counted twice.
pub proof fn law_account_is_exact(opened: nat, records: Seq<FileRecord>)
    ensures
        ({
            let n = since_last_sync(WriterState::opened(opened), records);
            &&& n <= records.len()
            &&& recorded_all(WriterState::opened(opened), records).unsynced == total_bytes(
                records.skip(records.len() - n),
            )
        }),
    decreases records.len(),
{
    let s0 = WriterState::opened(opened);
    let n = since_last_sync(s0, records);
    if records.len() == 0 {
        assert(records.skip(0) =~= records);
    } else {
        let init = records.drop_last();
        law_account_is_exact(opened, init);
        if n == 0 {
            assert(records.skip(records.len() as int) =~= Seq::<FileRecord>::empty());
        } else {
            let tail = records.skip(records.len() - n);
            assert(tail.drop_last() =~= init.skip(init.len() - (n - 1)));
            assert(tail.last() == records.last());
        }
    }
}

/// A sync that failed is made up for by the next write: it is due again, and leaves nothing unsynced
/// once it is done.
pub proof fn law_failed_sync_stays_due(
    s: WriterState,
    bytes: nat,
    checked: nat,
    more: nat,
    later: nat,
    done: nat,
)
    requires
        s.appended(bytes).due(checked),
        checked <= later,
    ensures
        ({
            let failed = recorded(s, FileRecord::FailedSync { bytes, checked });
            let next = FileRecord::Write { bytes: more, checked: later, done };
            &&& syncs(failed, next)
            &&& recorded(failed, next).unsynced == 0
        }),
{
}

proof fn lemma_thresholds_stay(opened: nat, records: Seq<FileRecord>)
    ensures
        recorded_all(WriterState::opened(opened), records).size_threshold == FLUSH_SIZE_THRESHOLD,
        recorded_all(WriterState::opened(opened), records).time_threshold == FLUSH_TIME_THRESHOLD,
    decreases records.len(),
{
    if records.len() > 0 {
        lemma_thresholds_stay(opened, records.drop_last());
    }
}

/// What is owed to the file, told from what happened to it: the bytes that were appended since it was
/// last synced, and when that was. The file is synced by a flush, and by a write that makes the bytes
/// 200 or more or comes two seconds or more after the last sync.
pub open spec fn owed(opened: nat, records: Seq<FileRecord>) -> (nat, nat)
    decreases records.len(),
{
    if records.len() == 0 {
        (0, opened)
    } else {
        let (unsynced, since) = owed(opened, records.drop_last());
        match records.last() {
            FileRecord::Write { bytes, checked, done } => if unsynced + bytes >= 200 || checked
                >= since + 2_000_000_000 {
                (0, done)
            } else {
                (unsynced + bytes, since)
            },
            FileRecord::FailedSync { bytes, checked } => (unsynced + bytes, since),
            FileRecord::Flush { done } => (0, done),
        }
    }
}

/// The account of a file is what is owed to it: a write that follows what happened is told to sync
/// exactly where 200 bytes or more are then unsynced, or two seconds or more have passed since the
/// last sync.
pub proof fn law_sync_is_due_when_owed(
    opened: nat,
    records: Seq<FileRecord>,
    w: &mut BufferedFileWriter,
    data: &str,
    now: u128,
    due: bool,
)
    requires
        old(w)@ == recorded_all(WriterState::opened(opened), records),
        call_ensures(BufferedFileWriter::write, (w, data, now), due),
    ensures
        ({
            let (unsynced, since) = owed(opened, records);
            let bytes = data.spec_bytes().len();
            &&& due <==> unsynced + bytes >= 200 || now >= since + 2_000_000_000
            &&& final(w)@ == (WriterState {
                unsynced: unsynced + bytes,
                last_flush: since,
                ..old(w)@
            })
        }),
{
    lemma_account_is_owed(opened, records);
}

/// A file that was just opened owes nothing, and so does one that was just synced: the time counts
/// from then.
pub proof fn law_sync_settles_account(
    opened: u128,
    fresh: BufferedFileWriter,
    w: &mut BufferedFileWriter,
    now: u128,
)
    requires
        call_ensures(BufferedFileWriter::new, (opened,), fresh),
        call_ensures(BufferedFileWriter::flush, (w, now), ()),
    ensures
        fresh@ == recorded_all(WriterState::opened(opened as nat), Seq::empty()),
        fresh@.unsynced == 0 && fresh@.last_flush == opened,
        final(w)@ == (WriterState { unsynced: 0, last_flush: now as nat, ..old(w)@ }),
{
}

/// An account has room exactly where the bytes can be counted.
pub proof fn law_room_is_for_countable_bytes(w: BufferedFileWriter, data: &str, room: bool)
    requires
        call_ensures(BufferedFileWriter::has_room, (&w, data), room),
    ensures
        room <==> w@.unsynced + data.spec_bytes().len() <= usize::MAX,
{
}

proof fn lemma_account_is_owed(opened: nat, records: Seq<FileRecord>)
    ensures
        ({
            let s = recorded_all(WriterState::opened(opened), records);
            &&& owed(opened, records) == (s.unsynced, s.last_flush)
            &&& s.size_threshold == 200
            &&& s.time_threshold == 2_000_000_000
        }),
    decreases records.len(),
{
    if records.len() > 0 {
        lemma_account_is_owed(opened, records.drop_last());
    }
}

} // verus!
