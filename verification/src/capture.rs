//! Feeding the microphone to the model: cutting the captured samples into chunks, watching how
//! many wait, and shedding load where the model cannot keep up.

use vstd::prelude::*;

use crate::clock::{elapsed, elapsed_spec};

verus! {

/// Time between two looks at how the buffer develops, in nanoseconds.
pub const BUFFER_CHECK_INTERVAL: u128 = 5_000_000_000;

/// More waiting samples than this hold over a second of audio.
pub const ONE_SECOND_OF_SAMPLES: usize = 24_000;

/// While more chunks than this are pending, further chunks are dropped. It is about two seconds of
/// audio.
pub const MAX_PENDING_CHUNKS: u64 = 25;

/// Chunks that the channel to the model holds, about four seconds of audio.
pub const CHANNEL_CAPACITY: usize = 50;

/// A report on the capture.
#[derive(Debug, PartialEq, Eq)]
pub enum CaptureNotice {
    /// The samples that wait now, and the most that ever did.
    BufferStatus { current: usize, max: usize },
    /// More samples wait than at the last look, by more than a chunk.
    Growing { was: usize, now: usize, by: usize },
    /// Over a second of audio waits.
    FallingBehind,
}

/// What a `CaptureNotice` stands for.
pub enum CaptureNoticeView {
    BufferStatus { current: nat, max: nat },
    Growing { was: nat, now: nat, by: nat },
    FallingBehind,
}

impl View for CaptureNotice {
    type V = CaptureNoticeView;

    open spec fn view(&self) -> CaptureNoticeView {
        match self {
            CaptureNotice::BufferStatus { current, max } => CaptureNoticeView::BufferStatus {
                current: *current as nat,
                max: *max as nat,
            },
            CaptureNotice::Growing { was, now, by } => CaptureNoticeView::Growing {
                was: *was as nat,
                now: *now as nat,
                by: *by as nat,
            },
            CaptureNotice::FallingBehind => CaptureNoticeView::FallingBehind,
        }
    }
}

/// What a row of reports stands for.
pub open spec fn notice_views(notices: Seq<CaptureNotice>) -> Seq<CaptureNoticeView> {
    notices.map_values(|n: CaptureNotice| n@)
}

/// What one look at the buffer gave.
pub struct Polled<T> {
    /// The chunk that was taken out of the buffer, where it held one.
    pub chunk: Option<Vec<T>>,
    /// The samples that the buffer held before.
    pub buffer_size: usize,
    /// Whether a report on the buffer is due.
    pub should_log: bool,
}

/// The chunk at the front of a buffer, where the buffer holds one of `size` samples.
pub open spec fn front_chunk<T>(buffer: Seq<T>, size: nat) -> Option<Seq<T>> {
    if buffer.len() >= size {
        Some(buffer.take(size as int))
    } else {
        None
    }
}

/// What the buffer holds once the chunk at its front was taken out.
pub open spec fn behind_front<T>(buffer: Seq<T>, size: nat) -> Seq<T> {
    if buffer.len() >= size {
        buffer.skip(size as int)
    } else {
        buffer
    }
}

/// What a `CaptureMonitor` stands for.
pub struct CaptureState {
    /// Whether the state of the buffer is reported.
    pub debug: bool,
    /// Samples in a chunk, at the rate of the device.
    pub chunk_size: nat,
    /// The most samples that were ever found waiting.
    pub max_size: nat,
    /// The samples that waited at the last report.
    pub prev_size: nat,
    /// Chunks that were taken out to be sent.
    pub sent: nat,
    /// The clock at the last report.
    pub last_check: nat,
}

impl CaptureState {
    /// The capture before the first look at the buffer.
    pub open spec fn started(chunk_size: nat, debug: bool, now: nat) -> CaptureState {
        CaptureState { debug, chunk_size, max_size: 0, prev_size: 0, sent: 0, last_check: now }
    }

    /// The capture after it found `size` samples waiting.
    pub open spec fn after_poll(self, size: nat) -> CaptureState {
        CaptureState {
            max_size: if size > self.max_size {
                size
            } else {
                self.max_size
            },
            ..self
        }
    }

    /// Whether a report is due at `now`.
    pub open spec fn report_due(self, now: nat) -> bool {
        elapsed_spec(self.last_check, now) >= BUFFER_CHECK_INTERVAL
    }

    /// The capture after a report.
    pub open spec fn after_report(self, size: nat, now: nat) -> CaptureState {
        CaptureState { prev_size: size, last_check: now, ..self }
    }

    /// Whether `size` waiting samples are more than at the last report by more than a chunk.
    pub open spec fn grows(self, size: nat) -> bool {
        size > self.prev_size + self.chunk_size
    }

    /// The report on a buffer that holds `size` samples.
    pub open spec fn report(self, size: nat) -> Seq<CaptureNoticeView> {
        (if self.debug {
            seq![CaptureNoticeView::BufferStatus { current: size, max: self.max_size }]
        } else {
            Seq::empty()
        }) + (if self.grows(size) {
            seq![
                CaptureNoticeView::Growing {
                    was: self.prev_size,
                    now: size,
                    by: (size - self.prev_size) as nat,
                },
            ]
        } else {
            Seq::empty()
        }) + (if size > ONE_SECOND_OF_SAMPLES {
            seq![CaptureNoticeView::FallingBehind]
        } else {
            Seq::empty()
        })
    }

    /// The capture after one more chunk was taken out to be sent.
    pub open spec fn after_chunk(self) -> CaptureState {
        CaptureState { sent: self.sent + 1, ..self }
    }
}

/// Takes chunks out of the buffer of captured samples and watches how the buffer develops.
pub struct CaptureMonitor {
    debug: bool,
    input_chunk_size: usize,
    max_buffer_size: usize,
    prev_buffer_size: usize,
    send_count: u64,
    last_buffer_check: u128,
}

impl View for CaptureMonitor {
    type V = CaptureState;

    closed spec fn view(&self) -> CaptureState {
        CaptureState {
            debug: self.debug,
            chunk_size: self.input_chunk_size as nat,
            max_size: self.max_buffer_size as nat,
            prev_size: self.prev_buffer_size as nat,
            sent: self.send_count as nat,
            last_check: self.last_buffer_check as nat,
        }
    }
}

impl CaptureMonitor {
    /// A capture that starts at `now`, with chunks of `input_chunk_size` samples at the rate of the
    /// device.
    pub fn new(input_chunk_size: usize, debug: bool, now: u128) -> (m: Self)
        ensures
            m@ == CaptureState::started(input_chunk_size as nat, debug, now as nat),
    {
        CaptureMonitor {
            debug,
            input_chunk_size,
            max_buffer_size: 0,
            prev_buffer_size: 0,
            send_count: 0,
            last_buffer_check: now,
        }
    }

    /// Looks at the buffer: takes the chunk at its front out, where it holds one. It is meant for
    /// the time while the buffer is locked, and leaves all reporting for later.
    pub fn poll<T>(&mut self, buffer: &mut Vec<T>, now: u128) -> (polled: Polled<T>)
        ensures
            final(self)@ == old(self)@.after_poll(old(buffer)@.len()),
            polled.buffer_size == old(buffer)@.len(),
            polled.should_log == old(self)@.report_due(now as nat),
            match polled.chunk {
                Some(chunk) => front_chunk(old(buffer)@, old(self)@.chunk_size) == Some(chunk@),
                None => front_chunk(old(buffer)@, old(self)@.chunk_size) is None,
            },
            final(buffer)@ == behind_front(old(buffer)@, old(self)@.chunk_size),
    {
        let buffer_size = buffer.len();
        if buffer_size > self.max_buffer_size {
            self.max_buffer_size = buffer_size;
        }
        let should_log = elapsed(self.last_buffer_check, now) >= BUFFER_CHECK_INTERVAL;
        let chunk = if buffer_size >= self.input_chunk_size {
            let mut front = buffer.split_off(self.input_chunk_size);
            std::mem::swap(buffer, &mut front);
            Some(front)
        } else {
            None
        };
        Polled { chunk, buffer_size, should_log }
    }

    /// Reports on a buffer that was found to hold `buffer_size` samples, where `should_log` says
    /// that a report is due.
    pub fn report(&mut self, buffer_size: usize, should_log: bool, now: u128) -> (notices: Vec<
        CaptureNotice,
    >)
        ensures
            should_log ==> final(self)@ == old(self)@.after_report(buffer_size as nat, now as nat)
                && notice_views(notices@) == old(self)@.report(buffer_size as nat),
            !should_log ==> final(self)@ == old(self)@ && notices@.len() == 0,
    {
        let mut notices: Vec<CaptureNotice> = Vec::new();
        if should_log {
            if self.debug {
                notices.push(
                    CaptureNotice::BufferStatus { current: buffer_size, max: self.max_buffer_size },
                );
            }
            if buffer_size > self.prev_buffer_size && buffer_size - self.prev_buffer_size
                > self.input_chunk_size {
                notices.push(
                    CaptureNotice::Growing {
                        was: self.prev_buffer_size,
                        now: buffer_size,
                        by: buffer_size - self.prev_buffer_size,
                    },
                );
            }
            if buffer_size > ONE_SECOND_OF_SAMPLES {
                notices.push(CaptureNotice::FallingBehind);
            }
            assert(notice_views(notices@) =~= old(self)@.report(buffer_size as nat));
            self.prev_buffer_size = buffer_size;
            self.last_buffer_check = now;
        }
        notices
    }

    /// Whether one more chunk can be counted.
    pub fn can_count(&self) -> (r: bool)
        ensures
            r == (self@.sent < u64::MAX),
    {
        self.send_count < u64::MAX
    }

    /// Counts a chunk that was taken out to be sent and returns its number.
    pub fn next_chunk(&mut self) -> (number: u64)
        requires
            old(self)@.sent < u64::MAX,
        ensures
            final(self)@ == old(self)@.after_chunk(),
            number == final(self)@.sent,
    {
        self.send_count = self.send_count + 1;
        self.send_count
    }

    /// The chunks that were taken out to be sent so far.
    pub fn send_count(&self) -> (n: u64)
        ensures
            n == self@.sent,
    {
        self.send_count
    }
}

/// What happened to a chunk on its way to the model.
#[derive(Clone, Copy, Debug, PartialEq, Eq, Structural)]
pub enum SendEvent {
    /// It is ready, while this many chunks are pending.
    Ready { pending: u64 },
    /// The channel took it.
    Delivered,
    /// The channel was full.
    Full,
    /// The receiver is gone.
    Disconnected,
}

/// What to do with a chunk on its way to the model.
#[derive(Clone, Copy, Debug, PartialEq, Eq, Structural)]
pub enum SendAction {
    /// Drop it, so that the model can catch up.
    Shed,
    /// Offer it to the channel without waiting.
    Offer,
    /// Wait until the channel takes it.
    Block,
    /// It is on its way: count it as pending.
    CountPending,
    /// Stop the capture.
    Stop,
}

/// What a chunk calls for: it is dropped while too many are pending, offered otherwise, and waited
/// for where the channel is full.
pub open spec fn send_action(event: SendEvent) -> SendAction {
    match event {
        SendEvent::Ready { pending } => if pending > MAX_PENDING_CHUNKS {
            SendAction::Shed
        } else {
            SendAction::Offer
        },
        SendEvent::Delivered => SendAction::CountPending,
        SendEvent::Full => SendAction::Block,
        SendEvent::Disconnected => SendAction::Stop,
    }
}

/// Decides what to do with a chunk on its way to the model.
pub fn next_send_action(event: SendEvent) -> (action: SendAction)
    ensures
        action == send_action(event),
{
    match event {
        SendEvent::Ready { pending } => if pending > MAX_PENDING_CHUNKS {
            SendAction::Shed
        } else {
            SendAction::Offer
        },
        SendEvent::Delivered => SendAction::CountPending,
        SendEvent::Full => SendAction::Block,
        SendEvent::Disconnected => SendAction::Stop,
    }
}

} // verus!
