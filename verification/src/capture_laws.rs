//! What holds of a live capture as a whole: of the samples on their way into chunks, and of the
//! chunks on their way to the model.

use vstd::prelude::*;

use crate::capture::{
    behind_front, front_chunk, next_send_action, notice_views, send_action, CaptureMonitor,
    CaptureNotice, CaptureNoticeView, CaptureState, Polled, SendAction, SendEvent, CHANNEL_CAPACITY,
    MAX_PENDING_CHUNKS,
};

verus! {

/// What happens during a capture: samples arrive, or the buffer is looked at while the clock reads
/// `polled`, and reported on, where a report is due, while it reads `reported`.
pub enum CaptureStep<T> {
    Captured(Seq<T>),
    Looked { polled: nat, reported: nat },
}

/// A capture with all that it gave so far.
pub struct CaptureRun<T> {
    /// The state of the monitor.
    pub state: CaptureState,
    /// The samples that wait.
    pub buffer: Seq<T>,
    /// The chunks that were taken out to be sent.
    pub chunks: Seq<Seq<T>>,
    /// The reports.
    pub notices: Seq<CaptureNoticeView>,
}

/// A capture before anything happened.
pub open spec fn capture_started<T>(chunk_size: nat, debug: bool, now: nat) -> CaptureRun<T> {
    CaptureRun {
        state: CaptureState::started(chunk_size, debug, now),
        buffer: Seq::empty(),
        chunks: Seq::empty(),
        notices: Seq::empty(),
    }
}

/// The capture after a step. A look at the buffer takes a chunk out, where there is one, reports,
/// where that is due, and counts the chunk.
pub open spec fn capture_after<T>(r: CaptureRun<T>, step: CaptureStep<T>) -> CaptureRun<T> {
    match step {
        CaptureStep::Captured(samples) => CaptureRun { buffer: r.buffer + samples, ..r },
        CaptureStep::Looked { polled, reported } => {
            let size = r.buffer.len();
            let looked = r.state.after_poll(size);
            let due = r.state.report_due(polled);
            let told = if due {
                looked.after_report(size, reported)
            } else {
                looked
            };
            let notices = if due {
                r.notices + looked.report(size)
            } else {
                r.notices
            };
            let buffer = behind_front(r.buffer, r.state.chunk_size);
            match front_chunk(r.buffer, r.state.chunk_size) {
                Some(chunk) => CaptureRun {
                    state: told.after_chunk(),
                    buffer,
                    chunks: r.chunks.push(chunk),
                    notices,
                },
                None => CaptureRun { state: told, buffer, notices, ..r },
            }
        },
    }
}

/// The capture after a row of steps.
pub open spec fn capture_run<T>(r: CaptureRun<T>, steps: Seq<CaptureStep<T>>) -> CaptureRun<T>
    decreases steps.len(),
{
    if steps.len() == 0 {
        r
    } else {
        capture_after(capture_run(r, steps.drop_last()), steps.last())
    }
}

/// The samples that were captured.
pub open spec fn captured<T>(steps: Seq<CaptureStep<T>>) -> Seq<T>
    decreases steps.len(),
{
    if steps.len() == 0 {
        Seq::empty()
    } else {
        match steps.last() {
            CaptureStep::Captured(samples) => captured(steps.drop_last()) + samples,
            _ => captured(steps.drop_last()),
        }
    }
}

/// The samples of the chunks, one chunk after the other.
pub open spec fn joined<T>(chunks: Seq<Seq<T>>) -> Seq<T>
    decreases chunks.len(),
{
    if chunks.len() == 0 {
        Seq::empty()
    } else {
        joined(chunks.drop_last()) + chunks.last()
    }
}

/// However capture and looks at the buffer interleave, no sample is lost, repeated or moved: the
/// chunks that were taken out, followed by what still waits, are the samples that were captured. All
/// chunks have the size that was asked for.
pub proof fn law_no_sample_is_lost<T>(
    chunk_size: nat,
    debug: bool,
    now: nat,
    steps: Seq<CaptureStep<T>>,
)
    ensures
        ({
            let r = capture_run(capture_started(chunk_size, debug, now), steps);
            &&& joined(r.chunks) + r.buffer == captured(steps)
            &&& forall|i: int|
                0 <= i < r.chunks.len() ==> (#[trigger] r.chunks[i]).len() == chunk_size
        }),
    decreases steps.len(),
{
    let start = capture_started::<T>(chunk_size, debug, now);
    let r = capture_run(start, steps);
    if steps.len() > 0 {
        let before = capture_run(start, steps.drop_last());
        law_no_sample_is_lost(chunk_size, debug, now, steps.drop_last());
        lemma_options_stay(chunk_size, debug, now, steps.drop_last());
        if r.chunks.len() > before.chunks.len() {
            assert(r.chunks.drop_last() =~= before.chunks);
        }
    }
    assert(joined(r.chunks) + r.buffer =~= captured(steps));
}

/// The capture after it looked at the buffer a number of times and found these sizes.
pub open spec fn after_polls(s: CaptureState, sizes: Seq<nat>) -> CaptureState
    decreases sizes.len(),
{
    if sizes.len() == 0 {
        s
    } else {
        after_polls(s, sizes.drop_last()).after_poll(sizes.last())
    }
}

/// The size that is reported as the largest is that of the largest buffer that was ever seen, and
/// looking at the buffer changes nothing else.
pub proof fn law_max_is_largest_seen(chunk_size: nat, debug: bool, now: nat, sizes: Seq<nat>)
    ensures
        ({
            let s = CaptureState::started(chunk_size, debug, now);
            let after = after_polls(s, sizes);
            &&& forall|i: int| 0 <= i < sizes.len() ==> #[trigger] sizes[i] <= after.max_size
            &&& after.max_size == 0 || exists|i: int|
                0 <= i < sizes.len() && #[trigger] sizes[i] == after.max_size
            &&& after == (CaptureState { max_size: after.max_size, ..s })
        }),
    decreases sizes.len(),
{
    if sizes.len() > 0 {
        let init = sizes.drop_last();
        law_max_is_largest_seen(chunk_size, debug, now, init);
        let s = CaptureState::started(chunk_size, debug, now);
        let before = after_polls(s, init);
        let after = after_polls(s, sizes);
        assert forall|i: int| 0 <= i < sizes.len() implies #[trigger] sizes[i]
            <= after.max_size by {
            if i < init.len() {
                assert(init[i] == sizes[i]);
            }
        }
        if after.max_size == before.max_size && before.max_size != 0 {
            let i = choose|i: int| 0 <= i < init.len() && #[trigger] init[i] == before.max_size;
            assert(sizes[i] == after.max_size);
        } else {
            assert(sizes[sizes.len() - 1] == sizes.last());
        }
    }
}

/// The reports that are not made in debug mode only.
pub open spec fn warnings(notices: Seq<CaptureNoticeView>) -> Seq<CaptureNoticeView>
    decreases notices.len(),
{
    if notices.len() == 0 {
        Seq::empty()
    } else if notices.last() is BufferStatus {
        warnings(notices.drop_last())
    } else {
        warnings(notices.drop_last()).push(notices.last())
    }
}

/// Debug mode only adds reports on the buffer: with it or without it the same chunks are sent, the
/// same samples wait, the same warnings are given, and the state is the same but for the flag.
pub proof fn law_debug_only_adds_status<T>(
    chunk_size: nat,
    now: nat,
    steps: Seq<CaptureStep<T>>,
)
    ensures
        ({
            let loud = capture_run(capture_started(chunk_size, true, now), steps);
            let quiet = capture_run(capture_started(chunk_size, false, now), steps);
            &&& loud.chunks == quiet.chunks
            &&& loud.buffer == quiet.buffer
            &&& loud.state == (CaptureState { debug: true, ..quiet.state })
            &&& warnings(loud.notices) == quiet.notices
        }),
    decreases steps.len(),
{
    if steps.len() > 0 {
        let init = steps.drop_last();
        law_debug_only_adds_status(chunk_size, now, init);
        let loud = capture_run(capture_started::<T>(chunk_size, true, now), init);
        let quiet = capture_run(capture_started::<T>(chunk_size, false, now), init);
        lemma_options_stay(chunk_size, false, now, init);
        let size = loud.buffer.len();
        let (a, b) = (loud.state.after_poll(size), quiet.state.after_poll(size));
        lemma_warnings_add(loud.notices, a.report(size));
        assert(warnings(a.report(size)) =~= b.report(size)) by {
            reveal_with_fuel(warnings, 4);
        }
    }
}

/// Every chunk that is taken out to be sent is counted.
pub proof fn law_sent_chunks_are_counted<T>(
    chunk_size: nat,
    debug: bool,
    now: nat,
    steps: Seq<CaptureStep<T>>,
)
    ensures
        capture_run(capture_started::<T>(chunk_size, debug, now), steps).state.sent == capture_run(
            capture_started::<T>(chunk_size, debug, now),
            steps,
        ).chunks.len(),
    decreases steps.len(),
{
    if steps.len() > 0 {
        law_sent_chunks_are_counted(chunk_size, debug, now, steps.drop_last());
    }
}

/// How often the events on the way of chunks call for `action`.
pub open spec fn calls_for(events: Seq<SendEvent>, action: SendAction) -> nat
    decreases events.len(),
{
    if events.len() == 0 {
        0
    } else {
        calls_for(events.drop_last(), action) + if send_action(events.last()) == action {
            1
        } else {
            0nat
        }
    }
}

/// How many chunks the channel took.
pub open spec fn delivered(events: Seq<SendEvent>) -> nat
    decreases events.len(),
{
    if events.len() == 0 {
        0
    } else {
        delivered(events.drop_last()) + if events.last() is Delivered {
            1
        } else {
            0nat
        }
    }
}

/// Every chunk that the channel took is counted as pending, once, and nothing else is.
pub proof fn law_delivered_chunks_are_counted(events: Seq<SendEvent>)
    ensures
        calls_for(events, SendAction::CountPending) == delivered(events),
    decreases events.len(),
{
    if events.len() > 0 {
        law_delivered_chunks_are_counted(events.drop_last());
    }
}

/// Where the thread that sends stands: it has no chunk, or has read the count of pending chunks for
/// one, or has handed one to the channel and not counted it yet.
pub enum Sender {
    Idle,
    Ready { pending: u64 },
    Sent,
}

/// The channel between the two threads, with where they stand.
pub struct Handoff {
    /// The chunks in the channel.
    pub queued: nat,
    /// What was counted up less what was counted off. The counter that both threads share holds it
    /// modulo two to the power of 64.
    pub counted: int,
    pub sender: Sender,
    /// Whether the thread that receives has taken a chunk and not counted it off yet.
    pub taken: bool,
}

/// One step of one of the two threads. The steps of the two interleave in any way.
pub enum HandoffStep {
    /// The sender has a chunk and reads the counter.
    Read,
    /// The sender sheds the chunk or hands it to the channel.
    Send,
    /// The sender counts the chunk that the channel took.
    Count,
    /// The receiver takes a chunk out of the channel.
    Take,
    /// The receiver counts that chunk off.
    CountOff,
}

/// What the shared counter holds.
pub open spec fn counter(h: Handoff) -> u64 {
    (h.counted % 0x1_0000_0000_0000_0000) as u64
}

/// The hand-over before the first chunk.
pub open spec fn handoff_started() -> Handoff {
    Handoff { queued: 0, counted: 0, sender: Sender::Idle, taken: false }
}

/// The hand-over after a step. A thread that is not at the step stays where it is: so does the
/// sender while the channel is full, and the receiver while it is empty.
pub open spec fn handoff_after(h: Handoff, step: HandoffStep) -> Handoff {
    match (step, h.sender) {
        (HandoffStep::Read, Sender::Idle) => Handoff {
            sender: Sender::Ready { pending: counter(h) },
            ..h
        },
        (HandoffStep::Send, Sender::Ready { pending }) => if send_action(
            SendEvent::Ready { pending },
        ) != SendAction::Offer {
            Handoff { sender: Sender::Idle, ..h }
        } else if h.queued < CHANNEL_CAPACITY {
            Handoff { queued: h.queued + 1, sender: Sender::Sent, ..h }
        } else {
            h
        },
        (HandoffStep::Count, Sender::Sent) => if send_action(SendEvent::Delivered)
            == SendAction::CountPending {
            Handoff { counted: h.counted + 1, sender: Sender::Idle, ..h }
        } else {
            Handoff { sender: Sender::Idle, ..h }
        },
        (HandoffStep::Take, _) => if h.queued > 0 && !h.taken {
            Handoff { queued: (h.queued - 1) as nat, taken: true, ..h }
        } else {
            h
        },
        (HandoffStep::CountOff, _) => if h.taken {
            Handoff { counted: h.counted - 1, taken: false, ..h }
        } else {
            h
        },
        _ => h,
    }
}

/// The hand-over after a row of steps.
pub open spec fn handoff_run(steps: Seq<HandoffStep>) -> Handoff
    decreases steps.len(),
{
    if steps.len() == 0 {
        handoff_started()
    } else {
        handoff_after(handoff_run(steps.drop_last()), steps.last())
    }
}

/// However the two threads interleave, the count differs from the chunks in the channel by no more
/// than the one that was taken and not counted off yet, and the one that was sent and not counted
/// yet; and what the sender reads of the counter is exact, and no less than the chunks in the channel
/// until it has sent.
pub proof fn law_pending_count_follows_channel(steps: Seq<HandoffStep>)
    ensures
        ({
            let h = handoff_run(steps);
            &&& h.counted == h.queued + (if h.taken {
                1int
            } else {
                0
            }) - (if h.sender is Sent {
                1int
            } else {
                0
            })
            &&& h.sender is Idle ==> counter(h) == h.counted
            &&& h.sender matches Sender::Ready { pending } ==> h.queued <= pending
        }),
{
    lemma_handoff(steps);
}

/// Shedding keeps the channel from filling up: however the two threads interleave and however slow
/// the model is, the channel never holds more than one chunk beyond the limit, and there is always
/// room for the next one.
pub proof fn law_shedding_keeps_channel_open(steps: Seq<HandoffStep>)
    ensures
        handoff_run(steps).queued <= 26,
        handoff_run(steps).queued < CHANNEL_CAPACITY,
{
    lemma_handoff(steps);
}

proof fn lemma_handoff(steps: Seq<HandoffStep>)
    ensures
        ({
            let h = handoff_run(steps);
            &&& h.counted == h.queued + (if h.taken {
                1int
            } else {
                0
            }) - (if h.sender is Sent {
                1int
            } else {
                0
            })
            &&& h.sender is Idle ==> counter(h) == h.counted
            &&& h.sender matches Sender::Ready { pending } ==> h.queued <= pending
            &&& h.queued <= 26
        }),
    decreases steps.len(),
{
    if steps.len() > 0 {
        lemma_handoff(steps.drop_last());
    }
}

proof fn lemma_options_stay<T>(
    chunk_size: nat,
    debug: bool,
    now: nat,
    steps: Seq<CaptureStep<T>>,
)
    ensures
        capture_run(capture_started::<T>(chunk_size, debug, now), steps).state.debug == debug,
        capture_run(capture_started::<T>(chunk_size, debug, now), steps).state.chunk_size
            == chunk_size,
    decreases steps.len(),
{
    if steps.len() > 0 {
        lemma_options_stay(chunk_size, debug, now, steps.drop_last());
    }
}

proof fn lemma_warnings_add(a: Seq<CaptureNoticeView>, b: Seq<CaptureNoticeView>)
    ensures
        warnings(a + b) == warnings(a) + warnings(b),
    decreases b.len(),
{
    if b.len() == 0 {
        assert(a + b =~= a);
    } else {
        lemma_warnings_add(a, b.drop_last());
        assert((a + b).drop_last() =~= a + b.drop_last());
    }
    assert(warnings(a + b) =~= warnings(a) + warnings(b));
}

/// A look at the buffer takes a chunk out exactly where enough samples wait, and then from the front:
/// chunk and rest make up what was there. A report is due five seconds after the last one. The most
/// samples ever seen are remembered, and nothing else changes.
pub proof fn law_look_takes_chunk_from_front<T>(
    m: &mut CaptureMonitor,
    buffer: &mut Vec<T>,
    now: u128,
    polled: Polled<T>,
)
    requires
        call_ensures(CaptureMonitor::poll::<T>, (m, buffer, now), polled),
    ensures
        polled.chunk is Some <==> old(buffer)@.len() >= old(m)@.chunk_size,
        match polled.chunk {
            Some(chunk) => chunk@.len() == old(m)@.chunk_size && chunk@ + final(buffer)@ == old(
                buffer,
            )@,
            None => final(buffer)@ == old(buffer)@,
        },
        polled.buffer_size == old(buffer)@.len(),
        polled.should_log <==> now >= old(m)@.last_check + 5_000_000_000,
        final(m)@.max_size >= old(m)@.max_size && final(m)@.max_size >= old(buffer)@.len(),
        final(m)@.max_size == old(m)@.max_size || final(m)@.max_size == old(buffer)@.len(),
        final(m)@ == (CaptureState { max_size: final(m)@.max_size, ..old(m)@ }),
{
    if let Some(chunk) = polled.chunk {
        assert(chunk@ + final(buffer)@ =~= old(buffer)@);
    }
}

/// A report, where it is due, tells the size in debug mode, warns of growth exactly where more than a
/// chunk came on top of what waited at the last report, and warns of a lag exactly where more than a
/// second of audio waits, in this order. The next report is measured against this one.
pub proof fn law_report_tells_growth_and_lag(
    m: &mut CaptureMonitor,
    size: usize,
    due: bool,
    now: u128,
    notices: Vec<CaptureNotice>,
)
    requires
        call_ensures(CaptureMonitor::report, (m, size, due, now), notices),
    ensures
        forall|i: int|
            0 <= i < notices@.len() ==> due && match #[trigger] notices@[i] {
                CaptureNotice::BufferStatus { current, max } => old(m)@.debug && current == size
                    && max == old(m)@.max_size && i == 0,
                CaptureNotice::Growing { was, now, by } => was == old(m)@.prev_size && now == size
                    && was + by == now && by > old(m)@.chunk_size,
                CaptureNotice::FallingBehind => size > 24_000 && i == notices@.len() - 1,
            },
        due && old(m)@.debug ==> exists|i: int|
            0 <= i < notices@.len() && #[trigger] notices@[i] is BufferStatus,
        due && size > old(m)@.prev_size + old(m)@.chunk_size ==> exists|i: int|
            0 <= i < notices@.len() && #[trigger] notices@[i] is Growing,
        due && size > 24_000 ==> exists|i: int|
            0 <= i < notices@.len() && #[trigger] notices@[i] is FallingBehind,
        notices@.len() == if due {
            (if old(m)@.debug {
                1int
            } else {
                0
            }) + (if size > old(m)@.prev_size + old(m)@.chunk_size {
                1int
            } else {
                0
            }) + (if size > 24_000 {
                1int
            } else {
                0
            })
        } else {
            0
        },
        due ==> final(m)@ == (CaptureState {
            prev_size: size as nat,
            last_check: now as nat,
            ..old(m)@
        }),
        !due ==> final(m)@ == old(m)@,
{
    let s = *old(m);
    let views = notice_views(notices@);
    if due {
        lemma_report(s@, size as nat);
        assert forall|i: int| 0 <= i < notices@.len() implies match #[trigger] notices@[i] {
            CaptureNotice::BufferStatus { current, max } => s@.debug && current == size && max
                == s@.max_size && i == 0,
            CaptureNotice::Growing { was, now, by } => was == s@.prev_size && now == size && was
                + by == now && by > s@.chunk_size,
            CaptureNotice::FallingBehind => size > 24_000 && i == notices@.len() - 1,
        } by {
            assert(views[i] == notices@[i]@);
        }
        let grown: int = if s@.debug {
            1
        } else {
            0
        };
        if s@.debug {
            assert(views[0] == notices@[0]@);
        }
        if size > s@.prev_size + s@.chunk_size {
            assert(views[grown] == notices@[grown]@);
        }
        if size > 24_000 {
            assert(views[views.len() - 1] == notices@[views.len() - 1]@);
        }
    }
}

/// What a report holds, at which place.
proof fn lemma_report(s: CaptureState, size: nat)
    ensures
        ({
            let report = s.report(size);
            let status: int = if s.debug {
                1
            } else {
                0
            };
            let growth: int = if size > s.prev_size + s.chunk_size {
                1
            } else {
                0
            };
            let lag: int = if size > 24_000 {
                1
            } else {
                0
            };
            &&& report.len() == status + growth + lag
            &&& status == 1 ==> report[0] == (CaptureNoticeView::BufferStatus {
                current: size,
                max: s.max_size,
            })
            &&& growth == 1 ==> report[status] == (CaptureNoticeView::Growing {
                was: s.prev_size,
                now: size,
                by: (size - s.prev_size) as nat,
            })
            &&& lag == 1 ==> report[status + growth] == CaptureNoticeView::FallingBehind
        }),
{
    let status = if s.debug {
        seq![CaptureNoticeView::BufferStatus { current: size, max: s.max_size }]
    } else {
        Seq::empty()
    };
    let growth = if size > s.prev_size + s.chunk_size {
        seq![
            CaptureNoticeView::Growing {
                was: s.prev_size,
                now: size,
                by: (size - s.prev_size) as nat,
            },
        ]
    } else {
        Seq::empty()
    };
    let lag = if size > 24_000 {
        seq![CaptureNoticeView::FallingBehind]
    } else {
        Seq::empty()
    };
    assert(s.report(size) == status + growth + lag);
    if status.len() == 1 {
        assert((status + growth + lag)[0] == status[0]);
    }
    if growth.len() == 1 {
        assert((status + growth + lag)[status.len() as int] == growth[0]);
    }
    if lag.len() == 1 {
        assert((status + growth + lag)[(status.len() + growth.len()) as int] == lag[0]);
    }
}

/// A capture begins with nothing sent and nothing seen, at the time of its start.
pub proof fn law_capture_begins_empty(
    chunk_size: usize,
    debug: bool,
    start: u128,
    fresh: CaptureMonitor,
)
    requires
        call_ensures(CaptureMonitor::new, (chunk_size, debug, start), fresh),
    ensures
        fresh@ == (CaptureState {
            debug,
            chunk_size: chunk_size as nat,
            max_size: 0,
            prev_size: 0,
            sent: 0,
            last_check: start as nat,
        }),
{
}

/// Chunks are numbered one after the other: the next chunk has the number of chunks before it and
/// one, which is the count from then on. There is room while that number can be held.
pub proof fn law_chunks_are_numbered(m: &mut CaptureMonitor, number: u64)
    requires
        call_ensures(CaptureMonitor::next_chunk, (m,), number),
    ensures
        number == old(m)@.sent + 1,
        final(m)@ == (CaptureState { sent: number as nat, ..old(m)@ }),
{
}

/// The count tells the chunks so far, and whether one more can be counted.
pub proof fn law_count_tells_chunks(m: CaptureMonitor, count: u64, room: bool)
    requires
        call_ensures(CaptureMonitor::send_count, (&m,), count),
        call_ensures(CaptureMonitor::can_count, (&m,), room),
    ensures
        count == m@.sent,
        room <==> count < u64::MAX,
{
}

/// A chunk is dropped exactly where more than 25 are pending, two seconds of audio; a chunk that is
/// not dropped is offered, and waited for where the channel is full; the capture stops exactly where
/// nobody listens. The channel holds four seconds of audio.
pub proof fn law_chunks_are_shed_beyond_two_seconds(event: SendEvent, action: SendAction)
    requires
        call_ensures(next_send_action, (event,), action),
    ensures
        action is Shed <==> (event matches SendEvent::Ready { pending } && pending > 25),
        action is Offer <==> (event matches SendEvent::Ready { pending } && pending <= 25),
        action is Block <==> event is Full,
        action is CountPending <==> event is Delivered,
        action is Stop <==> event is Disconnected,
        MAX_PENDING_CHUNKS * 1_920 == 2 * 24_000,
        CHANNEL_CAPACITY * 1_920 == 4 * 24_000,
{
}

} // verus!
