//! How a live transcription goes on: what the program around it is asked to do next, and what comes
//! of doing so.

use vstd::prelude::*;

use crate::streaming::{StreamActionView, StreamEventView, StreamState};
use crate::streaming_laws::{chunks_in, count_offs, is_debug_report, pieces, run, trace};

verus! {

/// Whether an action says how to go on.
pub open spec fn is_operation(action: StreamActionView) -> bool {
    action is Wait || action is Infer || action is Stop
}

/// The actions that say how to go on.
pub open spec fn operations(actions: Seq<StreamActionView>) -> Seq<StreamActionView>
    decreases actions.len(),
{
    if actions.len() == 0 {
        Seq::empty()
    } else if is_operation(actions.last()) {
        operations(actions.drop_last()).push(actions.last())
    } else {
        operations(actions.drop_last())
    }
}

/// How to go on after an event; what the model says of a chunk leaves it as it was.
pub open spec fn operation_after(s: StreamState, e: StreamEventView) -> Option<StreamActionView> {
    match e {
        StreamEventView::Received { samples, waited } => Some(
            StreamActionView::Infer(s.chunks + 1int),
        ),
        StreamEventView::Stalled => Some(StreamActionView::Wait),
        StreamEventView::ChunkDone { now } => Some(StreamActionView::Wait),
        StreamEventView::Closed => Some(StreamActionView::Stop),
        _ => None,
    }
}

/// The numbers of the chunks that the model is run on.
pub open spec fn inferences(actions: Seq<StreamActionView>) -> Seq<int>
    decreases actions.len(),
{
    if actions.len() == 0 {
        Seq::empty()
    } else {
        match actions.last() {
            StreamActionView::Infer(chunk) => inferences(actions.drop_last()).push(chunk),
            _ => inferences(actions.drop_last()),
        }
    }
}

/// What the session asked for last: to wait, where nothing happened yet.
pub open spec fn asked(s: StreamState, events: Seq<StreamEventView>) -> StreamActionView {
    let all = operations(trace(s, events));
    if all.len() == 0 {
        StreamActionView::Wait
    } else {
        all.last()
    }
}

/// Whether the model has processed the chunk that arrived last.
pub open spec fn processed(events: Seq<StreamEventView>) -> bool
    decreases events.len(),
{
    if events.len() == 0 {
        false
    } else {
        match events.last() {
            StreamEventView::Received { samples, waited } => false,
            StreamEventView::Inferred { took, now } => true,
            _ => processed(events.drop_last()),
        }
    }
}

/// Whether `e`, after the events so far, tells of what the session asked for.
pub open spec fn follows(
    s: StreamState,
    events: Seq<StreamEventView>,
    e: StreamEventView,
) -> bool {
    match asked(s, events) {
        StreamActionView::Wait => e is Received || e is Stalled || e is Closed,
        StreamActionView::Infer(chunk) => if processed(events) {
            e is Step || e is Word || e is EndWord || e is ChunkDone
        } else {
            e is Inferred
        },
        _ => false,
    }
}

/// Whether the events come from a program that does what the session asks for.
pub open spec fn obedient(s: StreamState, events: Seq<StreamEventView>) -> bool {
    forall|i: int| 0 <= i < events.len() ==> follows(s, events.take(i), #[trigger] events[i])
}

/// The inferences that a row of events tells of.
pub open spec fn inferred_in(events: Seq<StreamEventView>) -> nat
    decreases events.len(),
{
    if events.len() == 0 {
        0
    } else {
        inferred_in(events.drop_last()) + if events.last() is Inferred {
            1
        } else {
            0nat
        }
    }
}

/// A reply says at most once how to go on, and it ends with that. An arrived chunk is to be
/// processed; after a stall or a processed chunk the next one is to be waited for; and the session
/// is to stop where no more chunks will arrive.
pub proof fn law_reply_says_how_to_go_on(s: StreamState, e: StreamEventView)
    ensures
        match operation_after(s, e) {
            Some(operation) => {
                &&& operations(s.reply(e)) == seq![operation]
                &&& s.reply(e).len() > 0
                &&& s.reply(e).last() == operation
            },
            None => operations(s.reply(e)) == Seq::<StreamActionView>::empty(),
        },
{
    reveal_with_fuel(operations, 5);
}

/// The model is to be run once on every chunk that arrives, in the order of their arrival, and on
/// nothing else.
pub proof fn law_arrived_chunks_are_to_be_inferred(s: StreamState, events: Seq<StreamEventView>)
    ensures
        inferences(trace(s, events)) == Seq::new(chunks_in(events), |i: int| s.chunks + i + 1),
        run(s, events).chunks == s.chunks + chunks_in(events),
    decreases events.len(),
{
    if events.len() > 0 {
        let init = events.drop_last();
        let reply = run(s, init).reply(events.last());
        law_arrived_chunks_are_to_be_inferred(s, init);
        lemma_inferences_of_reply(run(s, init), events.last());
        lemma_inferences_add(trace(s, init), reply);
    }
    assert(inferences(trace(s, events)) =~= Seq::new(
        chunks_in(events),
        |i: int| s.chunks + i + 1,
    ));
}

/// The session is to stop only where no more chunks will arrive, and then it always is.
pub proof fn law_only_the_end_of_audio_stops(s: StreamState, events: Seq<StreamEventView>)
    ensures
        trace(s, events).contains(StreamActionView::Stop) <==> exists|i: int|
            0 <= i < events.len() && #[trigger] events[i] is Closed,
    decreases events.len(),
{
    if events.len() > 0 {
        let init = events.drop_last();
        let before = trace(s, init);
        let reply = run(s, init).reply(events.last());
        law_only_the_end_of_audio_stops(s, init);
        assert(trace(s, events) == before + reply);
        if before.contains(StreamActionView::Stop) {
            let k = choose|k: int| 0 <= k < before.len() && before[k] == StreamActionView::Stop;
            assert(trace(s, events)[k] == StreamActionView::Stop);
            let i = choose|i: int| 0 <= i < init.len() && #[trigger] init[i] is Closed;
            assert(events[i] is Closed);
        } else if events.last() is Closed {
            assert(events[events.len() - 1] is Closed);
            assert(reply.last() == StreamActionView::Stop);
            assert(trace(s, events)[before.len() + reply.len() - 1] == StreamActionView::Stop);
        } else {
            assert forall|k: int| 0 <= k < trace(s, events).len() implies trace(s, events)[k]
                != StreamActionView::Stop by {
                if k < before.len() {
                    assert(before.contains(before[k]));
                }
            }
            assert forall|i: int| 0 <= i < events.len() implies !(#[trigger] events[i] is Closed) by {
                if i < init.len() {
                    assert(init[i] == events[i]);
                }
            }
        }
    }
}

/// Where the program does what the session asks for, the model processes every chunk once and
/// before the next one is taken: an inference directly follows each arrival, and comes nowhere else.
/// What the session asks for tells which chunk it is about, and nothing happens any more after the
/// audio has ended.
pub proof fn law_chunks_are_processed_in_order(s: StreamState, events: Seq<StreamEventView>)
    requires
        obedient(s, events),
    ensures
        forall|i: int|
            0 <= i < events.len() && #[trigger] events[i] is Inferred ==> i > 0 && events[i
                - 1] is Received,
        forall|i: int|
            0 <= i < events.len() - 1 && #[trigger] events[i] is Received ==> events[i
                + 1] is Inferred,
        forall|i: int| 0 <= i < events.len() - 1 ==> !(#[trigger] events[i] is Closed),
        asked(s, events) matches StreamActionView::Infer(chunk) ==> chunk == s.chunks + chunks_in(
            events,
        ),
        chunks_in(events) == inferred_in(events) + if asked(s, events) is Infer && !processed(
            events,
        ) {
            1nat
        } else {
            0
        },
{
    assert forall|i: int| 0 <= i < events.len() && #[trigger] events[i] is Inferred implies i > 0
        && events[i - 1] is Received by {
        lemma_asked(s, events.take(i));
        if i > 0 {
            assert(follows(s, events.take(i - 1), events[i - 1]));
            assert(events.take(i).drop_last() =~= events.take(i - 1));
            assert(events.take(i).last() == events[i - 1]);
            lemma_asked(s, events.take(i - 1));
        }
    }
    assert forall|i: int| 0 <= i < events.len() - 1 && #[trigger] events[i] is Received implies
        events[i + 1] is Inferred by {
        assert(follows(s, events.take(i + 1), events[i + 1]));
        assert(events.take(i + 1).last() == events[i]);
        lemma_asked(s, events.take(i + 1));
    }
    assert forall|i: int| 0 <= i < events.len() - 1 implies !(#[trigger] events[i] is Closed) by {
        assert(follows(s, events.take(i + 1), events[i + 1]));
        assert(events.take(i + 1).last() == events[i]);
        lemma_asked(s, events.take(i + 1));
    }
    lemma_chunks_are_counted(s, events);
}

/// The actions but for the reports that are made in debug mode only.
pub open spec fn essential(actions: Seq<StreamActionView>) -> Seq<StreamActionView>
    decreases actions.len(),
{
    if actions.len() == 0 {
        Seq::empty()
    } else if is_debug_report(actions.last()) {
        essential(actions.drop_last())
    } else {
        essential(actions.drop_last()).push(actions.last())
    }
}

/// Debug mode only adds reports: without it a session calls for the same actions in the same order,
/// but for those reports. So the same pieces are shown, the same chunks counted off, and the program
/// goes on in the same way.
pub proof fn law_debug_only_adds_reports(
    vad: bool,
    timestamps: bool,
    now: nat,
    events: Seq<StreamEventView>,
)
    ensures
        ({
            let loud = trace(StreamState::started(vad, timestamps, true, now), events);
            let quiet = trace(StreamState::started(vad, timestamps, false, now), events);
            &&& quiet == essential(loud)
            &&& pieces(loud) == pieces(quiet)
            &&& count_offs(loud) == count_offs(quiet)
            &&& operations(loud) == operations(quiet)
        }),
{
    let loud = StreamState::started(vad, timestamps, true, now);
    let quiet = StreamState::started(vad, timestamps, false, now);
    lemma_debug_only_adds_reports(loud, quiet, events);
    lemma_essential_keeps(trace(loud, events));
}

/// Whether the two sessions differ at most in debug mode and the time of the last status report.
spec fn same_but_debug(a: StreamState, b: StreamState) -> bool {
    b == (StreamState { debug: b.debug, last_status: b.last_status, ..a })
}

proof fn lemma_debug_only_adds_reports(
    loud: StreamState,
    quiet: StreamState,
    events: Seq<StreamEventView>,
)
    requires
        same_but_debug(loud, quiet),
        !quiet.debug,
    ensures
        same_but_debug(run(loud, events), run(quiet, events)),
        !run(quiet, events).debug,
        trace(quiet, events) == essential(trace(loud, events)),
    decreases events.len(),
{
    if events.len() > 0 {
        let init = events.drop_last();
        let (a, b) = (run(loud, init), run(quiet, init));
        lemma_debug_only_adds_reports(loud, quiet, init);
        lemma_essential_reply(a, b, events.last());
        lemma_essential_add(trace(loud, init), a.reply(events.last()));
    }
}

proof fn lemma_essential_reply(loud: StreamState, quiet: StreamState, e: StreamEventView)
    requires
        same_but_debug(loud, quiet),
        !quiet.debug,
    ensures
        same_but_debug(loud.after(e), quiet.after(e)),
        quiet.reply(e) == essential(loud.reply(e)),
{
    if e is Received || e is ChunkDone {
        reveal_with_fuel(essential, 4);
        assert(quiet.reply(e) =~= essential(loud.reply(e)));
    } else {
        assert(quiet.reply(e) =~= loud.reply(e));
        lemma_all_essential(loud.reply(e));
    }
}

proof fn lemma_all_essential(actions: Seq<StreamActionView>)
    requires
        forall|i: int| 0 <= i < actions.len() ==> !is_debug_report(#[trigger] actions[i]),
    ensures
        essential(actions) == actions,
    decreases actions.len(),
{
    if actions.len() > 0 {
        lemma_all_essential(actions.drop_last());
        assert(!is_debug_report(actions[actions.len() - 1]));
    }
    assert(essential(actions) =~= actions);
}

proof fn lemma_essential_add(a: Seq<StreamActionView>, b: Seq<StreamActionView>)
    ensures
        essential(a + b) == essential(a) + essential(b),
    decreases b.len(),
{
    if b.len() == 0 {
        assert(a + b =~= a);
    } else {
        lemma_essential_add(a, b.drop_last());
        assert((a + b).drop_last() =~= a + b.drop_last());
    }
    assert(essential(a + b) =~= essential(a) + essential(b));
}

proof fn lemma_essential_keeps(actions: Seq<StreamActionView>)
    ensures
        pieces(essential(actions)) == pieces(actions),
        count_offs(essential(actions)) == count_offs(actions),
        operations(essential(actions)) == operations(actions),
    decreases actions.len(),
{
    if actions.len() > 0 {
        let init = actions.drop_last();
        lemma_essential_keeps(init);
        if !is_debug_report(actions.last()) {
            assert(essential(actions).drop_last() =~= essential(init));
            assert(essential(actions).last() == actions.last());
        }
    }
}

proof fn lemma_operations_add(a: Seq<StreamActionView>, b: Seq<StreamActionView>)
    ensures
        operations(a + b) == operations(a) + operations(b),
    decreases b.len(),
{
    if b.len() == 0 {
        assert(a + b =~= a);
    } else {
        lemma_operations_add(a, b.drop_last());
        assert((a + b).drop_last() =~= a + b.drop_last());
    }
    assert(operations(a + b) =~= operations(a) + operations(b));
}

proof fn lemma_inferences_add(a: Seq<StreamActionView>, b: Seq<StreamActionView>)
    ensures
        inferences(a + b) == inferences(a) + inferences(b),
    decreases b.len(),
{
    if b.len() == 0 {
        assert(a + b =~= a);
    } else {
        lemma_inferences_add(a, b.drop_last());
        assert((a + b).drop_last() =~= a + b.drop_last());
    }
    assert(inferences(a + b) =~= inferences(a) + inferences(b));
}

proof fn lemma_inferences_of_reply(s: StreamState, e: StreamEventView)
    ensures
        inferences(s.reply(e)) == if e is Received {
            seq![s.chunks + 1int]
        } else {
            Seq::empty()
        },
{
    reveal_with_fuel(inferences, 5);
}

/// What is asked for after an event.
proof fn lemma_asked(s: StreamState, events: Seq<StreamEventView>)
    ensures
        events.len() == 0 ==> asked(s, events) == StreamActionView::Wait,
        events.len() > 0 ==> asked(s, events) == match operation_after(
            run(s, events.drop_last()),
            events.last(),
        ) {
            Some(operation) => operation,
            None => asked(s, events.drop_last()),
        },
{
    if events.len() > 0 {
        let init = events.drop_last();
        law_reply_says_how_to_go_on(run(s, init), events.last());
        lemma_operations_add(trace(s, init), run(s, init).reply(events.last()));
    }
}

proof fn lemma_chunks_are_counted(s: StreamState, events: Seq<StreamEventView>)
    requires
        obedient(s, events),
    ensures
        asked(s, events) matches StreamActionView::Infer(chunk) ==> chunk == s.chunks + chunks_in(
            events,
        ),
        chunks_in(events) == inferred_in(events) + if asked(s, events) is Infer && !processed(
            events,
        ) {
            1nat
        } else {
            0
        },
    decreases events.len(),
{
    lemma_asked(s, events);
    if events.len() > 0 {
        let init = events.drop_last();
        assert(obedient(s, init)) by {
            assert forall|i: int| 0 <= i < init.len() implies follows(
                s,
                init.take(i),
                #[trigger] init[i],
            ) by {
                assert(init.take(i) =~= events.take(i));
                assert(init[i] == events[i]);
            }
        }
        lemma_chunks_are_counted(s, init);
        law_arrived_chunks_are_to_be_inferred(s, init);
        assert(events.take(events.len() - 1) =~= init);
        assert(follows(s, init, events[events.len() - 1]));
    }
}

} // verus!
