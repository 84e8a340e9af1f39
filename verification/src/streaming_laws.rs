//! What holds of a live transcription as a whole, whatever events it is told of.

use vstd::prelude::*;

use crate::batch::OpenWord;
use crate::batch_history::said;
use crate::batch_laws::{waiting, ShownWord};
use crate::streaming::{
    piece_text, PieceView, StreamActionView, StreamEventView, StreamNoticeView, StreamState,
};

verus! {

/// The session after a row of events.
pub open spec fn run(s: StreamState, events: Seq<StreamEventView>) -> StreamState
    decreases events.len(),
{
    if events.len() == 0 {
        s
    } else {
        run(s, events.drop_last()).after(events.last())
    }
}

/// Everything that a row of events calls for, in order.
pub open spec fn trace(s: StreamState, events: Seq<StreamEventView>) -> Seq<StreamActionView>
    decreases events.len(),
{
    if events.len() == 0 {
        Seq::empty()
    } else {
        trace(s, events.drop_last()) + run(s, events.drop_last()).reply(events.last())
    }
}

/// The pieces among the actions.
pub open spec fn pieces(actions: Seq<StreamActionView>) -> Seq<PieceView>
    decreases actions.len(),
{
    if actions.len() == 0 {
        Seq::empty()
    } else {
        match actions.last() {
            StreamActionView::Emit(piece) => pieces(actions.drop_last()).push(piece),
            _ => pieces(actions.drop_last()),
        }
    }
}

/// The words among the pieces.
pub open spec fn shown(pieces: Seq<PieceView>) -> Seq<ShownWord>
    decreases pieces.len(),
{
    if pieces.len() == 0 {
        Seq::empty()
    } else {
        match pieces.last() {
            PieceView::Word(word) => shown(pieces.drop_last()).push(
                ShownWord { word, start_time: None },
            ),
            PieceView::Line { word, start_time, stop_time } => shown(pieces.drop_last()).push(
                ShownWord { word, start_time: Some(start_time) },
            ),
            _ => shown(pieces.drop_last()),
        }
    }
}

/// The words among the events, as a transcript has to show them.
pub open spec fn heard(timestamps: bool, events: Seq<StreamEventView>) -> Seq<ShownWord>
    decreases events.len(),
{
    if events.len() == 0 {
        Seq::empty()
    } else {
        match events.last() {
            StreamEventView::Word { decoded, start_time, now } => heard(
                timestamps,
                events.drop_last(),
            ).push(
                ShownWord {
                    word: said(decoded),
                    start_time: if timestamps {
                        Some(start_time)
                    } else {
                        None
                    },
                },
            ),
            _ => heard(timestamps, events.drop_last()),
        }
    }
}

/// Whether the event tells that a word is over: it reports its end, or that the next word begins, or
/// that no more audio comes.
pub open spec fn is_boundary(e: StreamEventView) -> bool {
    e is Word || e is EndWord || e is Closed
}

/// The time at which a boundary puts the end of the word before it; the end of the audio puts none.
pub open spec fn boundary_time(e: StreamEventView) -> Option<u64> {
    match e {
        StreamEventView::Word { decoded, start_time, now } => Some(start_time),
        StreamEventView::EndWord { stop_time } => Some(stop_time),
        _ => None,
    }
}

/// How a piece reads where the times of a line are written as `time` says.
pub open spec fn reads(piece: PieceView, time: spec_fn(u64) -> Seq<char>) -> Seq<char> {
    match piece {
        PieceView::Line { word, start_time, stop_time } => piece_text(
            piece,
            time(start_time),
            match stop_time {
                Some(stop_time) => Some(time(stop_time)),
                None => None,
            },
        ),
        _ => piece_text(piece, Seq::empty(), None),
    }
}

/// How the pieces read, one after the other.
pub open spec fn transcript(pieces: Seq<PieceView>, time: spec_fn(u64) -> Seq<char>) -> Seq<char>
    decreases pieces.len(),
{
    if pieces.len() == 0 {
        Seq::empty()
    } else {
        transcript(pieces.drop_last(), time) + reads(pieces.last(), time)
    }
}

/// Alerts of a silent transcript among the pieces, minus the remarks that it resumed.
pub open spec fn open_alerts(shown: Seq<PieceView>) -> int
    decreases shown.len(),
{
    if shown.len() == 0 {
        0
    } else {
        open_alerts(shown.drop_last()) + match shown.last() {
            PieceView::NoTranscript(secs) => 1,
            PieceView::Resumed => -1,
            _ => 0int,
        }
    }
}

/// The chunks that a row of events brings.
pub open spec fn chunks_in(events: Seq<StreamEventView>) -> nat
    decreases events.len(),
{
    if events.len() == 0 {
        0
    } else {
        chunks_in(events.drop_last()) + match events.last() {
            StreamEventView::Received { samples, waited } => 1,
            _ => 0nat,
        }
    }
}

/// How often the actions count a pending chunk off.
pub open spec fn count_offs(actions: Seq<StreamActionView>) -> nat
    decreases actions.len(),
{
    if actions.len() == 0 {
        0
    } else {
        count_offs(actions.drop_last()) + if actions.last() is CountOff {
            1
        } else {
            0nat
        }
    }
}

/// The samples that a row of events brings.
pub open spec fn samples_in(events: Seq<StreamEventView>) -> nat
    decreases events.len(),
{
    if events.len() == 0 {
        0
    } else {
        samples_in(events.drop_last()) + match events.last() {
            StreamEventView::Received { samples, waited } => samples,
            _ => 0nat,
        }
    }
}

/// What the event at position `i` calls for.
pub open spec fn reply_at(
    s: StreamState,
    events: Seq<StreamEventView>,
    i: int,
) -> Seq<StreamActionView> {
    run(s, events.take(i)).reply(events[i])
}

/// Every word that is heard is shown, once and in order, with the time of its beginning where times
/// are shown, and nothing else is shown as a word. Where times are shown, the last word may still
/// wait for its end; once the audio has ended, all have been shown.
pub proof fn law_every_word_is_shown(
    vad: bool,
    timestamps: bool,
    debug: bool,
    now: nat,
    events: Seq<StreamEventView>,
)
    ensures
        ({
            let s = StreamState::started(vad, timestamps, debug, now);
            let whole = events.push(StreamEventView::Closed);
            &&& shown(pieces(trace(s, events))) + waiting(run(s, events).last_word) == heard(
                timestamps,
                events,
            )
            &&& shown(pieces(trace(s, whole))) == heard(timestamps, events)
        }),
{
    let s = StreamState::started(vad, timestamps, debug, now);
    let whole = events.push(StreamEventView::Closed);
    lemma_words_so_far(s, events);
    lemma_words_so_far(s, whole);
    assert(whole.drop_last() =~= events);
    assert(shown(pieces(trace(s, whole))) =~= shown(pieces(trace(s, whole))) + waiting(
        run(s, whole).last_word,
    ));
}

/// Where words are shown with their times, a word is written when the next boundary arrives, with
/// the time of that boundary as its end. The end of the audio leaves it open.
pub proof fn law_word_ends_at_next_boundary(
    vad: bool,
    debug: bool,
    now: nat,
    events: Seq<StreamEventView>,
    i: int,
    j: int,
)
    requires
        0 <= i < j < events.len(),
        events[i] is Word,
        is_boundary(events[j]),
        forall|k: int| i < k < j ==> !is_boundary(#[trigger] events[k]),
    ensures
        ({
            let reply = reply_at(StreamState::started(vad, true, debug, now), events, j);
            let line = PieceView::Line {
                word: said(events[i]->decoded),
                start_time: events[i]->start_time,
                stop_time: boundary_time(events[j]),
            };
            &&& pieces(reply).contains(line)
            &&& shown(pieces(reply)).len() == 1
        }),
{
    let s = StreamState::started(vad, true, debug, now);
    let before = run(s, events.take(j));
    lemma_waiting_word(s, events, i, j);
    lemma_pieces_of_reply(before, events[j]);
    reveal_with_fuel(shown, 3);
    let shown_pieces = pieces(reply_at(s, events, j));
    let at: int = if events[j] is Word && before.alerted {
        1
    } else {
        0
    };
    assert(shown_pieces[at] == PieceView::Line {
        word: said(events[i]->decoded),
        start_time: events[i]->start_time,
        stop_time: boundary_time(events[j]),
    });
}

/// The end of a word that no word precedes since the last end calls for nothing: no line is written
/// twice.
pub proof fn law_end_without_word_is_silent(
    vad: bool,
    timestamps: bool,
    debug: bool,
    now: nat,
    events: Seq<StreamEventView>,
    i: int,
    j: int,
)
    requires
        -1 <= i < j < events.len(),
        i >= 0 ==> events[i] is EndWord || events[i] is Closed,
        events[j] is EndWord,
        forall|k: int| i < k < j ==> !is_boundary(#[trigger] events[k]),
    ensures
        reply_at(StreamState::started(vad, timestamps, debug, now), events, j).len() == 0,
{
    let s = StreamState::started(vad, timestamps, debug, now);
    lemma_nothing_waits(s, events, i, j);
}

/// Where words are shown with their times, each has a line of its own, and otherwise none has.
pub proof fn law_timestamps_fix_form(
    vad: bool,
    timestamps: bool,
    debug: bool,
    now: nat,
    events: Seq<StreamEventView>,
)
    ensures
        ({
            let all = pieces(trace(StreamState::started(vad, timestamps, debug, now), events));
            forall|i: int|
                0 <= i < all.len() ==> match #[trigger] all[i] {
                    PieceView::Word(word) => !timestamps,
                    PieceView::Line { word, start_time, stop_time } => timestamps,
                    _ => true,
                }
        }),
    decreases events.len(),
{
    let s = StreamState::started(vad, timestamps, debug, now);
    if events.len() > 0 {
        let init = events.drop_last();
        law_timestamps_fix_form(vad, timestamps, debug, now, init);
        lemma_words_wait_for_times_only(s, init);
        lemma_pieces_of_reply(run(s, init), events.last());
        lemma_pieces_add(trace(s, init), run(s, init).reply(events.last()));
    }
}

/// Alerts of a silent transcript and remarks that it resumed take turns, an alert first: counted
/// from a session without an open alert, the alerts are ahead by one while the last one is open,
/// and by none otherwise.
pub proof fn law_alerts_and_resumptions_take_turns(s: StreamState, events: Seq<StreamEventView>)
    requires
        !s.alerted,
    ensures
        open_alerts(pieces(trace(s, events))) == if run(s, events).alerted {
            1int
        } else {
            0
        },
    decreases events.len(),
{
    if events.len() > 0 {
        let init = events.drop_last();
        law_alerts_and_resumptions_take_turns(s, init);
        let reply = run(s, init).reply(events.last());
        lemma_pieces_of_reply(run(s, init), events.last());
        lemma_pieces_add(trace(s, init), reply);
        lemma_alerts_add(pieces(trace(s, init)), pieces(reply));
        reveal_with_fuel(open_alerts, 3);
    }
}

/// Where words are shown without their times, no word stands between an alert of a silent
/// transcript and the remark that it resumed, and a word directly follows each such remark. Where
/// they are shown with their times, a line is written when its word has ended: the line of a word
/// from before the alert may then come after it, and what was said last has no line yet.
pub proof fn law_no_word_within_alert(
    vad: bool,
    debug: bool,
    now: nat,
    events: Seq<StreamEventView>,
)
    ensures
        ({
            let all = pieces(trace(StreamState::started(vad, false, debug, now), events));
            &&& forall|i: int|
                0 <= i < all.len() && #[trigger] all[i] is Word ==> open_alerts(all.take(i)) == 0
            &&& forall|i: int|
                0 <= i < all.len() && #[trigger] all[i] is Resumed ==> i + 1 < all.len() && all[i
                    + 1] is Word
        }),
    decreases events.len(),
{
    let s = StreamState::started(vad, false, debug, now);
    if events.len() > 0 {
        let init = events.drop_last();
        let before = pieces(trace(s, init));
        let added = pieces(run(s, init).reply(events.last()));
        let all = before + added;
        law_no_word_within_alert(vad, debug, now, init);
        law_alerts_and_resumptions_take_turns(s, init);
        lemma_words_wait_for_times_only(s, init);
        lemma_pieces_of_reply(run(s, init), events.last());
        lemma_pieces_add(trace(s, init), run(s, init).reply(events.last()));
        assert forall|i: int| 0 <= i < all.len() && #[trigger] all[i] is Word implies open_alerts(
            all.take(i),
        ) == 0 by {
            if i < before.len() {
                assert(before[i] is Word);
                assert(all.take(i) =~= before.take(i));
            } else {
                assert(all.take(i) =~= before + added.take(i - before.len()));
                lemma_alerts_add(before, added.take(i - before.len()));
                reveal_with_fuel(open_alerts, 2);
            }
        }
        assert forall|i: int| 0 <= i < all.len() && #[trigger] all[i] is Resumed implies i + 1
            < all.len() && all[i + 1] is Word by {
            if i < before.len() {
                assert(before[i] is Resumed);
                assert(before[i + 1] is Word);
            }
        }
    }
}

/// An alert is raised only by an inference that ends more than the timeout after the last word, and
/// the next word that is heard closes it, with a remark that nothing else calls for.
pub proof fn law_alerts_need_silence(s: StreamState, e: StreamEventView)
    ensures
        !s.alerted && s.after(e).alerted ==> (e matches StreamEventView::Inferred { took, now }
            && now > s.last_transcript + 10_000_000_000),
        s.alerted && !s.after(e).alerted ==> e is Word,
        e is Word ==> !s.after(e).alerted,
        pieces(s.reply(e)).contains(PieceView::Resumed) <==> s.alerted && e is Word,
{
    lemma_pieces_of_reply(s, e);
    if s.alerted && e is Word {
        assert(pieces(s.reply(e))[0] == PieceView::Resumed);
    }
}

/// A silence beyond the timeout never goes unnoticed: after an inference that finds one there is an
/// open alert, and the one that opens it says for how many whole seconds, ten or more, no word was
/// heard.
pub proof fn law_silence_is_alerted(s: StreamState, took: nat, now: nat)
    requires
        now > s.last_transcript + 10_000_000_000,
    ensures
        s.after(StreamEventView::Inferred { took, now }).alerted,
        !s.alerted ==> ({
            let secs = ((now - s.last_transcript) / 1_000_000_000) as nat;
            &&& secs >= 10
            &&& s.reply(StreamEventView::Inferred { took, now }).last() == StreamActionView::Emit(
                PieceView::NoTranscript(secs),
            )
        }),
        s.alerted ==> pieces(s.reply(StreamEventView::Inferred { took, now })).len() == 0,
{
    lemma_pieces_of_reply(s, StreamEventView::Inferred { took, now });
}

/// Every alert of a silent transcript tells of ten seconds or more.
pub proof fn law_alerts_tell_of_ten_seconds(s: StreamState, events: Seq<StreamEventView>)
    ensures
        forall|i: int|
            0 <= i < pieces(trace(s, events)).len() ==> (#[trigger] pieces(
                trace(s, events),
            )[i] matches PieceView::NoTranscript(secs) ==> secs >= 10),
    decreases events.len(),
{
    if events.len() > 0 {
        let init = events.drop_last();
        law_alerts_tell_of_ten_seconds(s, init);
        lemma_pieces_of_reply(run(s, init), events.last());
        lemma_pieces_add(trace(s, init), run(s, init).reply(events.last()));
    }
}

/// Where the end of a turn is not asked for, it is never shown.
pub proof fn law_no_turns_without_vad(s: StreamState, events: Seq<StreamEventView>)
    requires
        !s.vad,
    ensures
        !run(s, events).vad,
        !pieces(trace(s, events)).contains(PieceView::EndOfTurn),
    decreases events.len(),
{
    if events.len() > 0 {
        let init = events.drop_last();
        law_no_turns_without_vad(s, init);
        lemma_pieces_of_reply(run(s, init), events.last());
        lemma_pieces_add(trace(s, init), run(s, init).reply(events.last()));
        let before = pieces(trace(s, init));
        let added = pieces(run(s, init).reply(events.last()));
        assert forall|i: int| 0 <= i < (before + added).len() implies (before + added)[i]
            != PieceView::EndOfTurn by {
            if i < before.len() {
                assert(before.contains(before[i]));
            }
        }
    }
}

/// Whether a report is made in debug mode only.
pub open spec fn is_debug_report(action: StreamActionView) -> bool {
    match action {
        StreamActionView::Notice(StreamNoticeView::LongWait(waited)) => true,
        StreamActionView::Notice(
            StreamNoticeView::Status { chunks, samples, since_transcript },
        ) => true,
        _ => false,
    }
}

/// Outside debug mode there are no reports on waits and no status reports.
pub proof fn law_no_debug_reports_without_debug(s: StreamState, events: Seq<StreamEventView>)
    requires
        !s.debug,
    ensures
        !run(s, events).debug,
        forall|i: int|
            0 <= i < trace(s, events).len() ==> !is_debug_report(#[trigger] trace(s, events)[i]),
    decreases events.len(),
{
    if events.len() > 0 {
        let init = events.drop_last();
        law_no_debug_reports_without_debug(s, init);
        let reply = run(s, init).reply(events.last());
        assert forall|i: int| 0 <= i < trace(s, events).len() implies !is_debug_report(
            #[trigger] trace(s, events)[i],
        ) by {
            if i < trace(s, init).len() {
                assert(trace(s, events)[i] == trace(s, init)[i]);
            } else {
                assert(trace(s, events)[i] == reply[i - trace(s, init).len()]);
            }
        }
    }
}

/// Between two remarks that a turn has ended there is always a word.
pub proof fn law_one_end_of_turn_between_words(
    s: StreamState,
    events: Seq<StreamEventView>,
    i: int,
    j: int,
)
    requires
        0 <= i < j < events.len(),
        reply_at(s, events, i).contains(StreamActionView::Emit(PieceView::EndOfTurn)),
        reply_at(s, events, j).contains(StreamActionView::Emit(PieceView::EndOfTurn)),
    ensures
        exists|k: int| i < k < j && #[trigger] events[k] is Word,
{
    if forall|k: int| i < k < j ==> !(#[trigger] events[k] is Word) {
        lemma_end_of_turn_reply(run(s, events.take(i)), events[i]);
        lemma_end_of_turn_reply(run(s, events.take(j)), events[j]);
        lemma_turn_stays_shown(s, events, i, j);
    }
}

/// The session counts every chunk and every sample that it receives, and nothing else.
pub proof fn law_counters_are_exact(s: StreamState, events: Seq<StreamEventView>)
    ensures
        run(s, events).chunks == s.chunks + chunks_in(events),
        run(s, events).samples == s.samples + samples_in(events),
    decreases events.len(),
{
    if events.len() > 0 {
        law_counters_are_exact(s, events.drop_last());
    }
}

/// Every chunk that is received is counted off the pending ones, once, and nothing else is.
pub proof fn law_received_chunks_are_counted_off(s: StreamState, events: Seq<StreamEventView>)
    ensures
        count_offs(trace(s, events)) == chunks_in(events),
    decreases events.len(),
{
    if events.len() > 0 {
        let init = events.drop_last();
        law_received_chunks_are_counted_off(s, init);
        lemma_count_offs_of_reply(run(s, init), events.last());
        lemma_count_offs_add(trace(s, init), run(s, init).reply(events.last()));
    }
}

/// The chunks since the last word are those that came after it.
pub proof fn law_chunks_since_word(
    s: StreamState,
    before: Seq<StreamEventView>,
    word: StreamEventView,
    after: Seq<StreamEventView>,
)
    requires
        word is Word,
        forall|k: int| 0 <= k < after.len() ==> !(#[trigger] after[k] is Word),
    ensures
        run(s, before.push(word) + after).chunks_since == chunks_in(after),
    decreases after.len(),
{
    let all = before.push(word) + after;
    if after.len() == 0 {
        assert(all =~= before.push(word));
        assert(all.drop_last() =~= before);
    } else {
        assert forall|k: int| 0 <= k < after.drop_last().len() implies !(
        #[trigger] after.drop_last()[k] is Word) by {
            assert(after[k] == after.drop_last()[k]);
        }
        law_chunks_since_word(s, before, word, after.drop_last());
        assert(all.drop_last() =~= before.push(word) + after.drop_last());
        assert(after[after.len() - 1] == after.last());
    }
}

/// What is shown is never taken back: more events only add to the transcript, however times are
/// written.
pub proof fn law_transcript_only_grows(
    s: StreamState,
    events: Seq<StreamEventView>,
    more: Seq<StreamEventView>,
    time: spec_fn(u64) -> Seq<char>,
)
    ensures
        transcript(pieces(trace(s, events)), time).is_prefix_of(
            transcript(pieces(trace(s, events + more)), time),
        ),
    decreases more.len(),
{
    let all = events + more;
    if more.len() == 0 {
        assert(all =~= events);
    } else {
        law_transcript_only_grows(s, events, more.drop_last(), time);
        assert(all.drop_last() =~= events + more.drop_last());
        let init = all.drop_last();
        let reply = run(s, init).reply(all.last());
        lemma_pieces_add(trace(s, init), reply);
        lemma_transcript_add(pieces(trace(s, init)), pieces(reply), time);
    }
}

/// The line of a word that waits for its end, if there is one.
spec fn line_of(last_word: Option<OpenWord>, stop_time: Option<u64>) -> Seq<PieceView> {
    match last_word {
        Some(open) => seq![
            PieceView::Line { word: open.word, start_time: open.start_time, stop_time },
        ],
        None => Seq::empty(),
    }
}

/// The pieces of a single reply.
proof fn lemma_pieces_of_reply(s: StreamState, e: StreamEventView)
    ensures
        pieces(s.reply(e)) == match e {
            StreamEventView::Stalled => seq![PieceView::AudioTimeout],
            StreamEventView::Inferred { took, now } => if s.loses_transcript(now) {
                seq![
                    PieceView::NoTranscript(
                        ((now - s.last_transcript) / 1_000_000_000) as nat,
                    ),
                ]
            } else {
                Seq::empty()
            },
            StreamEventView::Step { scores } => if s.shows_turn(scores) {
                seq![PieceView::EndOfTurn]
            } else {
                Seq::empty()
            },
            StreamEventView::Word { decoded, start_time, now } => (if s.alerted {
                seq![PieceView::Resumed]
            } else {
                Seq::empty()
            }) + (if s.timestamps {
                line_of(s.last_word, Some(start_time))
            } else {
                seq![PieceView::Word(said(decoded))]
            }),
            StreamEventView::EndWord { stop_time } => if s.timestamps {
                line_of(s.last_word, Some(stop_time))
            } else {
                Seq::empty()
            },
            StreamEventView::Closed => line_of(s.last_word, None).push(PieceView::Newline),
            _ => Seq::empty(),
        },
{
    reveal_with_fuel(pieces, 5);
}

proof fn lemma_pieces_add(a: Seq<StreamActionView>, b: Seq<StreamActionView>)
    ensures
        pieces(a + b) == pieces(a) + pieces(b),
    decreases b.len(),
{
    if b.len() == 0 {
        assert(a + b =~= a);
    } else {
        lemma_pieces_add(a, b.drop_last());
        assert((a + b).drop_last() =~= a + b.drop_last());
    }
    assert(pieces(a + b) =~= pieces(a) + pieces(b));
}

proof fn lemma_shown_add(a: Seq<PieceView>, b: Seq<PieceView>)
    ensures
        shown(a + b) == shown(a) + shown(b),
    decreases b.len(),
{
    if b.len() == 0 {
        assert(a + b =~= a);
    } else {
        lemma_shown_add(a, b.drop_last());
        assert((a + b).drop_last() =~= a + b.drop_last());
    }
    assert(shown(a + b) =~= shown(a) + shown(b));
}

proof fn lemma_count_offs_of_reply(s: StreamState, e: StreamEventView)
    ensures
        count_offs(s.reply(e)) == if e is Received {
            1nat
        } else {
            0
        },
{
    reveal_with_fuel(count_offs, 5);
}

proof fn lemma_count_offs_add(a: Seq<StreamActionView>, b: Seq<StreamActionView>)
    ensures
        count_offs(a + b) == count_offs(a) + count_offs(b),
    decreases b.len(),
{
    if b.len() == 0 {
        assert(a + b =~= a);
    } else {
        lemma_count_offs_add(a, b.drop_last());
        assert((a + b).drop_last() =~= a + b.drop_last());
    }
}

/// The options of a session stay, and a word waits for its end only where times are shown.
proof fn lemma_words_wait_for_times_only(s: StreamState, events: Seq<StreamEventView>)
    requires
        s.last_word is None,
    ensures
        run(s, events).timestamps == s.timestamps,
        !s.timestamps ==> run(s, events).last_word is None,
    decreases events.len(),
{
    if events.len() > 0 {
        lemma_words_wait_for_times_only(s, events.drop_last());
    }
}

proof fn lemma_words_so_far(s: StreamState, events: Seq<StreamEventView>)
    requires
        s.last_word is None,
    ensures
        shown(pieces(trace(s, events))) + waiting(run(s, events).last_word) == heard(
            s.timestamps,
            events,
        ),
    decreases events.len(),
{
    if events.len() > 0 {
        let init = events.drop_last();
        let before = run(s, init);
        let reply = before.reply(events.last());
        lemma_words_so_far(s, init);
        lemma_words_wait_for_times_only(s, init);
        lemma_pieces_of_reply(before, events.last());
        lemma_pieces_add(trace(s, init), reply);
        lemma_shown_add(pieces(trace(s, init)), pieces(reply));
        reveal_with_fuel(shown, 3);
        assert(shown(pieces(reply)) + waiting(before.after(events.last()).last_word) =~= waiting(
            before.last_word,
        ) + heard(s.timestamps, seq![events.last()])) by {
            reveal_with_fuel(heard, 2);
        }
        assert(heard(s.timestamps, events) =~= heard(s.timestamps, init) + heard(
            s.timestamps,
            seq![events.last()],
        )) by {
            reveal_with_fuel(heard, 2);
        }
        assert(shown(pieces(trace(s, events))) + waiting(run(s, events).last_word) =~= shown(
            pieces(trace(s, init)),
        ) + (shown(pieces(reply)) + waiting(before.after(events.last()).last_word)));
        assert(shown(pieces(trace(s, events))) + waiting(run(s, events).last_word) =~= heard(
            s.timestamps,
            events,
        ));
    } else {
        assert(shown(pieces(trace(s, events))) + waiting(run(s, events).last_word) =~= heard(
            s.timestamps,
            events,
        ));
    }
}

proof fn lemma_waiting_word(s: StreamState, events: Seq<StreamEventView>, i: int, j: int)
    requires
        s.timestamps,
        s.last_word is None,
        0 <= i < j <= events.len(),
        events[i] is Word,
        forall|k: int| i < k < j ==> !is_boundary(#[trigger] events[k]),
    ensures
        run(s, events.take(j)).timestamps,
        run(s, events.take(j)).last_word == Some(
            OpenWord { word: said(events[i]->decoded), start_time: events[i]->start_time },
        ),
    decreases j - i,
{
    assert(events.take(j).drop_last() =~= events.take(j - 1));
    assert(events.take(j).last() == events[j - 1]);
    lemma_words_wait_for_times_only(s, events.take(j));
    lemma_words_wait_for_times_only(s, events.take(j - 1));
    if i < j - 1 {
        lemma_waiting_word(s, events, i, j - 1);
        assert(!is_boundary(events[j - 1]));
    }
}

proof fn lemma_nothing_waits(s: StreamState, events: Seq<StreamEventView>, i: int, j: int)
    requires
        s.last_word is None,
        -1 <= i < j <= events.len(),
        i >= 0 ==> events[i] is EndWord || events[i] is Closed,
        forall|k: int| i < k < j ==> !is_boundary(#[trigger] events[k]),
    ensures
        run(s, events.take(j)).last_word is None,
    decreases j - i,
{
    if j > 0 {
        assert(events.take(j).drop_last() =~= events.take(j - 1));
        assert(events.take(j).last() == events[j - 1]);
        lemma_words_wait_for_times_only(s, events.take(j - 1));
        if i < j - 1 {
            lemma_nothing_waits(s, events, i, j - 1);
            assert(!is_boundary(events[j - 1]));
        }
    }
}

proof fn lemma_alerts_add(a: Seq<PieceView>, b: Seq<PieceView>)
    ensures
        open_alerts(a + b) == open_alerts(a) + open_alerts(b),
    decreases b.len(),
{
    if b.len() == 0 {
        assert(a + b =~= a);
    } else {
        lemma_alerts_add(a, b.drop_last());
        assert((a + b).drop_last() =~= a + b.drop_last());
    }
}

proof fn lemma_transcript_add(
    a: Seq<PieceView>,
    b: Seq<PieceView>,
    time: spec_fn(u64) -> Seq<char>,
)
    ensures
        transcript(a + b, time) == transcript(a, time) + transcript(b, time),
    decreases b.len(),
{
    if b.len() == 0 {
        assert(a + b =~= a);
    } else {
        lemma_transcript_add(a, b.drop_last(), time);
        assert((a + b).drop_last() =~= a + b.drop_last());
    }
    assert(transcript(a + b, time) =~= transcript(a, time) + transcript(b, time));
}

/// Only a step shows the end of a turn, and only where it was not shown since the last word.
proof fn lemma_end_of_turn_reply(s: StreamState, e: StreamEventView)
    requires
        s.reply(e).contains(StreamActionView::Emit(PieceView::EndOfTurn)),
    ensures
        !s.turn_shown,
        s.after(e).turn_shown,
{
}

/// Without a word, a turn that was shown to end at `i` counts as shown until `j`.
proof fn lemma_turn_stays_shown(s: StreamState, events: Seq<StreamEventView>, i: int, j: int)
    requires
        0 <= i < j <= events.len(),
        run(s, events.take(i)).after(events[i]).turn_shown,
        forall|k: int| i < k < j ==> !(#[trigger] events[k] is Word),
    ensures
        run(s, events.take(j)).turn_shown,
    decreases j - i,
{
    assert(events.take(j).drop_last() =~= events.take(j - 1));
    if i < j - 1 {
        lemma_turn_stays_shown(s, events, i, j - 1);
        assert(!(events[j - 1] is Word));
    }
}

} // verus!
