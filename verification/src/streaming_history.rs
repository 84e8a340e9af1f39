//! What a live session answers, told from the events alone: from what was heard and when, and not
//! from what the session keeps.

use vstd::prelude::*;

use crate::batch::OpenWord;
use crate::batch_history::said;
use crate::scores::above_half;
use crate::streaming::{
    action_views, Piece, PieceView, StreamAction, StreamActionView, StreamEvent, StreamEventView,
    StreamNotice, StreamNoticeView, StreamState, StreamingSession, RECV_TIMEOUT,
};
use crate::streaming_laws::{chunks_in, pieces, run, samples_in};

verus! {

/// When the last word was heard, or the session began where none was.
pub open spec fn heard_at(start: nat, events: Seq<StreamEventView>) -> nat
    decreases events.len(),
{
    if events.len() == 0 {
        start
    } else {
        match events.last() {
            StreamEventView::Word { decoded, start_time, now } => now,
            _ => heard_at(start, events.drop_last()),
        }
    }
}

/// How long no word was heard at `now`.
pub open spec fn silence(start: nat, events: Seq<StreamEventView>, now: nat) -> nat {
    if now >= heard_at(start, events) {
        (now - heard_at(start, events)) as nat
    } else {
        0
    }
}

/// Whether an inference has ended more than ten seconds after the last word and before the next.
pub open spec fn too_silent(start: nat, events: Seq<StreamEventView>) -> bool
    decreases events.len(),
{
    if events.len() == 0 {
        false
    } else {
        match events.last() {
            StreamEventView::Word { decoded, start_time, now } => false,
            StreamEventView::Inferred { took, now } => too_silent(start, events.drop_last()) || now
                > heard_at(start, events.drop_last()) + 10_000_000_000,
            _ => too_silent(start, events.drop_last()),
        }
    }
}

/// The silence that the last inference found.
pub open spec fn last_silence(start: nat, events: Seq<StreamEventView>) -> nat
    decreases events.len(),
{
    if events.len() == 0 {
        0
    } else {
        match events.last() {
            StreamEventView::Inferred { took, now } => silence(start, events.drop_last(), now),
            _ => last_silence(start, events.drop_last()),
        }
    }
}

/// The chunks that arrived since the last word.
pub open spec fn chunks_since_word(events: Seq<StreamEventView>) -> nat
    decreases events.len(),
{
    if events.len() == 0 {
        0
    } else {
        match events.last() {
            StreamEventView::Word { decoded, start_time, now } => 0,
            StreamEventView::Received { samples, waited } => chunks_since_word(events.drop_last())
                + 1,
            _ => chunks_since_word(events.drop_last()),
        }
    }
}

/// Whether a step since the last word had a first entry above one half in its third row.
pub open spec fn turn_told(events: Seq<StreamEventView>) -> bool
    decreases events.len(),
{
    if events.len() == 0 {
        false
    } else {
        match events.last() {
            StreamEventView::Word { decoded, start_time, now } => false,
            StreamEventView::Step { scores } => turn_told(events.drop_last()) || above_half(
                scores[2][0],
            ),
            _ => turn_told(events.drop_last()),
        }
    }
}

/// The word that no boundary followed yet, with the time of its beginning.
pub open spec fn unended(events: Seq<StreamEventView>) -> Option<(Seq<char>, u64)>
    decreases events.len(),
{
    if events.len() == 0 {
        None
    } else {
        match events.last() {
            StreamEventView::Word { decoded, start_time, now } => Some((said(decoded), start_time)),
            StreamEventView::EndWord { stop_time } => None,
            StreamEventView::Closed => None,
            _ => unended(events.drop_last()),
        }
    }
}

/// When the last status was due in debug mode: five seconds or more after the one before, when a
/// chunk was done.
pub open spec fn status_at(start: nat, events: Seq<StreamEventView>) -> nat
    decreases events.len(),
{
    if events.len() == 0 {
        start
    } else {
        let before = status_at(start, events.drop_last());
        match events.last() {
            StreamEventView::ChunkDone { now } => if now >= before + 5_000_000_000 {
                now
            } else {
                before
            },
            _ => before,
        }
    }
}

/// The line of a word that no boundary followed yet, if there is one.
pub open spec fn unended_line(
    events: Seq<StreamEventView>,
    stop_time: Option<u64>,
) -> Seq<StreamActionView> {
    match unended(events) {
        Some((word, start_time)) => seq![
            StreamActionView::Emit(PieceView::Line { word, start_time, stop_time }),
        ],
        None => Seq::empty(),
    }
}

/// A session that began at `start` and was told of some events.
pub open spec fn session_after(
    vad: bool,
    timestamps: bool,
    debug: bool,
    start: nat,
    events: Seq<StreamEventView>,
) -> StreamState {
    run(StreamState::started(vad, timestamps, debug, start), events)
}

/// What a session keeps is told from the events: when the last word was heard, whether the silence
/// since was too long, what arrived since, and what else its answers rest on.
pub proof fn law_session_keeps_what_it_was_told(
    vad: bool,
    timestamps: bool,
    debug: bool,
    start: nat,
    events: Seq<StreamEventView>,
)
    ensures
        ({
            let s = session_after(vad, timestamps, debug, start, events);
            &&& s.vad == vad && s.timestamps == timestamps && s.debug == debug
            &&& s.last_transcript == heard_at(start, events)
            &&& s.alerted == too_silent(start, events)
            &&& s.gap == last_silence(start, events)
            &&& s.chunks == chunks_in(events)
            &&& s.samples == samples_in(events)
            &&& s.chunks_since == chunks_since_word(events)
            &&& s.turn_shown == (vad && turn_told(events))
            &&& debug ==> s.last_status == status_at(start, events)
            &&& timestamps ==> s.last_word == match unended(events) {
                Some((word, start_time)) => Some(OpenWord { word, start_time }),
                None => None,
            }
            &&& !timestamps ==> s.last_word is None
        }),
    decreases events.len(),
{
    if events.len() > 0 {
        law_session_keeps_what_it_was_told(vad, timestamps, debug, start, events.drop_last());
    }
}

/// A chunk that arrives is counted off and is to be processed, under the number of chunks so far; in
/// debug mode a wait of more than a tenth of a second is reported in between.
pub proof fn law_arrived_chunk_is_processed(
    vad: bool,
    timestamps: bool,
    debug: bool,
    start: nat,
    events: Seq<StreamEventView>,
    samples: nat,
    waited: nat,
)
    ensures
        session_after(vad, timestamps, debug, start, events).reply(
            StreamEventView::Received { samples, waited },
        ) == seq![StreamActionView::CountOff] + (if debug && waited > 100_000_000 {
            seq![StreamActionView::Notice(StreamNoticeView::LongWait(waited))]
        } else {
            Seq::empty()
        }) + seq![StreamActionView::Infer(chunks_in(events) as int + 1)],
{
    law_session_keeps_what_it_was_told(vad, timestamps, debug, start, events);
}

/// Where no audio comes for two seconds, the user is told, the transcript is marked, and the wait goes
/// on.
pub proof fn law_stall_is_marked(
    vad: bool,
    timestamps: bool,
    debug: bool,
    start: nat,
    events: Seq<StreamEventView>,
)
    ensures
        session_after(vad, timestamps, debug, start, events).reply(StreamEventView::Stalled)
            == seq![
            StreamActionView::Notice(StreamNoticeView::AudioStalled),
            StreamActionView::Emit(PieceView::AudioTimeout),
            StreamActionView::Wait,
        ],
        RECV_TIMEOUT == 2 * 1_000_000_000,
{
}

/// An inference that ends more than ten seconds after the last word was heard, or after the session
/// began where none was, raises an alert with the whole seconds since then, unless one before it has
/// done so since that word. Nothing else raises one. One that takes more than a fifth of a second is
/// reported as slow.
pub proof fn law_silence_since_last_word_is_alerted(
    vad: bool,
    timestamps: bool,
    debug: bool,
    start: nat,
    events: Seq<StreamEventView>,
    took: nat,
    now: nat,
)
    ensures
        ({
            let gap = silence(start, events, now);
            session_after(vad, timestamps, debug, start, events).reply(
                StreamEventView::Inferred { took, now },
            ) == (if took > 200_000_000 {
                seq![StreamActionView::Notice(StreamNoticeView::SlowInference(took))]
            } else {
                Seq::empty()
            }) + (if now > heard_at(start, events) + 10_000_000_000 && !too_silent(start, events) {
                seq![
                    StreamActionView::Notice(
                        StreamNoticeView::TranscriptLoss {
                            silent_chunks: chunks_since_word(events),
                            gap,
                        },
                    ),
                    StreamActionView::Emit(PieceView::NoTranscript(gap / 1_000_000_000)),
                ]
            } else {
                Seq::empty()
            })
        }),
{
    law_session_keeps_what_it_was_told(vad, timestamps, debug, start, events);
}

/// The same of a word at a place among the events: an inference that is the first to end more than
/// ten seconds after it, before the next word, shows an alert, and the seconds in it are those since
/// the word, without the part of a second. No other event shows one until the next word.
pub proof fn law_first_long_silence_after_word_is_alerted(
    vad: bool,
    timestamps: bool,
    debug: bool,
    start: nat,
    events: Seq<StreamEventView>,
    i: int,
    e: StreamEventView,
)
    requires
        0 <= i < events.len(),
        events[i] is Word,
        forall|k: int| i < k < events.len() ==> !(#[trigger] events[k] is Word),
    ensures
        ({
            let word = events[i]->Word_now;
            let silent = forall|k: int|
                i < k < events.len() ==> (#[trigger] events[k] matches StreamEventView::Inferred {
                    took,
                    now,
                } ==> now <= word + 10_000_000_000);
            let shown = pieces(session_after(vad, timestamps, debug, start, events).reply(e));
            if e is Inferred && e->Inferred_now > word + 10_000_000_000 && silent {
                &&& shown.len() == 1
                &&& shown[0] is NoTranscript
                &&& word + shown[0]->NoTranscript_0 * 1_000_000_000 <= e->Inferred_now
                &&& e->Inferred_now < word + (shown[0]->NoTranscript_0 + 1) * 1_000_000_000
            } else {
                forall|k: int| 0 <= k < shown.len() ==> !(#[trigger] shown[k] is NoTranscript)
            }
        }),
{
    let s = session_after(vad, timestamps, debug, start, events);
    law_session_keeps_what_it_was_told(vad, timestamps, debug, start, events);
    lemma_word_at(start, events, i, events.len() as int);
    assert(events.take(events.len() as int) =~= events);
    reveal_with_fuel(pieces, 5);
    if e is Inferred {
        law_silence_since_last_word_is_alerted(
            vad,
            timestamps,
            debug,
            start,
            events,
            e->took,
            e->Inferred_now,
        );
    } else {
        lemma_only_inferences_alert(s, e);
    }
}

/// A step shows that a turn has ended exactly where that is asked for, the first entry of its third
/// row is above one half, and no step since the last word had such an entry. So steps that agree on
/// that entry are answered alike.
pub proof fn law_turn_is_told_from_first_of_third_row(
    vad: bool,
    timestamps: bool,
    debug: bool,
    start: nat,
    events: Seq<StreamEventView>,
    scores: Seq<Seq<u32>>,
    others: Seq<Seq<u32>>,
)
    ensures
        ({
            let s = session_after(vad, timestamps, debug, start, events);
            &&& s.reply(StreamEventView::Step { scores }) == if vad && above_half(scores[2][0])
                && !turn_told(events) {
                seq![StreamActionView::Emit(PieceView::EndOfTurn)]
            } else {
                Seq::empty()
            }
            &&& scores[2][0] == others[2][0] ==> s.reply(StreamEventView::Step { scores })
                == s.reply(StreamEventView::Step { scores: others })
        }),
{
    law_session_keeps_what_it_was_told(vad, timestamps, debug, start, events);
}

/// A word is shown as it was decoded: at once and by itself, or, where times are shown, on a line
/// once its end is known. The first word after an alert is preceded by a remark that words arrive
/// again, and the user is told of the silence that the last inference found.
pub proof fn law_word_is_shown_as_decoded(
    vad: bool,
    timestamps: bool,
    debug: bool,
    start: nat,
    events: Seq<StreamEventView>,
    decoded: Option<Seq<char>>,
    start_time: u64,
    now: nat,
)
    ensures
        session_after(vad, timestamps, debug, start, events).reply(
            StreamEventView::Word { decoded, start_time, now },
        ) == (if too_silent(start, events) {
            seq![
                StreamActionView::Notice(
                    StreamNoticeView::TranscriptResumed(last_silence(start, events)),
                ),
                StreamActionView::Emit(PieceView::Resumed),
            ]
        } else {
            Seq::empty()
        }) + (if timestamps {
            unended_line(events, Some(start_time))
        } else {
            seq![StreamActionView::Emit(PieceView::Word(said(decoded)))]
        }),
{
    law_session_keeps_what_it_was_told(vad, timestamps, debug, start, events);
}

/// The end of a word closes its line, where times are shown; the end of the audio leaves that of the
/// last word open, ends the transcript, syncs the file and stops the session.
pub proof fn law_ends_close_lines(
    vad: bool,
    timestamps: bool,
    debug: bool,
    start: nat,
    events: Seq<StreamEventView>,
    stop_time: u64,
)
    ensures
        ({
            let s = session_after(vad, timestamps, debug, start, events);
            &&& s.reply(StreamEventView::EndWord { stop_time }) == if timestamps {
                unended_line(events, Some(stop_time))
            } else {
                Seq::empty()
            }
            &&& s.reply(StreamEventView::Closed) == (if timestamps {
                unended_line(events, None)
            } else {
                Seq::empty()
            }) + seq![
                StreamActionView::Emit(PieceView::Newline),
                StreamActionView::SyncFile,
                StreamActionView::Stop,
            ]
        }),
{
    law_session_keeps_what_it_was_told(vad, timestamps, debug, start, events);
}

/// After a chunk the next one is waited for. In debug mode, five seconds or more after the last
/// status, the user is told how many chunks and samples came so far, and how many chunks since the
/// last word.
pub proof fn law_status_comes_every_five_seconds(
    vad: bool,
    timestamps: bool,
    debug: bool,
    start: nat,
    events: Seq<StreamEventView>,
    now: nat,
)
    ensures
        session_after(vad, timestamps, debug, start, events).reply(
            StreamEventView::ChunkDone { now },
        ) == (if debug && now >= status_at(start, events) + 5_000_000_000 {
            seq![
                StreamActionView::Notice(
                    StreamNoticeView::Status {
                        chunks: chunks_in(events),
                        samples: samples_in(events),
                        since_transcript: chunks_since_word(events),
                    },
                ),
            ]
        } else {
            Seq::empty()
        }) + seq![StreamActionView::Wait],
{
    law_session_keeps_what_it_was_told(vad, timestamps, debug, start, events);
}

/// A session takes every event but a chunk that its counters cannot hold, and a step without the
/// first entry of a third row where the ends of turns are asked for.
pub proof fn law_session_takes_what_it_can_count(
    vad: bool,
    timestamps: bool,
    debug: bool,
    start: nat,
    events: Seq<StreamEventView>,
    e: StreamEventView,
)
    ensures
        session_after(vad, timestamps, debug, start, events).accepts(e) <==> match e {
            StreamEventView::Received { samples, waited } => chunks_in(events) < 0x7fff_ffff
                && samples_in(events) + samples <= usize::MAX && chunks_since_word(events)
                < u64::MAX,
            StreamEventView::Step { scores } => vad ==> scores.len() >= 3 && scores[2].len() >= 1,
            _ => true,
        },
{
    law_session_keeps_what_it_was_told(vad, timestamps, debug, start, events);
}

/// A session answers an event, as it is told of it, with the actions that the laws above speak of,
/// and begins as they say.
pub proof fn law_session_answers_what_it_is_told(
    vad: bool,
    timestamps: bool,
    debug: bool,
    start: u128,
    fresh: StreamingSession,
    told: Seq<StreamEventView>,
    session: &mut StreamingSession,
    event: StreamEvent,
    actions: Vec<StreamAction>,
)
    requires
        call_ensures(StreamingSession::new, (vad, timestamps, debug, start), fresh),
        old(session)@ == session_after(vad, timestamps, debug, start as nat, told),
        call_ensures(StreamingSession::step, (session, event), actions),
    ensures
        fresh@ == session_after(vad, timestamps, debug, start as nat, Seq::empty()),
        final(session)@ == session_after(vad, timestamps, debug, start as nat, told.push(event@)),
        actions@.len() == old(session)@.reply(event@).len(),
        forall|i: int|
            0 <= i < actions@.len() ==> (#[trigger] actions@[i])@ == old(session)@.reply(event@)[i],
{
    assert(told.push(event@).drop_last() =~= told);
    assert forall|i: int| 0 <= i < actions@.len() implies (#[trigger] actions@[i])@ == old(
        session,
    )@.reply(event@)[i] by {
        assert(action_views(actions@)[i] == actions@[i]@);
    }
}

/// The number of chunks is that of the chunks that arrived, and a session says truly whether it takes
/// an event.
pub proof fn law_session_tells_of_itself(
    vad: bool,
    timestamps: bool,
    debug: bool,
    start: nat,
    told: Seq<StreamEventView>,
    session: StreamingSession,
    event: StreamEvent,
    takes: bool,
    count: i32,
)
    requires
        session@ == session_after(vad, timestamps, debug, start, told),
        call_ensures(StreamingSession::accepts, (&session, &event), takes),
        call_ensures(StreamingSession::chunk_count, (&session,), count),
    ensures
        takes <==> session@.accepts(event@),
        count == chunks_in(told),
{
    law_session_keeps_what_it_was_told(vad, timestamps, debug, start, told);
}

/// An event stands for what it holds: nothing of it is changed or left out.
pub proof fn law_events_are_taken_whole(event: StreamEvent)
    ensures
        match (event, event@) {
            (StreamEvent::Received { samples, waited }, StreamEventView::Received {
                samples: n,
                waited: t,
            }) => n == samples && t == waited,
            (StreamEvent::Stalled, StreamEventView::Stalled) => true,
            (StreamEvent::Inferred { took, now }, StreamEventView::Inferred { took: t, now: n }) => t
                == took && n == now,
            (StreamEvent::Step { scores }, StreamEventView::Step { scores: rows }) => {
                &&& rows.len() == scores@.len()
                &&& forall|i: int| 0 <= i < rows.len() ==> #[trigger] rows[i] == scores@[i]@
            },
            (StreamEvent::Word { decoded, start_time, now }, StreamEventView::Word {
                decoded: text,
                start_time: s,
                now: n,
            }) => {
                &&& s == start_time
                &&& n == now
                &&& match decoded {
                    Some(word) => text == Some(word@),
                    None => text is None,
                }
            },
            (StreamEvent::EndWord { stop_time }, StreamEventView::EndWord { stop_time: s }) => s
                == stop_time,
            (StreamEvent::ChunkDone { now }, StreamEventView::ChunkDone { now: n }) => n == now,
            (StreamEvent::Closed, StreamEventView::Closed) => true,
            _ => false,
        },
{
}

/// An action stands for what it holds: nothing of it is changed or left out.
pub proof fn law_actions_are_given_whole(action: StreamAction)
    ensures
        match (action, action@) {
            (StreamAction::Emit(piece), StreamActionView::Emit(p)) => match (piece, p) {
                (Piece::AudioTimeout, PieceView::AudioTimeout) => true,
                (Piece::NoTranscript(secs), PieceView::NoTranscript(n)) => n == secs,
                (Piece::EndOfTurn, PieceView::EndOfTurn) => true,
                (Piece::Resumed, PieceView::Resumed) => true,
                (Piece::Word(word), PieceView::Word(text)) => text == word@,
                (Piece::Line { word, start_time, stop_time }, PieceView::Line {
                    word: text,
                    start_time: s,
                    stop_time: t,
                }) => text == word@ && s == start_time && t == stop_time,
                (Piece::Newline, PieceView::Newline) => true,
                _ => false,
            },
            (StreamAction::Notice(notice), StreamActionView::Notice(n)) => match (notice, n) {
                (StreamNotice::LongWait(t), StreamNoticeView::LongWait(span)) => span == t,
                (StreamNotice::AudioStalled, StreamNoticeView::AudioStalled) => true,
                (StreamNotice::SlowInference(t), StreamNoticeView::SlowInference(span)) => span
                    == t,
                (StreamNotice::TranscriptLoss { silent_chunks, gap }, StreamNoticeView::TranscriptLoss {
                    silent_chunks: c,
                    gap: g,
                }) => c == silent_chunks && g == gap,
                (StreamNotice::TranscriptResumed(t), StreamNoticeView::TranscriptResumed(
                    span,
                )) => span == t,
                (StreamNotice::Status { chunks, samples, since_transcript }, StreamNoticeView::Status {
                    chunks: c,
                    samples: n,
                    since_transcript: since,
                }) => (chunks >= 0 ==> c == chunks) && n == samples && since == since_transcript,
                _ => false,
            },
            (StreamAction::SyncFile, StreamActionView::SyncFile) => true,
            (StreamAction::CountOff, StreamActionView::CountOff) => true,
            (StreamAction::Wait, StreamActionView::Wait) => true,
            (StreamAction::Infer(chunk), StreamActionView::Infer(n)) => n == chunk,
            (StreamAction::Stop, StreamActionView::Stop) => true,
            _ => false,
        },
{
}

proof fn lemma_word_at(start: nat, events: Seq<StreamEventView>, i: int, j: int)
    requires
        0 <= i < j <= events.len(),
        events[i] is Word,
        forall|k: int| i < k < j ==> !(#[trigger] events[k] is Word),
    ensures
        heard_at(start, events.take(j)) == events[i]->Word_now,
        too_silent(start, events.take(j)) <==> exists|k: int|
            i < k < j && (#[trigger] events[k] matches StreamEventView::Inferred { took, now }
                && now > events[i]->Word_now + 10_000_000_000),
    decreases j - i,
{
    assert(events.take(j).drop_last() =~= events.take(j - 1));
    assert(events.take(j).last() == events[j - 1]);
    if i < j - 1 {
        lemma_word_at(start, events, i, j - 1);
        assert(!(events[j - 1] is Word));
    }
}

proof fn lemma_only_inferences_alert(s: StreamState, e: StreamEventView)
    requires
        !(e is Inferred),
    ensures
        forall|k: int|
            0 <= k < pieces(s.reply(e)).len() ==> !(#[trigger] pieces(
                s.reply(e),
            )[k] is NoTranscript),
{
    reveal_with_fuel(pieces, 5);
}

} // verus!
