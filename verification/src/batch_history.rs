//! What the transcription of a recording answers, told from the messages alone: from what the model
//! said, and not from what the transcriber keeps.

use vstd::prelude::*;

use crate::batch::{
    msg_views, output_view, output_views, outputs, run, AsrMsg, AsrMsgView, BatchState,
    BatchTranscriber, OpenWord, Output, OutputView,
};
use crate::scores::above_half;

verus! {

/// The text of a word: what was decoded, as it is, and nothing where decoding failed.
pub open spec fn said(decoded: Option<Seq<char>>) -> Seq<char> {
    match decoded {
        Some(text) => text,
        None => Seq::empty(),
    }
}

/// Whether a step since the last boundary of a word had a first entry above one half in its third
/// row.
pub open spec fn turn_told(msgs: Seq<AsrMsgView>) -> bool
    decreases msgs.len(),
{
    if msgs.len() == 0 {
        false
    } else {
        match msgs.last() {
            AsrMsgView::Step { scores } => turn_told(msgs.drop_last()) || above_half(scores[2][0]),
            AsrMsgView::Word { decoded, start_time } => false,
            AsrMsgView::EndWord { stop_time } => false,
        }
    }
}

/// The word that no boundary followed yet, with the time of its beginning.
pub open spec fn unended(msgs: Seq<AsrMsgView>) -> Option<(Seq<char>, u64)>
    decreases msgs.len(),
{
    if msgs.len() == 0 {
        None
    } else {
        match msgs.last() {
            AsrMsgView::Step { scores } => unended(msgs.drop_last()),
            AsrMsgView::Word { decoded, start_time } => Some((said(decoded), start_time)),
            AsrMsgView::EndWord { stop_time } => None,
        }
    }
}

/// The line of a word that no boundary followed yet, if there is one.
pub open spec fn unended_line(msgs: Seq<AsrMsgView>, stop_time: Option<u64>) -> Option<OutputView> {
    match unended(msgs) {
        Some((word, start_time)) => Some(OutputView::Line { word, start_time, stop_time }),
        None => None,
    }
}

/// What a message adds after some others. A step adds the end of a turn, with its score, where that is
/// asked for, the first entry of its third row is above one half, and no step since the last boundary
/// had such an entry. A word is added as it was decoded: at once and by itself, or, where times are
/// shown, on a line once its end is known, from the next word or from its own end.
pub open spec fn adds(
    vad: bool,
    timestamps: bool,
    before: Seq<AsrMsgView>,
    msg: AsrMsgView,
) -> Option<OutputView> {
    match msg {
        AsrMsgView::Step { scores } => if vad && above_half(scores[2][0]) && !turn_told(before) {
            Some(OutputView::EndOfTurn { score: scores[2][0] })
        } else {
            None
        },
        AsrMsgView::Word { decoded, start_time } => if timestamps {
            unended_line(before, Some(start_time))
        } else {
            Some(OutputView::Word(said(decoded)))
        },
        AsrMsgView::EndWord { stop_time } => if timestamps {
            unended_line(before, Some(stop_time))
        } else {
            None
        },
    }
}

/// What a row of messages adds, one message after the other.
pub open spec fn all_added(vad: bool, timestamps: bool, msgs: Seq<AsrMsgView>) -> Seq<OutputView>
    decreases msgs.len(),
{
    if msgs.len() == 0 {
        Seq::empty()
    } else {
        let before = msgs.drop_last();
        match adds(vad, timestamps, before, msgs.last()) {
            Some(output) => all_added(vad, timestamps, before).push(output),
            None => all_added(vad, timestamps, before),
        }
    }
}

/// The transcription of a recording after some messages.
pub open spec fn transcription_after(
    vad: bool,
    timestamps: bool,
    msgs: Seq<AsrMsgView>,
) -> BatchState {
    run(BatchState::started(vad, timestamps), msgs)
}

/// What a transcription keeps is told from the messages: whether the end of a turn was told since the
/// last boundary, and the word that still waits for its end.
pub proof fn law_transcription_keeps_what_it_was_told(
    vad: bool,
    timestamps: bool,
    msgs: Seq<AsrMsgView>,
)
    ensures
        ({
            let s = transcription_after(vad, timestamps, msgs);
            &&& s.vad == vad && s.timestamps == timestamps
            &&& s.printed_eot == (vad && turn_told(msgs))
            &&& timestamps ==> s.last_word == match unended(msgs) {
                Some((word, start_time)) => Some(OpenWord { word, start_time }),
                None => None,
            }
            &&& !timestamps ==> s.last_word is None
        }),
    decreases msgs.len(),
{
    if msgs.len() > 0 {
        law_transcription_keeps_what_it_was_told(vad, timestamps, msgs.drop_last());
    }
}

/// Each message adds what the messages before it and it itself call for, and the messages of a chunk
/// add what each of them does, in order.
pub proof fn law_messages_add_what_they_say(
    vad: bool,
    timestamps: bool,
    before: Seq<AsrMsgView>,
    more: Seq<AsrMsgView>,
    msg: AsrMsgView,
)
    ensures
        transcription_after(vad, timestamps, before).reply(msg) == adds(
            vad,
            timestamps,
            before,
            msg,
        ),
        all_added(vad, timestamps, before) + outputs(
            transcription_after(vad, timestamps, before),
            more,
        ) == all_added(vad, timestamps, before + more),
        run(transcription_after(vad, timestamps, before), more) == transcription_after(
            vad,
            timestamps,
            before + more,
        ),
    decreases more.len(),
{
    let s = transcription_after(vad, timestamps, before);
    law_transcription_keeps_what_it_was_told(vad, timestamps, before);
    if more.len() == 0 {
        assert(before + more =~= before);
    } else {
        let init = more.drop_last();
        law_messages_add_what_they_say(vad, timestamps, before, init, msg);
        law_transcription_keeps_what_it_was_told(vad, timestamps, before + init);
        assert((before + more).drop_last() =~= before + init);
        assert((before + more).last() == more.last());
    }
    assert(all_added(vad, timestamps, before) + outputs(s, more) =~= all_added(
        vad,
        timestamps,
        before + more,
    ));
}

/// Steps that agree on the first entry of the third row add the same, whatever else they hold.
pub proof fn law_only_first_of_third_row_counts(
    vad: bool,
    timestamps: bool,
    before: Seq<AsrMsgView>,
    scores: Seq<Seq<u32>>,
    others: Seq<Seq<u32>>,
)
    requires
        scores[2][0] == others[2][0],
    ensures
        transcription_after(vad, timestamps, before).reply(AsrMsgView::Step { scores })
            == transcription_after(vad, timestamps, before).reply(
            AsrMsgView::Step { scores: others },
        ),
        transcription_after(vad, timestamps, before).after(AsrMsgView::Step { scores })
            == transcription_after(vad, timestamps, before).after(
            AsrMsgView::Step { scores: others },
        ),
{
}

/// A transcriber answers each message with what the messages so far call for. It begins with none.
pub proof fn law_transcriber_answers_what_it_is_told(
    vad: bool,
    timestamps: bool,
    fresh: BatchTranscriber,
    told: Seq<AsrMsgView>,
    t: &mut BatchTranscriber,
    msg: AsrMsg,
    output: Option<Output>,
)
    requires
        call_ensures(BatchTranscriber::new, (vad, timestamps), fresh),
        old(t)@ == transcription_after(vad, timestamps, told),
        call_ensures(BatchTranscriber::step, (t, msg), output),
    ensures
        fresh@ == transcription_after(vad, timestamps, Seq::empty()),
        output_view(output) == adds(vad, timestamps, told, msg@),
        final(t)@ == transcription_after(vad, timestamps, told.push(msg@)),
{
    law_messages_add_what_they_say(vad, timestamps, told, Seq::empty(), msg@);
    assert(told.push(msg@).drop_last() =~= told);
}

/// A transcriber handles the messages of a chunk up to the first step without the first entry of a
/// third row, where the ends of turns are asked for, and answers those before it in order.
pub proof fn law_transcriber_answers_whole_chunks(
    vad: bool,
    timestamps: bool,
    told: Seq<AsrMsgView>,
    t: &mut BatchTranscriber,
    msgs: Vec<AsrMsg>,
    shown: Vec<Output>,
    handled: usize,
)
    requires
        old(t)@ == transcription_after(vad, timestamps, told),
        call_ensures(BatchTranscriber::step_all, (t, msgs), (shown, handled)),
    ensures
        handled <= msgs@.len(),
        forall|i: int|
            0 <= i < handled && vad ==> (#[trigger] msgs@[i] matches AsrMsg::Step { scores }
                ==> scores@.len() >= 3 && scores@[2]@.len() >= 1),
        handled < msgs@.len() ==> vad && (msgs@[handled as int] matches AsrMsg::Step { scores } && (
        scores@.len() < 3 || scores@[2]@.len() == 0)),
        all_added(vad, timestamps, told) + output_views(shown@) == all_added(
            vad,
            timestamps,
            told + msg_views(msgs@).take(handled as int),
        ),
        final(t)@ == transcription_after(
            vad,
            timestamps,
            told + msg_views(msgs@).take(handled as int),
        ),
{
    let taken = msg_views(msgs@).take(handled as int);
    law_transcription_keeps_what_it_was_told(vad, timestamps, told);
    law_messages_add_what_they_say(vad, timestamps, told, taken, arbitrary());
    assert forall|i: int| 0 <= i < handled && vad implies (#[trigger] msgs@[i] matches AsrMsg::Step {
        scores,
    } ==> scores@.len() >= 3 && scores@[2]@.len() >= 1) by {
        assert(old(t)@.accepts(msgs@[i]@));
    }
}

/// At the end of a recording the word that no boundary followed is written with its end left open,
/// once.
pub proof fn law_last_word_is_written_once(
    vad: bool,
    timestamps: bool,
    told: Seq<AsrMsgView>,
    t: &mut BatchTranscriber,
    output: Option<Output>,
)
    requires
        old(t)@ == transcription_after(vad, timestamps, told),
        call_ensures(BatchTranscriber::finish, (t,), output),
    ensures
        output_view(output) == if timestamps {
            unended_line(told, None)
        } else {
            None
        },
        final(t)@ == (BatchState { last_word: None, ..old(t)@ }),
{
    law_transcription_keeps_what_it_was_told(vad, timestamps, told);
}

/// A transcriber takes every message but a step without the first entry of a third row where the ends
/// of turns are asked for.
pub proof fn law_transcriber_takes_scored_steps(t: BatchTranscriber, msg: AsrMsg, takes: bool)
    requires
        call_ensures(BatchTranscriber::accepts, (&t, &msg), takes),
    ensures
        takes <==> (msg matches AsrMsg::Step { scores } ==> t@.vad ==> scores@.len() >= 3
            && scores@[2]@.len() >= 1),
{
}

/// A message stands for what it holds: nothing of it is changed or left out.
pub proof fn law_messages_are_taken_whole(msg: AsrMsg)
    ensures
        match (msg, msg@) {
            (AsrMsg::Step { scores }, AsrMsgView::Step { scores: rows }) => {
                &&& rows.len() == scores@.len()
                &&& forall|i: int| 0 <= i < rows.len() ==> #[trigger] rows[i] == scores@[i]@
            },
            (AsrMsg::Word { decoded, start_time }, AsrMsgView::Word {
                decoded: text,
                start_time: s,
            }) => s == start_time && match decoded {
                Some(word) => text == Some(word@),
                None => text is None,
            },
            (AsrMsg::EndWord { stop_time }, AsrMsgView::EndWord { stop_time: s }) => s
                == stop_time,
            _ => false,
        },
{
}

/// An output stands for what it holds, and rows stand for what stands in them, in order: nothing is
/// changed or left out.
pub proof fn law_outputs_are_given_whole(
    output: Option<Output>,
    outputs: Seq<Output>,
    msgs: Seq<AsrMsg>,
)
    ensures
        match (output, output_view(output)) {
            (Some(Output::EndOfTurn { score }), Some(OutputView::EndOfTurn { score: s })) => s
                == score,
            (Some(Output::Word(word)), Some(OutputView::Word(text))) => text == word@,
            (Some(Output::Line { word, start_time, stop_time }), Some(OutputView::Line {
                word: text,
                start_time: s,
                stop_time: t,
            })) => text == word@ && s == start_time && t == stop_time,
            (None, None) => true,
            _ => false,
        },
        output_views(outputs).len() == outputs.len(),
        forall|i: int|
            0 <= i < outputs.len() ==> Some(#[trigger] output_views(outputs)[i]) == output_view(
                Some(outputs[i]),
            ),
        msg_views(msgs).len() == msgs.len(),
        forall|i: int| 0 <= i < msgs.len() ==> #[trigger] msg_views(msgs)[i] == msgs[i]@,
{
}

} // verus!
