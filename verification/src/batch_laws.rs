//! What holds of the transcript of a recording as a whole, whatever messages the model sends.

use vstd::prelude::*;

use crate::batch::{
    added, output_reads, outputs, run, AsrMsgView, BatchState, OpenWord, OutputView,
};
use crate::batch_history::said;
use crate::transcript_laws::lemma_line_literals;

verus! {

/// The whole transcript of a recording: what its messages add, and the line of the word that still
/// waits for its end after the last of them.
pub open spec fn whole_transcript(s: BatchState, msgs: Seq<AsrMsgView>) -> Seq<OutputView> {
    added(outputs(s, msgs), run(s, msgs).closed_line(None))
}

/// What the message at position `i` adds to the transcript.
pub open spec fn reply_at(s: BatchState, msgs: Seq<AsrMsgView>, i: int) -> Option<OutputView> {
    run(s, msgs.take(i)).reply(msgs[i])
}

/// A word, with the time of its beginning where words are shown with their times.
pub struct ShownWord {
    pub word: Seq<char>,
    pub start_time: Option<u64>,
}

/// The words of a transcript.
pub open spec fn shown(outputs: Seq<OutputView>) -> Seq<ShownWord>
    decreases outputs.len(),
{
    if outputs.len() == 0 {
        Seq::empty()
    } else {
        match outputs.last() {
            OutputView::EndOfTurn { score } => shown(outputs.drop_last()),
            OutputView::Word(word) => shown(outputs.drop_last()).push(
                ShownWord { word, start_time: None },
            ),
            OutputView::Line { word, start_time, stop_time } => shown(outputs.drop_last()).push(
                ShownWord { word, start_time: Some(start_time) },
            ),
        }
    }
}

/// The words among the messages, as a transcript has to show them.
pub open spec fn heard(timestamps: bool, msgs: Seq<AsrMsgView>) -> Seq<ShownWord>
    decreases msgs.len(),
{
    if msgs.len() == 0 {
        Seq::empty()
    } else {
        match msgs.last() {
            AsrMsgView::Word { decoded, start_time } => heard(timestamps, msgs.drop_last()).push(
                ShownWord {
                    word: said(decoded),
                    start_time: if timestamps {
                        Some(start_time)
                    } else {
                        None
                    },
                },
            ),
            _ => heard(timestamps, msgs.drop_last()),
        }
    }
}

/// The word that waits for its end, as a row of words.
pub open spec fn waiting(last_word: Option<OpenWord>) -> Seq<ShownWord> {
    match last_word {
        Some(open) => seq![ShownWord { word: open.word, start_time: Some(open.start_time) }],
        None => Seq::empty(),
    }
}

/// Whether the message tells when a word ends: it reports the end, or that the next word begins.
pub open spec fn is_boundary(msg: AsrMsgView) -> bool {
    msg is Word || msg is EndWord
}

/// The time that a boundary tells.
pub open spec fn boundary_time(msg: AsrMsgView) -> u64 {
    match msg {
        AsrMsgView::Word { decoded, start_time } => start_time,
        AsrMsgView::EndWord { stop_time } => stop_time,
        AsrMsgView::Step { scores } => 0,
    }
}

/// The whole transcript of a recording shows every word that was heard, once and in order, with the
/// time of its beginning where times are shown, and no other word.
pub proof fn law_every_word_is_shown(vad: bool, timestamps: bool, msgs: Seq<AsrMsgView>)
    ensures
        shown(whole_transcript(BatchState::started(vad, timestamps), msgs)) == heard(
            timestamps,
            msgs,
        ),
{
    let s = BatchState::started(vad, timestamps);
    lemma_words_so_far(vad, timestamps, msgs);
    let line = run(s, msgs).closed_line(None);
    lemma_shown_added(outputs(s, msgs), line);
    reveal_with_fuel(shown, 2);
    assert(Seq::<OutputView>::empty().push(line->0).drop_last() =~= Seq::<OutputView>::empty());
    assert(shown(whole_transcript(s, msgs)) =~= shown(outputs(s, msgs)) + waiting(
        run(s, msgs).last_word,
    ));
}

/// Where words are shown with their times, a word is written when the next boundary arrives: with
/// the time of that boundary as its end.
pub proof fn law_word_ends_at_next_boundary(vad: bool, msgs: Seq<AsrMsgView>, i: int, j: int)
    requires
        0 <= i < j < msgs.len(),
        msgs[i] is Word,
        is_boundary(msgs[j]),
        forall|k: int| i < k < j ==> !is_boundary(#[trigger] msgs[k]),
    ensures
        reply_at(BatchState::started(vad, true), msgs, j) == Some(
            OutputView::Line {
                word: said(msgs[i]->decoded),
                start_time: msgs[i]->start_time,
                stop_time: Some(boundary_time(msgs[j])),
            },
        ),
{
    lemma_waiting_word(vad, msgs, i, j);
}

/// Where words are shown with their times, a word that no boundary follows is written at the end of
/// the recording, with its end left open.
pub proof fn law_last_word_stays_open(vad: bool, msgs: Seq<AsrMsgView>, i: int)
    requires
        0 <= i < msgs.len(),
        msgs[i] is Word,
        forall|k: int| i < k < msgs.len() ==> !is_boundary(#[trigger] msgs[k]),
    ensures
        run(BatchState::started(vad, true), msgs).closed_line(None) == Some(
            OutputView::Line {
                word: said(msgs[i]->decoded),
                start_time: msgs[i]->start_time,
                stop_time: None,
            },
        ),
{
    lemma_waiting_word(vad, msgs, i, msgs.len() as int);
    assert(msgs.take(msgs.len() as int) =~= msgs);
}

/// The end of a word that no word precedes since the last end adds nothing: no line is written
/// twice.
pub proof fn law_end_without_word_is_silent(
    vad: bool,
    timestamps: bool,
    msgs: Seq<AsrMsgView>,
    i: int,
    j: int,
)
    requires
        -1 <= i < j < msgs.len(),
        i >= 0 ==> msgs[i] is EndWord,
        msgs[j] is EndWord,
        forall|k: int| i < k < j ==> !is_boundary(#[trigger] msgs[k]),
    ensures
        reply_at(BatchState::started(vad, timestamps), msgs, j) is None,
{
    lemma_modes_stay(BatchState::started(vad, timestamps), msgs.take(j));
    if timestamps {
        lemma_nothing_waits(vad, msgs, i, j);
    }
}

/// Between two remarks that a turn has ended there is always a boundary of a word.
pub proof fn law_one_end_of_turn_between_boundaries(
    s: BatchState,
    msgs: Seq<AsrMsgView>,
    i: int,
    j: int,
)
    requires
        0 <= i < j < msgs.len(),
        reply_at(s, msgs, i) is Some,
        reply_at(s, msgs, i)->0 is EndOfTurn,
        reply_at(s, msgs, j) is Some,
        reply_at(s, msgs, j)->0 is EndOfTurn,
    ensures
        exists|k: int| i < k < j && is_boundary(#[trigger] msgs[k]),
{
    if forall|k: int| i < k < j ==> !is_boundary(#[trigger] msgs[k]) {
        lemma_turn_stays_shown(s, msgs, i, j);
    }
}

/// Where words are shown with their times, each has a line of its own, and otherwise none has; and
/// where the end of a turn is not asked for, it is never shown.
pub proof fn law_options_fix_form(vad: bool, timestamps: bool, msgs: Seq<AsrMsgView>)
    ensures
        forall|i: int|
            0 <= i < whole_transcript(BatchState::started(vad, timestamps), msgs).len() ==> match (
            #[trigger] whole_transcript(BatchState::started(vad, timestamps), msgs)[i]) {
                OutputView::EndOfTurn { score } => vad,
                OutputView::Word(word) => !timestamps,
                OutputView::Line { word, start_time, stop_time } => timestamps,
            },
{
    lemma_modes_stay(BatchState::started(vad, timestamps), msgs);
    lemma_form_so_far(vad, timestamps, msgs);
}

/// How an output reads where times are written as `time` says and scores as `score` says.
pub open spec fn reads(
    output: OutputView,
    timestamps: bool,
    time: spec_fn(u64) -> Seq<char>,
    score: spec_fn(u32) -> Seq<char>,
) -> Seq<char> {
    match output {
        OutputView::EndOfTurn { score: bits } => output_reads(
            output,
            timestamps,
            Seq::empty(),
            None,
            score(bits),
        ),
        OutputView::Word(word) => output_reads(output, timestamps, Seq::empty(), None, Seq::empty()),
        OutputView::Line { word, start_time, stop_time } => output_reads(
            output,
            timestamps,
            time(start_time),
            written(stop_time, time),
            Seq::empty(),
        ),
    }
}

/// A time that may be missing, written as `time` says.
pub open spec fn written(at: Option<u64>, time: spec_fn(u64) -> Seq<char>) -> Option<Seq<char>> {
    match at {
        Some(at) => Some(time(at)),
        None => None,
    }
}

/// How outputs read, one after the other.
pub open spec fn transcript(
    outputs: Seq<OutputView>,
    timestamps: bool,
    time: spec_fn(u64) -> Seq<char>,
    score: spec_fn(u32) -> Seq<char>,
) -> Seq<char>
    decreases outputs.len(),
{
    if outputs.len() == 0 {
        Seq::empty()
    } else {
        transcript(outputs.drop_last(), timestamps, time, score) + reads(
            outputs.last(),
            timestamps,
            time,
            score,
        )
    }
}

/// Words, each behind a space.
pub open spec fn spaced(words: Seq<ShownWord>) -> Seq<char>
    decreases words.len(),
{
    if words.len() == 0 {
        Seq::empty()
    } else {
        spaced(words.drop_last()) + (" "@ + words.last().word)
    }
}

/// The time of the first boundary among the messages, if there is one.
pub open spec fn first_boundary(msgs: Seq<AsrMsgView>) -> Option<u64>
    decreases msgs.len(),
{
    if msgs.len() == 0 {
        None
    } else if is_boundary(msgs[0]) {
        Some(boundary_time(msgs[0]))
    } else {
        first_boundary(msgs.drop_first())
    }
}

/// A line with a word between the times of its beginning and its end; the end is blank where there is
/// none.
pub open spec fn line_with(start: Seq<char>, stop: Option<Seq<char>>, word: Seq<char>) -> Seq<char> {
    let until = match stop {
        Some(stop) => stop,
        None => seq![' ', ' ', ' ', ' ', ' '],
    };
    seq!['['] + start + seq!['-'] + until + seq![']', ' '] + word + seq!['\n']
}

/// The words among the messages, each on a line of its own with the time of its beginning and that
/// of the first boundary behind it.
pub open spec fn lines(msgs: Seq<AsrMsgView>, time: spec_fn(u64) -> Seq<char>) -> Seq<char>
    decreases msgs.len(),
{
    if msgs.len() == 0 {
        Seq::empty()
    } else {
        let rest = msgs.drop_first();
        match msgs[0] {
            AsrMsgView::Word { decoded, start_time } => line_with(
                time(start_time),
                written(first_boundary(rest), time),
                said(decoded),
            ) + lines(rest, time),
            _ => lines(rest, time),
        }
    }
}

/// Without the times of words and the ends of turns, the whole transcript of a recording is its
/// words, each behind a space, and nothing else: no newline stands at its end.
pub proof fn law_plain_transcript_is_its_words(
    msgs: Seq<AsrMsgView>,
    time: spec_fn(u64) -> Seq<char>,
    score: spec_fn(u32) -> Seq<char>,
)
    ensures
        transcript(
            whole_transcript(BatchState::started(false, false), msgs),
            false,
            time,
            score,
        ) == spaced(heard(false, msgs)),
{
    let s = BatchState::started(false, false);
    lemma_modes_stay(s, msgs);
    lemma_plain_so_far(msgs, time, score);
}

/// With the times of words and without the ends of turns, the whole transcript of a recording is a
/// line for each of its words, with the time of its beginning and that of the next boundary; the end
/// of the last word is left open where there is none.
pub proof fn law_timed_transcript_is_its_lines(
    msgs: Seq<AsrMsgView>,
    time: spec_fn(u64) -> Seq<char>,
    score: spec_fn(u32) -> Seq<char>,
)
    ensures
        transcript(
            whole_transcript(BatchState::started(false, true), msgs),
            true,
            time,
            score,
        ) == lines(msgs, time),
{
    let s = BatchState::started(false, true);
    lemma_timed_from(s, msgs, time, score);
    assert(waiting_line(s, msgs, time) + lines(msgs, time) =~= lines(msgs, time));
}

/// What is shown of a recording is never taken back: more messages only add to the transcript, and so
/// does its end.
pub proof fn law_transcript_only_grows(
    s: BatchState,
    msgs: Seq<AsrMsgView>,
    more: Seq<AsrMsgView>,
    time: spec_fn(u64) -> Seq<char>,
    score: spec_fn(u32) -> Seq<char>,
)
    ensures
        transcript(outputs(s, msgs), s.timestamps, time, score).is_prefix_of(
            transcript(outputs(s, msgs + more), s.timestamps, time, score),
        ),
        transcript(outputs(s, msgs), s.timestamps, time, score).is_prefix_of(
            transcript(whole_transcript(s, msgs + more), s.timestamps, time, score),
        ),
    decreases more.len(),
{
    let all = msgs + more;
    if more.len() == 0 {
        assert(all =~= msgs);
    } else {
        law_transcript_only_grows(s, msgs, more.drop_last(), time, score);
        assert(all.drop_last() =~= msgs + more.drop_last());
        lemma_transcript_added(
            outputs(s, all.drop_last()),
            run(s, all.drop_last()).reply(all.last()),
            s.timestamps,
            time,
            score,
        );
    }
    lemma_transcript_added(
        outputs(s, all),
        run(s, all).closed_line(None),
        s.timestamps,
        time,
        score,
    );
}

/// How an output that may be missing reads.
spec fn reads_if_any(
    output: Option<OutputView>,
    timestamps: bool,
    time: spec_fn(u64) -> Seq<char>,
    score: spec_fn(u32) -> Seq<char>,
) -> Seq<char> {
    match output {
        Some(output) => reads(output, timestamps, time, score),
        None => Seq::empty(),
    }
}

proof fn lemma_transcript_added(
    outputs: Seq<OutputView>,
    output: Option<OutputView>,
    timestamps: bool,
    time: spec_fn(u64) -> Seq<char>,
    score: spec_fn(u32) -> Seq<char>,
)
    ensures
        transcript(added(outputs, output), timestamps, time, score) == transcript(
            outputs,
            timestamps,
            time,
            score,
        ) + reads_if_any(output, timestamps, time, score),
{
    if let Some(o) = output {
        assert(outputs.push(o).drop_last() =~= outputs);
    } else {
        assert(transcript(outputs, timestamps, time, score) =~= transcript(
            outputs,
            timestamps,
            time,
            score,
        ) + Seq::<char>::empty());
    }
}

proof fn lemma_plain_so_far(
    msgs: Seq<AsrMsgView>,
    time: spec_fn(u64) -> Seq<char>,
    score: spec_fn(u32) -> Seq<char>,
)
    ensures
        transcript(outputs(BatchState::started(false, false), msgs), false, time, score) == spaced(
            heard(false, msgs),
        ),
    decreases msgs.len(),
{
    let s = BatchState::started(false, false);
    if msgs.len() > 0 {
        let init = msgs.drop_last();
        lemma_plain_so_far(init, time, score);
        lemma_modes_stay(s, init);
        lemma_transcript_added(
            outputs(s, init),
            run(s, init).reply(msgs.last()),
            false,
            time,
            score,
        );
        if msgs.last() is Word {
            assert(heard(false, msgs).drop_last() =~= heard(false, init));
        } else {
            assert(transcript(outputs(s, msgs), false, time, score) =~= transcript(
                outputs(s, init),
                false,
                time,
                score,
            ));
        }
    }
}

/// The line of the word that waits for its end before the messages.
spec fn waiting_line(
    s: BatchState,
    msgs: Seq<AsrMsgView>,
    time: spec_fn(u64) -> Seq<char>,
) -> Seq<char> {
    match s.last_word {
        Some(open) => line_with(
            time(open.start_time),
            written(first_boundary(msgs), time),
            open.word,
        ),
        None => Seq::empty(),
    }
}

/// The first message comes first: the rest is transcribed from where it leads to.
proof fn lemma_first_message(s: BatchState, msgs: Seq<AsrMsgView>)
    requires
        msgs.len() > 0,
    ensures
        run(s, msgs) == run(s.after(msgs[0]), msgs.drop_first()),
        outputs(s, msgs) == added(Seq::empty(), s.reply(msgs[0])) + outputs(
            s.after(msgs[0]),
            msgs.drop_first(),
        ),
    decreases msgs.len(),
{
    let rest = msgs.drop_first();
    let init = msgs.drop_last();
    if msgs.len() == 1 {
        assert(init =~= Seq::<AsrMsgView>::empty());
        assert(rest =~= Seq::<AsrMsgView>::empty());
        reveal_with_fuel(run, 2);
        reveal_with_fuel(outputs, 2);
    } else {
        lemma_first_message(s, init);
        assert(init.drop_first() =~= rest.drop_last());
        assert(init[0] == msgs[0]);
        assert(rest.last() == msgs.last());
    }
    assert(outputs(s, msgs) =~= added(Seq::empty(), s.reply(msgs[0])) + outputs(
        s.after(msgs[0]),
        rest,
    ));
}

proof fn lemma_transcript_add(
    a: Seq<OutputView>,
    b: Seq<OutputView>,
    timestamps: bool,
    time: spec_fn(u64) -> Seq<char>,
    score: spec_fn(u32) -> Seq<char>,
)
    ensures
        transcript(a + b, timestamps, time, score) == transcript(a, timestamps, time, score)
            + transcript(b, timestamps, time, score),
    decreases b.len(),
{
    if b.len() == 0 {
        assert(a + b =~= a);
    } else {
        lemma_transcript_add(a, b.drop_last(), timestamps, time, score);
        assert((a + b).drop_last() =~= a + b.drop_last());
    }
    assert(transcript(a + b, timestamps, time, score) =~= transcript(a, timestamps, time, score)
        + transcript(b, timestamps, time, score));
}

proof fn lemma_timed_from(
    s: BatchState,
    msgs: Seq<AsrMsgView>,
    time: spec_fn(u64) -> Seq<char>,
    score: spec_fn(u32) -> Seq<char>,
)
    requires
        s.timestamps,
        !s.vad,
    ensures
        transcript(whole_transcript(s, msgs), true, time, score) == waiting_line(s, msgs, time)
            + lines(msgs, time),
    decreases msgs.len(),
{
    if msgs.len() == 0 {
        lemma_transcript_added(outputs(s, msgs), s.closed_line(None), true, time, score);
        lemma_line_literals();
        assert(transcript(whole_transcript(s, msgs), true, time, score) =~= waiting_line(
            s,
            msgs,
            time,
        ) + lines(msgs, time));
    } else {
        let rest = msgs.drop_first();
        let next = s.after(msgs[0]);
        let first = added(Seq::empty(), s.reply(msgs[0]));
        lemma_timed_from(next, rest, time, score);
        lemma_first_message(s, msgs);
        assert(whole_transcript(s, msgs) =~= first + whole_transcript(next, rest));
        lemma_transcript_add(first, whole_transcript(next, rest), true, time, score);
        lemma_transcript_added(Seq::empty(), s.reply(msgs[0]), true, time, score);
        lemma_line_literals();
        assert(transcript(whole_transcript(s, msgs), true, time, score) =~= waiting_line(
            s,
            msgs,
            time,
        ) + lines(msgs, time));
    }
}

proof fn lemma_form_so_far(vad: bool, timestamps: bool, msgs: Seq<AsrMsgView>)
    ensures
        forall|i: int|
            0 <= i < outputs(BatchState::started(vad, timestamps), msgs).len() ==> match (
            #[trigger] outputs(BatchState::started(vad, timestamps), msgs)[i]) {
                OutputView::EndOfTurn { score } => vad,
                OutputView::Word(word) => !timestamps,
                OutputView::Line { word, start_time, stop_time } => timestamps,
            },
    decreases msgs.len(),
{
    if msgs.len() > 0 {
        lemma_modes_stay(BatchState::started(vad, timestamps), msgs.drop_last());
        lemma_form_so_far(vad, timestamps, msgs.drop_last());
    }
}

proof fn lemma_modes_stay(s: BatchState, msgs: Seq<AsrMsgView>)
    ensures
        run(s, msgs).vad == s.vad,
        run(s, msgs).timestamps == s.timestamps,
        !s.timestamps ==> run(s, msgs).last_word == s.last_word,
    decreases msgs.len(),
{
    if msgs.len() > 0 {
        lemma_modes_stay(s, msgs.drop_last());
    }
}

proof fn lemma_shown_added(outputs: Seq<OutputView>, output: Option<OutputView>)
    ensures
        shown(added(outputs, output)) == shown(outputs) + shown(added(Seq::empty(), output)),
{
    reveal_with_fuel(shown, 2);
    if let Some(o) = output {
        assert(outputs.push(o).drop_last() =~= outputs);
        assert(Seq::<OutputView>::empty().push(o).drop_last() =~= Seq::<OutputView>::empty());
    }
    assert(shown(added(outputs, output)) =~= shown(outputs) + shown(
        added(Seq::empty(), output),
    ));
}

proof fn lemma_words_so_far(vad: bool, timestamps: bool, msgs: Seq<AsrMsgView>)
    ensures
        ({
            let s = BatchState::started(vad, timestamps);
            shown(outputs(s, msgs)) + waiting(run(s, msgs).last_word) == heard(timestamps, msgs)
        }),
    decreases msgs.len(),
{
    let s = BatchState::started(vad, timestamps);
    if msgs.len() == 0 {
        assert(shown(outputs(s, msgs)) + waiting(run(s, msgs).last_word) =~= heard(
            timestamps,
            msgs,
        ));
    } else {
        let init = msgs.drop_last();
        lemma_words_so_far(vad, timestamps, init);
        lemma_modes_stay(s, init);
        let before = run(s, init);
        let reply = before.reply(msgs.last());
        lemma_shown_added(outputs(s, init), reply);
        reveal_with_fuel(shown, 2);
        assert(Seq::<OutputView>::empty().push(reply->0).drop_last() =~= Seq::<
            OutputView,
        >::empty());
        assert(shown(outputs(s, msgs)) + waiting(run(s, msgs).last_word) =~= heard(
            timestamps,
            msgs,
        ));
    }
}

proof fn lemma_waiting_word(vad: bool, msgs: Seq<AsrMsgView>, i: int, j: int)
    requires
        0 <= i < j <= msgs.len(),
        msgs[i] is Word,
        forall|k: int| i < k < j ==> !is_boundary(#[trigger] msgs[k]),
    ensures
        run(BatchState::started(vad, true), msgs.take(j)).timestamps,
        run(BatchState::started(vad, true), msgs.take(j)).last_word == Some(
            OpenWord { word: said(msgs[i]->decoded), start_time: msgs[i]->start_time },
        ),
    decreases j - i,
{
    let s = BatchState::started(vad, true);
    assert(msgs.take(j).drop_last() =~= msgs.take(j - 1));
    assert(msgs.take(j).last() == msgs[j - 1]);
    lemma_modes_stay(s, msgs.take(j));
    lemma_modes_stay(s, msgs.take(j - 1));
    if i < j - 1 {
        lemma_waiting_word(vad, msgs, i, j - 1);
        assert(!is_boundary(msgs[j - 1]));
    }
}

proof fn lemma_nothing_waits(vad: bool, msgs: Seq<AsrMsgView>, i: int, j: int)
    requires
        -1 <= i < j <= msgs.len(),
        i >= 0 ==> msgs[i] is EndWord,
        forall|k: int| i < k < j ==> !is_boundary(#[trigger] msgs[k]),
    ensures
        run(BatchState::started(vad, true), msgs.take(j)).last_word is None,
    decreases j - i,
{
    let s = BatchState::started(vad, true);
    if j > 0 {
        assert(msgs.take(j).drop_last() =~= msgs.take(j - 1));
        assert(msgs.take(j).last() == msgs[j - 1]);
        lemma_modes_stay(s, msgs.take(j - 1));
        if i < j - 1 {
            lemma_nothing_waits(vad, msgs, i, j - 1);
            assert(!is_boundary(msgs[j - 1]));
        }
    }
}

proof fn lemma_turn_stays_shown(s: BatchState, msgs: Seq<AsrMsgView>, i: int, j: int)
    requires
        0 <= i < j <= msgs.len(),
        run(s, msgs.take(i)).after(msgs[i]).printed_eot,
        forall|k: int| i < k < j ==> !is_boundary(#[trigger] msgs[k]),
    ensures
        run(s, msgs.take(j)).printed_eot,
    decreases j - i,
{
    assert(msgs.take(j).drop_last() =~= msgs.take(j - 1));
    assert(msgs.take(j).last() == msgs[j - 1]);
    if i < j - 1 {
        lemma_turn_stays_shown(s, msgs, i, j - 1);
        assert(!is_boundary(msgs[j - 1]));
    }
}

} // verus!
