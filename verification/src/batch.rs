//! Transcription of a finished recording: what is printed and appended to the transcript for each
//! message of the model.

use vstd::prelude::*;
use vstd::string::*;

use crate::scores::{
    has_vad_score, is_end_of_turn, is_scored, score_rows, turn_ended, vad_score, vad_score_of,
};
use crate::text::{decoded_view, decoded_word, word_or_empty};

verus! {

/// A message of the model on a recording. Times are bit patterns of double-precision numbers; the
/// library hands them on as they are.
#[derive(Debug, PartialEq, Eq)]
pub enum AsrMsg {
    /// A step with its scores.
    Step { scores: Vec<Vec<u32>> },
    /// A word, as its tokens were decoded, or none where that failed.
    Word { decoded: Option<String>, start_time: u64 },
    /// The end of the last word.
    EndWord { stop_time: u64 },
}

/// What an `AsrMsg` stands for.
pub enum AsrMsgView {
    Step { scores: Seq<Seq<u32>> },
    Word { decoded: Option<Seq<char>>, start_time: u64 },
    EndWord { stop_time: u64 },
}

impl View for AsrMsg {
    type V = AsrMsgView;

    open spec fn view(&self) -> AsrMsgView {
        match self {
            AsrMsg::Step { scores } => AsrMsgView::Step { scores: score_rows(scores@) },
            AsrMsg::Word { decoded, start_time } => AsrMsgView::Word {
                decoded: decoded_view(*decoded),
                start_time: *start_time,
            },
            AsrMsg::EndWord { stop_time } => AsrMsgView::EndWord { stop_time: *stop_time },
        }
    }
}

/// A part of the transcript of a recording.
#[derive(Debug, PartialEq, Eq)]
pub enum Output {
    /// The end of a turn, with the score that it was told from.
    EndOfTurn { score: u32 },
    /// A word by itself.
    Word(String),
    /// A line with a word and the times between which it was said; the end is open for the last
    /// word.
    Line { word: String, start_time: u64, stop_time: Option<u64> },
}

/// What an `Output` stands for.
pub enum OutputView {
    EndOfTurn { score: u32 },
    Word(Seq<char>),
    Line { word: Seq<char>, start_time: u64, stop_time: Option<u64> },
}

impl View for Output {
    type V = OutputView;

    open spec fn view(&self) -> OutputView {
        match self {
            Output::EndOfTurn { score } => OutputView::EndOfTurn { score: *score },
            Output::Word(word) => OutputView::Word(word@),
            Output::Line { word, start_time, stop_time } => OutputView::Line {
                word: word@,
                start_time: *start_time,
                stop_time: *stop_time,
            },
        }
    }
}

impl Output {
    /// Whether the output has to be seen at once. A word by itself has: it appears as soon as it is
    /// heard.
    pub fn is_urgent(&self) -> (r: bool)
        ensures
            r == (self@ is Word),
    {
        match self {
            Output::Word(_) => true,
            _ => false,
        }
    }
}

/// What an output that may be missing stands for.
pub open spec fn output_view(output: Option<Output>) -> Option<OutputView> {
    match output {
        Some(output) => Some(output@),
        None => None,
    }
}

/// A word whose end is not known yet.
pub struct OpenWord {
    pub word: Seq<char>,
    pub start_time: u64,
}

/// What a `BatchTranscriber` stands for.
pub struct BatchState {
    /// Whether the end of a turn is shown.
    pub vad: bool,
    /// Whether words are shown with their times.
    pub timestamps: bool,
    /// The word that waits for its end. Words wait only where they are shown with their times.
    pub last_word: Option<OpenWord>,
    /// Whether the end of a turn was shown since the last word began or ended.
    pub printed_eot: bool,
}

impl BatchState {
    /// The transcription of a recording before the first message.
    pub open spec fn started(vad: bool, timestamps: bool) -> BatchState {
        BatchState { vad, timestamps, last_word: None, printed_eot: false }
    }

    /// Whether a step with these scores shows the end of a turn.
    pub open spec fn shows_turn(self, scores: Seq<Seq<u32>>) -> bool {
        self.vad && turn_ended(scores) && !self.printed_eot
    }

    /// Whether the message holds what is read of it.
    pub open spec fn accepts(self, msg: AsrMsgView) -> bool {
        msg matches AsrMsgView::Step { scores } ==> self.vad ==> has_vad_score(scores)
    }

    /// The line of the word that waits for its end, if there is one.
    pub open spec fn closed_line(self, stop_time: Option<u64>) -> Option<OutputView> {
        match self.last_word {
            Some(open) => Some(
                OutputView::Line { word: open.word, start_time: open.start_time, stop_time },
            ),
            None => None,
        }
    }

    /// The transcription after a message.
    pub open spec fn after(self, msg: AsrMsgView) -> BatchState {
        match msg {
            AsrMsgView::Step { scores } => BatchState {
                printed_eot: self.printed_eot || self.shows_turn(scores),
                ..self
            },
            AsrMsgView::EndWord { stop_time } => BatchState {
                printed_eot: false,
                last_word: if self.timestamps {
                    None
                } else {
                    self.last_word
                },
                ..self
            },
            AsrMsgView::Word { decoded, start_time } => BatchState {
                printed_eot: false,
                last_word: if self.timestamps {
                    Some(OpenWord { word: word_or_empty(decoded), start_time })
                } else {
                    self.last_word
                },
                ..self
            },
        }
    }

    /// What a message adds to the transcript.
    pub open spec fn reply(self, msg: AsrMsgView) -> Option<OutputView> {
        match msg {
            AsrMsgView::Step { scores } => if self.shows_turn(scores) {
                Some(OutputView::EndOfTurn { score: vad_score_of(scores) })
            } else {
                None
            },
            AsrMsgView::EndWord { stop_time } => if self.timestamps {
                self.closed_line(Some(stop_time))
            } else {
                None
            },
            AsrMsgView::Word { decoded, start_time } => if self.timestamps {
                self.closed_line(Some(start_time))
            } else {
                Some(OutputView::Word(word_or_empty(decoded)))
            },
        }
    }
}

/// The transcription after a row of messages.
pub open spec fn run(s: BatchState, msgs: Seq<AsrMsgView>) -> BatchState
    decreases msgs.len(),
{
    if msgs.len() == 0 {
        s
    } else {
        run(s, msgs.drop_last()).after(msgs.last())
    }
}

/// What an output that may be missing adds to a row of outputs.
pub open spec fn added(outputs: Seq<OutputView>, output: Option<OutputView>) -> Seq<OutputView> {
    match output {
        Some(output) => outputs.push(output),
        None => outputs,
    }
}

/// What a row of messages adds to the transcript.
pub open spec fn outputs(s: BatchState, msgs: Seq<AsrMsgView>) -> Seq<OutputView>
    decreases msgs.len(),
{
    if msgs.len() == 0 {
        Seq::empty()
    } else {
        added(outputs(s, msgs.drop_last()), run(s, msgs.drop_last()).reply(msgs.last()))
    }
}

/// What a row of messages stands for.
pub open spec fn msg_views(msgs: Seq<AsrMsg>) -> Seq<AsrMsgView> {
    msgs.map_values(|m: AsrMsg| m@)
}

/// What a row of outputs stands for.
pub open spec fn output_views(outputs: Seq<Output>) -> Seq<OutputView> {
    outputs.map_values(|o: Output| o@)
}

/// The transcription of a recording. It is given the messages of the model in order and answers
/// with what they add to the transcript.
pub struct BatchTranscriber {
    vad: bool,
    timestamps: bool,
    last_word: Option<(String, u64)>,
    printed_eot: bool,
}

impl View for BatchTranscriber {
    type V = BatchState;

    closed spec fn view(&self) -> BatchState {
        BatchState {
            vad: self.vad,
            timestamps: self.timestamps,
            last_word: match self.last_word {
                Some((word, start_time)) => Some(OpenWord { word: word@, start_time }),
                None => None,
            },
            printed_eot: self.printed_eot,
        }
    }
}

impl BatchTranscriber {
    /// A transcription before the first message.
    pub fn new(vad: bool, timestamps: bool) -> (t: Self)
        ensures
            t@ == BatchState::started(vad, timestamps),
    {
        BatchTranscriber { vad, timestamps, last_word: None, printed_eot: false }
    }

    /// Whether the message can be handled: a step holds the score that the end of a turn is told
    /// from, where that is shown.
    pub fn accepts(&self, msg: &AsrMsg) -> (r: bool)
        ensures
            r == self@.accepts(msg@),
    {
        match msg {
            AsrMsg::Step { scores } => !self.vad || is_scored(scores),
            _ => true,
        }
    }

    fn close_line(&mut self, stop_time: Option<u64>) -> (line: Option<Output>)
        ensures
            output_view(line) == old(self)@.closed_line(stop_time),
            final(self)@ == (BatchState { last_word: None, ..old(self)@ }),
    {
        match self.last_word.take() {
            Some((word, start_time)) => Some(Output::Line { word, start_time, stop_time }),
            None => None,
        }
    }

    /// Handles a message and returns what it adds to the transcript.
    pub fn step(&mut self, msg: AsrMsg) -> (output: Option<Output>)
        requires
            old(self)@.accepts(msg@),
        ensures
            final(self)@ == old(self)@.after(msg@),
            output_view(output) == old(self)@.reply(msg@),
    {
        match msg {
            AsrMsg::Step { scores } => {
                if self.vad && is_end_of_turn(vad_score(&scores)) && !self.printed_eot {
                    self.printed_eot = true;
                    Some(Output::EndOfTurn { score: vad_score(&scores) })
                } else {
                    None
                }
            },
            AsrMsg::EndWord { stop_time } => {
                self.printed_eot = false;
                if self.timestamps {
                    self.close_line(Some(stop_time))
                } else {
                    None
                }
            },
            AsrMsg::Word { decoded, start_time } => {
                self.printed_eot = false;
                let word = decoded_word(decoded);
                if self.timestamps {
                    let line = self.close_line(Some(start_time));
                    self.last_word = Some((word, start_time));
                    line
                } else {
                    Some(Output::Word(word))
                }
            },
        }
    }

    /// How many of the messages can be handled before the first that cannot.
    fn accepted(&self, msgs: &Vec<AsrMsg>) -> (n: usize)
        ensures
            n <= msgs@.len(),
            forall|i: int| 0 <= i < n ==> self@.accepts(#[trigger] msgs@[i]@),
            n < msgs@.len() ==> !self@.accepts(msgs@[n as int]@),
    {
        let mut n: usize = 0;
        while n < msgs.len()
            invariant
                n <= msgs@.len(),
                forall|i: int| 0 <= i < n ==> self@.accepts(#[trigger] msgs@[i]@),
            decreases msgs@.len() - n,
        {
            if !self.accepts(&msgs[n]) {
                return n;
            }
            n = n + 1;
        }
        n
    }

    /// Handles the messages on a chunk, one after the other, and returns what they add to the
    /// transcript and how many were handled. It stops at the first message that cannot be handled.
    pub fn step_all(&mut self, msgs: Vec<AsrMsg>) -> (r: (Vec<Output>, usize))
        ensures
            r.1 <= msgs@.len(),
            forall|i: int| 0 <= i < r.1 ==> old(self)@.accepts(#[trigger] msgs@[i]@),
            r.1 < msgs@.len() ==> !old(self)@.accepts(msgs@[r.1 as int]@),
            final(self)@ == run(old(self)@, msg_views(msgs@).take(r.1 as int)),
            output_views(r.0@) == outputs(old(self)@, msg_views(msgs@).take(r.1 as int)),
    {
        let mut msgs = msgs;
        let ghost given = msgs@;
        let n = self.accepted(&msgs);
        msgs.truncate(n);
        let mut shown: Vec<Output> = Vec::new();
        let ghost start = self@;
        let ghost all = msg_views(msgs@);
        assert(all =~= msg_views(given).take(n as int));
        assert(all.take(0) =~= Seq::<AsrMsgView>::empty());
        for msg in it: msgs
            invariant
                all == msg_views(it.seq()),
                forall|i: int| 0 <= i < it.seq().len() ==> start.accepts(#[trigger] it.seq()[i]@),
                self@.vad == start.vad,
                self@ == run(start, all.take(it.index() as int)),
                output_views(shown@) == outputs(start, all.take(it.index() as int)),
        {
            let ghost before = all.take(it.index() as int);
            let ghost next = all.take(it.index() + 1);
            assert(next.drop_last() =~= before);
            assert(next.last() == msg@);
            match self.step(msg) {
                Some(output) => {
                    let ghost shown_before = shown@;
                    shown.push(output);
                    assert(output_views(shown@) =~= output_views(shown_before).push(output@));
                },
                None => {},
            }
        }
        assert(all.take(all.len() as int) =~= all);
        (shown, n)
    }

    /// Ends the transcription and returns the line of the word that still waited for its end, if
    /// there is one.
    pub fn finish(&mut self) -> (output: Option<Output>)
        ensures
            final(self)@ == (BatchState { last_word: None, ..old(self)@ }),
            output_view(output) == old(self)@.closed_line(None),
    {
        self.close_line(None)
    }
}

/// How a line with a word and its times reads. The end of a word that has none is left blank.
pub open spec fn line_text(start: Seq<char>, stop: Option<Seq<char>>, word: Seq<char>) -> Seq<
    char,
> {
    "["@ + start + "-"@ + (match stop {
        Some(stop) => stop,
        None => "     "@,
    }) + "] "@ + word + "\n"@
}

/// What a time that may be missing stands for, as a text.
pub open spec fn time_view(time: Option<&str>) -> Option<Seq<char>> {
    match time {
        Some(time) => Some(time@),
        None => None,
    }
}

/// A line with a word and its times, which come as texts.
pub fn timed_line(start: &str, stop: Option<&str>, word: &str) -> (s: String)
    ensures
        s@ == line_text(start@, time_view(stop), word@),
{
    let stop = match stop {
        Some(stop) => stop,
        None => "     ",
    };
    String::from_str("[").concat(start).concat("-").concat(stop).concat("] ").concat(word).concat(
        "\n",
    )
}

/// How the end of a turn reads: within the running text, or on a line of its own where words have
/// lines of their own.
pub open spec fn end_of_turn_text(timestamps: bool, score: Seq<char>) -> Seq<char> {
    if timestamps {
        "<endofturn pr="@ + score + ">\n"@
    } else {
        " <endofturn pr="@ + score + ">"@
    }
}

/// The tag for the end of a turn, with the score as a text.
pub fn end_of_turn_tag(timestamps: bool, score: &str) -> (s: String)
    ensures
        s@ == end_of_turn_text(timestamps, score@),
{
    if timestamps {
        String::from_str("<endofturn pr=").concat(score).concat(">\n")
    } else {
        String::from_str(" <endofturn pr=").concat(score).concat(">")
    }
}

/// A word by itself, set off from what comes before it.
pub fn spaced_word(word: &str) -> (s: String)
    ensures
        s@ == " "@ + word@,
{
    String::from_str(" ").concat(word)
}

/// How an output reads. The times of a line and the score of a turn come as texts.
pub open spec fn output_reads(
    output: OutputView,
    timestamps: bool,
    start: Seq<char>,
    stop: Option<Seq<char>>,
    score: Seq<char>,
) -> Seq<char> {
    match output {
        OutputView::EndOfTurn { score: bits } => end_of_turn_text(timestamps, score),
        OutputView::Word(word) => " "@ + word,
        OutputView::Line { word, start_time, stop_time } => line_text(start, stop, word),
    }
}

/// The text that an output adds to the transcript. `start` and `stop` are the times of a line and
/// `score` is that of a turn, written out; each is looked at only for such an output.
pub fn output_text(
    output: &Output,
    timestamps: bool,
    start: &str,
    stop: Option<&str>,
    score: &str,
) -> (s: String)
    ensures
        s@ == output_reads(output@, timestamps, start@, time_view(stop), score@),
{
    match output {
        Output::EndOfTurn { .. } => end_of_turn_tag(timestamps, score),
        Output::Word(word) => spaced_word(word.as_str()),
        Output::Line { word, .. } => timed_line(start, stop, word.as_str()),
    }
}

} // verus!
