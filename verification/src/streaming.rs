//! Live transcription: what is printed, appended to the transcript and reported while audio
//! chunks arrive and the model turns them into words.

use vstd::prelude::*;
use vstd::string::*;

use crate::batch::{line_text, spaced_word, time_view, timed_line, OpenWord};
use crate::clock::{elapsed, elapsed_spec, NANOS_PER_SEC};
use crate::scores::{has_vad_score, is_end_of_turn, is_scored, score_rows, turn_ended, vad_score};
use crate::text::{decimal, decimal_text, decoded_view, decoded_word, word_or_empty};

verus! {

/// How long to wait for a chunk before the audio counts as stalled, in nanoseconds.
pub const RECV_TIMEOUT: u128 = 2_000_000_000;

/// A wait for a chunk longer than this is worth a remark, in nanoseconds.
pub const LONG_WAIT: u128 = 100_000_000;

/// Inference on one chunk that takes longer than this is slow, in nanoseconds.
pub const SLOW_INFERENCE: u128 = 200_000_000;

/// Silence of the transcript beyond this raises an alert, in nanoseconds.
pub const TRANSCRIPT_TIMEOUT: u128 = 10_000_000_000;

/// Time between two status reports, in nanoseconds.
pub const STATUS_INTERVAL: u128 = 5_000_000_000;

/// A piece of the live transcript.
#[derive(Debug, PartialEq, Eq)]
pub enum Piece {
    /// No audio arrived for a while.
    AudioTimeout,
    /// No word was heard for this many seconds.
    NoTranscript(u128),
    /// The speaker's turn has ended.
    EndOfTurn,
    /// Words arrive again after an alert.
    Resumed,
    /// A word by itself.
    Word(String),
    /// A line with a word and the times between which it was said; the end is open for the last
    /// word. Times are bit patterns of double-precision numbers.
    Line { word: String, start_time: u64, stop_time: Option<u64> },
    /// The end of the transcript.
    Newline,
}

/// What a `Piece` stands for.
pub enum PieceView {
    AudioTimeout,
    NoTranscript(nat),
    EndOfTurn,
    Resumed,
    Word(Seq<char>),
    Line { word: Seq<char>, start_time: u64, stop_time: Option<u64> },
    Newline,
}

impl View for Piece {
    type V = PieceView;

    open spec fn view(&self) -> PieceView {
        match self {
            Piece::AudioTimeout => PieceView::AudioTimeout,
            Piece::NoTranscript(secs) => PieceView::NoTranscript(*secs as nat),
            Piece::EndOfTurn => PieceView::EndOfTurn,
            Piece::Resumed => PieceView::Resumed,
            Piece::Word(word) => PieceView::Word(word@),
            Piece::Line { word, start_time, stop_time } => PieceView::Line {
                word: word@,
                start_time: *start_time,
                stop_time: *stop_time,
            },
            Piece::Newline => PieceView::Newline,
        }
    }
}

/// How a piece reads. The times of a line come as the texts `start` and `stop`; other pieces have
/// none.
pub open spec fn piece_text(
    piece: PieceView,
    start: Seq<char>,
    stop: Option<Seq<char>>,
) -> Seq<char> {
    match piece {
        PieceView::AudioTimeout => " [LOS:audio_timeout]"@,
        PieceView::NoTranscript(secs) => " [LOS:no_transcript_"@ + decimal(secs) + "s]"@,
        PieceView::EndOfTurn => " [end of turn detected]"@,
        PieceView::Resumed => " [RESUMED]"@,
        PieceView::Word(word) => " "@ + word,
        PieceView::Line { word, start_time, stop_time } => line_text(start, stop, word),
        PieceView::Newline => "\n"@,
    }
}

impl Piece {
    /// The text that the piece adds to the transcript. `start` and `stop` are the times of a line,
    /// written out; they are not looked at for other pieces.
    pub fn text(&self, start: &str, stop: Option<&str>) -> (s: String)
        ensures
            s@ == piece_text(self@, start@, time_view(stop)),
    {
        match self {
            Piece::AudioTimeout => String::from_str(" [LOS:audio_timeout]"),
            Piece::NoTranscript(secs) => {
                let digits = decimal_text(*secs);
                String::from_str(" [LOS:no_transcript_").concat(digits.as_str()).concat("s]")
            },
            Piece::EndOfTurn => String::from_str(" [end of turn detected]"),
            Piece::Resumed => String::from_str(" [RESUMED]"),
            Piece::Word(word) => spaced_word(word.as_str()),
            Piece::Line { word, start_time, stop_time } => timed_line(start, stop, word.as_str()),
            Piece::Newline => String::from_str("\n"),
        }
    }
}

/// A report to the user that is not part of the transcript. Times are in nanoseconds.
#[derive(Debug, PartialEq, Eq)]
pub enum StreamNotice {
    /// A chunk was long in coming.
    LongWait(u128),
    /// No chunk came in time.
    AudioStalled,
    /// Inference on a chunk was slow.
    SlowInference(u128),
    /// Chunks were processed without a word for too long.
    TranscriptLoss { silent_chunks: u64, gap: u128 },
    /// A word ended a gap that had raised an alert.
    TranscriptResumed(u128),
    /// What was processed so far.
    Status { chunks: i32, samples: usize, since_transcript: u64 },
}

/// What a `StreamNotice` stands for.
pub enum StreamNoticeView {
    LongWait(nat),
    AudioStalled,
    SlowInference(nat),
    TranscriptLoss { silent_chunks: nat, gap: nat },
    TranscriptResumed(nat),
    Status { chunks: nat, samples: nat, since_transcript: nat },
}

impl View for StreamNotice {
    type V = StreamNoticeView;

    open spec fn view(&self) -> StreamNoticeView {
        match self {
            StreamNotice::LongWait(waited) => StreamNoticeView::LongWait(*waited as nat),
            StreamNotice::AudioStalled => StreamNoticeView::AudioStalled,
            StreamNotice::SlowInference(took) => StreamNoticeView::SlowInference(*took as nat),
            StreamNotice::TranscriptLoss { silent_chunks, gap } => StreamNoticeView::TranscriptLoss {
                silent_chunks: *silent_chunks as nat,
                gap: *gap as nat,
            },
            StreamNotice::TranscriptResumed(gap) => StreamNoticeView::TranscriptResumed(
                *gap as nat,
            ),
            StreamNotice::Status { chunks, samples, since_transcript } => StreamNoticeView::Status {
                chunks: *chunks as nat,
                samples: *samples as nat,
                since_transcript: *since_transcript as nat,
            },
        }
    }
}

/// What the caller of a session has to do. `Wait`, `Infer` and `Stop` say how to go on: a session
/// begins with waiting, and each of them ends the reply that it stands in.
#[derive(Debug, PartialEq, Eq)]
pub enum StreamAction {
    /// Print the piece and append it to the transcript file, if there is one.
    Emit(Piece),
    /// Tell the user.
    Notice(StreamNotice),
    /// Sync the transcript file, if there is one.
    SyncFile,
    /// Count a chunk off those that are pending: it was taken out of the channel.
    CountOff,
    /// Wait for the next chunk, and tell of its arrival, that none came, or that no more will.
    Wait,
    /// Run the model on the chunk that just arrived, which has this number, and tell how long it
    /// took, of every message in order, and that this was all.
    Infer(i32),
    /// Stop: the transcription is over.
    Stop,
}

/// What a `StreamAction` stands for.
pub enum StreamActionView {
    Emit(PieceView),
    Notice(StreamNoticeView),
    SyncFile,
    CountOff,
    Wait,
    Infer(int),
    Stop,
}

impl View for StreamAction {
    type V = StreamActionView;

    open spec fn view(&self) -> StreamActionView {
        match self {
            StreamAction::Emit(piece) => StreamActionView::Emit(piece@),
            StreamAction::Notice(notice) => StreamActionView::Notice(notice@),
            StreamAction::SyncFile => StreamActionView::SyncFile,
            StreamAction::CountOff => StreamActionView::CountOff,
            StreamAction::Wait => StreamActionView::Wait,
            StreamAction::Infer(chunk) => StreamActionView::Infer(*chunk as int),
            StreamAction::Stop => StreamActionView::Stop,
        }
    }
}

/// What a row of actions stands for.
pub open spec fn action_views(actions: Seq<StreamAction>) -> Seq<StreamActionView> {
    actions.map_values(|a: StreamAction| a@)
}

/// What a session is told. `now` is the clock, in nanoseconds; the times of words are bit patterns of
/// double-precision numbers.
#[derive(Debug, PartialEq, Eq)]
pub enum StreamEvent {
    /// A chunk of this many samples arrived after a wait.
    Received { samples: usize, waited: u128 },
    /// No chunk arrived within `RECV_TIMEOUT`.
    Stalled,
    /// The model has processed the chunk, which took a time.
    Inferred { took: u128, now: u128 },
    /// The model reports a step with its scores.
    Step { scores: Vec<Vec<u32>> },
    /// The model reports a word, as its tokens were decoded, or none where that failed.
    Word { decoded: Option<String>, start_time: u64, now: u128 },
    /// The model reports the end of a word.
    EndWord { stop_time: u64 },
    /// Every message on the chunk was handled.
    ChunkDone { now: u128 },
    /// No more chunks will arrive.
    Closed,
}

/// What a `StreamEvent` stands for.
pub enum StreamEventView {
    Received { samples: nat, waited: nat },
    Stalled,
    Inferred { took: nat, now: nat },
    Step { scores: Seq<Seq<u32>> },
    Word { decoded: Option<Seq<char>>, start_time: u64, now: nat },
    EndWord { stop_time: u64 },
    ChunkDone { now: nat },
    Closed,
}

impl View for StreamEvent {
    type V = StreamEventView;

    open spec fn view(&self) -> StreamEventView {
        match self {
            StreamEvent::Received { samples, waited } => StreamEventView::Received {
                samples: *samples as nat,
                waited: *waited as nat,
            },
            StreamEvent::Stalled => StreamEventView::Stalled,
            StreamEvent::Inferred { took, now } => StreamEventView::Inferred {
                took: *took as nat,
                now: *now as nat,
            },
            StreamEvent::Step { scores } => StreamEventView::Step { scores: score_rows(scores@) },
            StreamEvent::Word { decoded, start_time, now } => StreamEventView::Word {
                decoded: decoded_view(*decoded),
                start_time: *start_time,
                now: *now as nat,
            },
            StreamEvent::EndWord { stop_time } => StreamEventView::EndWord {
                stop_time: *stop_time,
            },
            StreamEvent::ChunkDone { now } => StreamEventView::ChunkDone { now: *now as nat },
            StreamEvent::Closed => StreamEventView::Closed,
        }
    }
}

/// What a `StreamingSession` stands for.
#[verifier::ext_equal]
pub struct StreamState {
    /// Whether the end of a turn is shown.
    pub vad: bool,
    /// Whether words are shown with their times.
    pub timestamps: bool,
    /// Whether waits and status are reported.
    pub debug: bool,
    /// Whether the end of a turn was shown after the last word.
    pub turn_shown: bool,
    /// Chunks received.
    pub chunks: nat,
    /// Samples received.
    pub samples: nat,
    /// The clock at the last status report.
    pub last_status: nat,
    /// The clock at the last word.
    pub last_transcript: nat,
    /// Chunks received since the last word.
    pub chunks_since: nat,
    /// Whether the silence since the last word has raised an alert.
    pub alerted: bool,
    /// The silence that was measured after the last inference.
    pub gap: nat,
    /// The word that waits for its end. Words wait only where they are shown with their times.
    pub last_word: Option<OpenWord>,
}

impl StreamState {
    /// A session that starts at `now`.
    pub open spec fn started(vad: bool, timestamps: bool, debug: bool, now: nat) -> StreamState {
        StreamState {
            vad,
            timestamps,
            debug,
            turn_shown: false,
            chunks: 0,
            samples: 0,
            last_status: now,
            last_transcript: now,
            chunks_since: 0,
            alerted: false,
            gap: 0,
            last_word: None,
        }
    }

    /// The line of the word that waits for its end, if there is one.
    pub open spec fn closed_line(self, stop_time: Option<u64>) -> Seq<StreamActionView> {
        match self.last_word {
            Some(open) => seq![
                StreamActionView::Emit(
                    PieceView::Line { word: open.word, start_time: open.start_time, stop_time },
                ),
            ],
            None => Seq::empty(),
        }
    }

    /// Whether an inference that ends at `now` finds a silence that calls for an alert.
    pub open spec fn loses_transcript(self, now: nat) -> bool {
        elapsed_spec(self.last_transcript, now) > TRANSCRIPT_TIMEOUT && !self.alerted
    }

    /// Whether a step with these scores shows the end of a turn.
    pub open spec fn shows_turn(self, scores: Seq<Seq<u32>>) -> bool {
        self.vad && turn_ended(scores) && !self.turn_shown
    }

    /// Whether a status report is due at `now`.
    pub open spec fn status_due(self, now: nat) -> bool {
        self.debug && elapsed_spec(self.last_status, now) >= STATUS_INTERVAL
    }

    /// Whether the counters can take the event, and the event holds what the session reads of it.
    pub open spec fn accepts(self, e: StreamEventView) -> bool {
        match e {
            StreamEventView::Received { samples, waited } => {
                &&& self.chunks < i32::MAX
                &&& self.samples + samples <= usize::MAX
                &&& self.chunks_since < u64::MAX
            },
            StreamEventView::Step { scores } => self.vad ==> has_vad_score(scores),
            _ => true,
        }
    }

    /// The session after an event.
    pub open spec fn after(self, e: StreamEventView) -> StreamState {
        match e {
            StreamEventView::Received { samples, waited } => StreamState {
                chunks: self.chunks + 1,
                samples: self.samples + samples,
                chunks_since: self.chunks_since + 1,
                ..self
            },
            StreamEventView::Stalled => self,
            StreamEventView::Inferred { took, now } => StreamState {
                gap: elapsed_spec(self.last_transcript, now),
                alerted: self.alerted || self.loses_transcript(now),
                ..self
            },
            StreamEventView::Step { scores } => StreamState {
                turn_shown: self.turn_shown || self.shows_turn(scores),
                ..self
            },
            StreamEventView::Word { decoded, start_time, now } => StreamState {
                last_transcript: now,
                chunks_since: 0,
                alerted: false,
                turn_shown: false,
                last_word: if self.timestamps {
                    Some(OpenWord { word: word_or_empty(decoded), start_time })
                } else {
                    self.last_word
                },
                ..self
            },
            StreamEventView::EndWord { stop_time } => StreamState {
                last_word: if self.timestamps {
                    None
                } else {
                    self.last_word
                },
                ..self
            },
            StreamEventView::ChunkDone { now } => StreamState {
                last_status: if self.status_due(now) {
                    now
                } else {
                    self.last_status
                },
                ..self
            },
            StreamEventView::Closed => StreamState { last_word: None, ..self },
        }
    }

    /// What an event calls for, in this order.
    pub open spec fn reply(self, e: StreamEventView) -> Seq<StreamActionView> {
        match e {
            StreamEventView::Received { samples, waited } => seq![StreamActionView::CountOff] + (
            if self.debug && waited > LONG_WAIT {
                seq![StreamActionView::Notice(StreamNoticeView::LongWait(waited))]
            } else {
                Seq::empty()
            }) + seq![StreamActionView::Infer(self.chunks as int + 1)],
            StreamEventView::Stalled => seq![
                StreamActionView::Notice(StreamNoticeView::AudioStalled),
                StreamActionView::Emit(PieceView::AudioTimeout),
                StreamActionView::Wait,
            ],
            StreamEventView::Inferred { took, now } => {
                let gap = elapsed_spec(self.last_transcript, now);
                (if took > SLOW_INFERENCE {
                    seq![StreamActionView::Notice(StreamNoticeView::SlowInference(took))]
                } else {
                    Seq::empty()
                }) + (if self.loses_transcript(now) {
                    seq![
                        StreamActionView::Notice(
                            StreamNoticeView::TranscriptLoss {
                                silent_chunks: self.chunks_since,
                                gap,
                            },
                        ),
                        StreamActionView::Emit(
                            PieceView::NoTranscript((gap / NANOS_PER_SEC as nat) as nat),
                        ),
                    ]
                } else {
                    Seq::empty()
                })
            },
            StreamEventView::Step { scores } => if self.shows_turn(scores) {
                seq![StreamActionView::Emit(PieceView::EndOfTurn)]
            } else {
                Seq::empty()
            },
            StreamEventView::Word { decoded, start_time, now } => (if self.alerted {
                seq![
                    StreamActionView::Notice(StreamNoticeView::TranscriptResumed(self.gap)),
                    StreamActionView::Emit(PieceView::Resumed),
                ]
            } else {
                Seq::empty()
            }) + (if self.timestamps {
                self.closed_line(Some(start_time))
            } else {
                seq![StreamActionView::Emit(PieceView::Word(word_or_empty(decoded)))]
            }),
            StreamEventView::EndWord { stop_time } => if self.timestamps {
                self.closed_line(Some(stop_time))
            } else {
                Seq::empty()
            },
            StreamEventView::ChunkDone { now } => (if self.status_due(now) {
                seq![
                    StreamActionView::Notice(
                        StreamNoticeView::Status {
                            chunks: self.chunks,
                            samples: self.samples,
                            since_transcript: self.chunks_since,
                        },
                    ),
                ]
            } else {
                Seq::empty()
            }) + seq![StreamActionView::Wait],
            StreamEventView::Closed => self.closed_line(None) + seq![
                StreamActionView::Emit(PieceView::Newline),
                StreamActionView::SyncFile,
                StreamActionView::Stop,
            ],
        }
    }
}

/// A live transcription. It is told what happens and answers with what to do.
pub struct StreamingSession {
    vad: bool,
    timestamps: bool,
    debug: bool,
    last_print_was_vad: bool,
    chunk_count: i32,
    total_samples: usize,
    last_status_time: u128,
    last_transcript_time: u128,
    chunks_since_transcript: u64,
    loss_alert_printed: bool,
    time_since_transcript: u128,
    last_word: Option<(String, u64)>,
}

impl View for StreamingSession {
    type V = StreamState;

    closed spec fn view(&self) -> StreamState {
        StreamState {
            vad: self.vad,
            timestamps: self.timestamps,
            debug: self.debug,
            turn_shown: self.last_print_was_vad,
            chunks: self.chunk_count as nat,
            samples: self.total_samples as nat,
            last_status: self.last_status_time as nat,
            last_transcript: self.last_transcript_time as nat,
            chunks_since: self.chunks_since_transcript as nat,
            alerted: self.loss_alert_printed,
            gap: self.time_since_transcript as nat,
            last_word: match self.last_word {
                Some((word, start_time)) => Some(OpenWord { word: word@, start_time }),
                None => None,
            },
        }
    }
}

impl StreamingSession {
    #[verifier::type_invariant]
    spec fn counts(self) -> bool {
        self.chunk_count >= 0
    }

    /// A session that starts at `now`.
    pub fn new(vad: bool, timestamps: bool, debug: bool, now: u128) -> (session: Self)
        ensures
            session@ == StreamState::started(vad, timestamps, debug, now as nat),
    {
        StreamingSession {
            vad,
            timestamps,
            debug,
            last_print_was_vad: false,
            chunk_count: 0,
            total_samples: 0,
            last_status_time: now,
            last_transcript_time: now,
            chunks_since_transcript: 0,
            loss_alert_printed: false,
            time_since_transcript: 0,
            last_word: None,
        }
    }

    /// Whether the session can be told of the event: its counters do not overflow, and a step holds
    /// the score that the end of a turn is told from, where that is shown.
    pub fn accepts(&self, event: &StreamEvent) -> (r: bool)
        ensures
            r == self@.accepts(event@),
    {
        proof {
            use_type_invariant(self);
        }
        match event {
            StreamEvent::Received { samples, waited } => self.chunk_count < i32::MAX && *samples
                <= usize::MAX - self.total_samples && self.chunks_since_transcript < u64::MAX,
            StreamEvent::Step { scores } => !self.vad || is_scored(scores),
            _ => true,
        }
    }

    /// The chunks received so far.
    pub fn chunk_count(&self) -> (n: i32)
        ensures
            n == self@.chunks,
    {
        proof {
            use_type_invariant(self);
        }
        self.chunk_count
    }

    /// Tells the session of an event and returns what to do, in order.
    pub fn step(&mut self, event: StreamEvent) -> (actions: Vec<StreamAction>)
        requires
            old(self)@.accepts(event@),
        ensures
            final(self)@ == old(self)@.after(event@),
            action_views(actions@) == old(self)@.reply(event@),
    {
        proof {
            use_type_invariant(&*self);
        }
        match event {
            StreamEvent::Received { samples, waited } => self.received(samples, waited),
            StreamEvent::Stalled => {
                let mut actions: Vec<StreamAction> = Vec::new();
                actions.push(StreamAction::Notice(StreamNotice::AudioStalled));
                actions.push(StreamAction::Emit(Piece::AudioTimeout));
                actions.push(StreamAction::Wait);
                actions
            },
            StreamEvent::Inferred { took, now } => self.inferred(took, now),
            StreamEvent::Step { scores } => self.scored(&scores),
            StreamEvent::Word { decoded, start_time, now } => self.word(decoded, start_time, now),
            StreamEvent::EndWord { stop_time } => {
                let mut actions: Vec<StreamAction> = Vec::new();
                if self.timestamps {
                    self.close_line(Some(stop_time), &mut actions);
                }
                actions
            },
            StreamEvent::ChunkDone { now } => self.chunk_done(now),
            StreamEvent::Closed => {
                let mut actions: Vec<StreamAction> = Vec::new();
                self.close_line(None, &mut actions);
                actions.push(StreamAction::Emit(Piece::Newline));
                actions.push(StreamAction::SyncFile);
                actions.push(StreamAction::Stop);
                actions
            },
        }
    }

    /// Adds the line of the word that waits for its end, if there is one.
    fn close_line(&mut self, stop_time: Option<u64>, actions: &mut Vec<StreamAction>)
        ensures
            final(self)@ == (StreamState { last_word: None, ..old(self)@ }),
            action_views(final(actions)@) == action_views(old(actions)@) + old(self)@.closed_line(
                stop_time,
            ),
    {
        proof {
            use_type_invariant(&*self);
        }
        let mut waiting: Option<(String, u64)> = None;
        std::mem::swap(&mut waiting, &mut self.last_word);
        if let Some((word, start_time)) = waiting {
            actions.push(StreamAction::Emit(Piece::Line { word, start_time, stop_time }));
        }
        assert(action_views(actions@) =~= action_views(old(actions)@) + old(self)@.closed_line(
            stop_time,
        ));
    }

    fn received(&mut self, samples: usize, waited: u128) -> (actions: Vec<StreamAction>)
        requires
            old(self)@.accepts(
                StreamEventView::Received { samples: samples as nat, waited: waited as nat },
            ),
        ensures
            final(self)@ == old(self)@.after(
                StreamEventView::Received { samples: samples as nat, waited: waited as nat },
            ),
            action_views(actions@) == old(self)@.reply(
                StreamEventView::Received { samples: samples as nat, waited: waited as nat },
            ),
    {
        proof {
            use_type_invariant(&*self);
        }
        self.chunk_count = self.chunk_count + 1;
        self.total_samples = self.total_samples + samples;
        self.chunks_since_transcript = self.chunks_since_transcript + 1;
        let mut actions: Vec<StreamAction> = Vec::new();
        actions.push(StreamAction::CountOff);
        if self.debug && waited > LONG_WAIT {
            actions.push(StreamAction::Notice(StreamNotice::LongWait(waited)));
        }
        actions.push(StreamAction::Infer(self.chunk_count));
        actions
    }

    fn inferred(&mut self, took: u128, now: u128) -> (actions: Vec<StreamAction>)
        ensures
            final(self)@ == old(self)@.after(
                StreamEventView::Inferred { took: took as nat, now: now as nat },
            ),
            action_views(actions@) == old(self)@.reply(
                StreamEventView::Inferred { took: took as nat, now: now as nat },
            ),
    {
        proof {
            use_type_invariant(&*self);
        }
        let gap = elapsed(self.last_transcript_time, now);
        self.time_since_transcript = gap;
        let mut actions: Vec<StreamAction> = Vec::new();
        if took > SLOW_INFERENCE {
            actions.push(StreamAction::Notice(StreamNotice::SlowInference(took)));
        }
        if gap > TRANSCRIPT_TIMEOUT && !self.loss_alert_printed {
            let silent_chunks = self.chunks_since_transcript;
            actions.push(StreamAction::Notice(StreamNotice::TranscriptLoss { silent_chunks, gap }));
            actions.push(StreamAction::Emit(Piece::NoTranscript(gap / NANOS_PER_SEC)));
            self.loss_alert_printed = true;
        }
        actions
    }

    fn scored(&mut self, scores: &Vec<Vec<u32>>) -> (actions: Vec<StreamAction>)
        requires
            old(self)@.vad ==> has_vad_score(score_rows(scores@)),
        ensures
            final(self)@ == old(self)@.after(
                StreamEventView::Step { scores: score_rows(scores@) },
            ),
            action_views(actions@) == old(self)@.reply(
                StreamEventView::Step { scores: score_rows(scores@) },
            ),
    {
        proof {
            use_type_invariant(&*self);
        }
        let mut actions: Vec<StreamAction> = Vec::new();
        if self.vad && is_end_of_turn(vad_score(scores)) && !self.last_print_was_vad {
            actions.push(StreamAction::Emit(Piece::EndOfTurn));
            self.last_print_was_vad = true;
        }
        actions
    }

    fn word(&mut self, decoded: Option<String>, start_time: u64, now: u128) -> (actions: Vec<
        StreamAction,
    >)
        ensures
            ({
                let event = StreamEvent::Word { decoded, start_time, now };
                &&& final(self)@ == old(self)@.after(event@)
                &&& action_views(actions@) == old(self)@.reply(event@)
            }),
    {
        proof {
            use_type_invariant(&*self);
        }
        let mut actions: Vec<StreamAction> = Vec::new();
        if self.loss_alert_printed {
            actions.push(
                StreamAction::Notice(StreamNotice::TranscriptResumed(self.time_since_transcript)),
            );
            actions.push(StreamAction::Emit(Piece::Resumed));
        }
        self.last_transcript_time = now;
        self.chunks_since_transcript = 0;
        self.loss_alert_printed = false;
        if self.timestamps {
            self.close_line(Some(start_time), &mut actions);
            proof {
                use_type_invariant(&*self);
            }
            self.last_word = Some((decoded_word(decoded), start_time));
        } else {
            actions.push(StreamAction::Emit(Piece::Word(decoded_word(decoded))));
        }
        self.last_print_was_vad = false;
        actions
    }

    fn chunk_done(&mut self, now: u128) -> (actions: Vec<StreamAction>)
        ensures
            final(self)@ == old(self)@.after(StreamEventView::ChunkDone { now: now as nat }),
            action_views(actions@) == old(self)@.reply(
                StreamEventView::ChunkDone { now: now as nat },
            ),
    {
        proof {
            use_type_invariant(&*self);
        }
        let mut actions: Vec<StreamAction> = Vec::new();
        if self.debug && elapsed(self.last_status_time, now) >= STATUS_INTERVAL {
            actions.push(
                StreamAction::Notice(
                    StreamNotice::Status {
                        chunks: self.chunk_count,
                        samples: self.total_samples,
                        since_transcript: self.chunks_since_transcript,
                    },
                ),
            );
            self.last_status_time = now;
        }
        actions.push(StreamAction::Wait);
        actions
    }
}

} // verus!
