use stt::streaming::{
    Piece, StreamAction, StreamEvent, StreamNotice, StreamingSession, LONG_WAIT, SLOW_INFERENCE,
};

const SEC: u128 = 1_000_000_000;

fn word(text: &str, now: u128) -> StreamEvent {
    timed_word(text, 0.0, now)
}

fn timed_word(text: &str, start: f64, now: u128) -> StreamEvent {
    StreamEvent::Word { decoded: Some(text.to_string()), start_time: start.to_bits(), now }
}

fn end(stop: f64) -> StreamEvent {
    StreamEvent::EndWord { stop_time: stop.to_bits() }
}

fn line(text: &str, start: f64, stop: Option<f64>) -> StreamAction {
    StreamAction::Emit(Piece::Line {
        word: text.to_string(),
        start_time: start.to_bits(),
        stop_time: stop.map(|t| t.to_bits()),
    })
}

fn time_text(bits: u64) -> String {
    format!("{:5.2}", f64::from_bits(bits))
}

fn text_of(piece: &Piece) -> String {
    match piece {
        Piece::Line { start_time, stop_time, .. } => {
            let stop = stop_time.map(time_text);
            piece.text(&time_text(*start_time), stop.as_deref())
        }
        _ => piece.text("", None),
    }
}

fn step(score: f32) -> StreamEvent {
    StreamEvent::Step {
        scores: vec![vec![0], vec![0], vec![score.to_bits()], vec![0]],
    }
}

fn tell_all(session: &mut StreamingSession, events: Vec<StreamEvent>) -> Vec<StreamAction> {
    let mut actions = Vec::new();
    for event in events {
        assert!(session.accepts(&event));
        actions.extend(session.step(event));
    }
    actions
}

fn transcript(actions: &[StreamAction]) -> String {
    let mut text = String::new();
    for action in actions {
        if let StreamAction::Emit(piece) = action {
            text.push_str(&text_of(piece));
        }
    }
    text
}

#[test]
fn pieces_read_as_documented() {
    assert_eq!(text_of(&Piece::AudioTimeout), " [LOS:audio_timeout]");
    assert_eq!(text_of(&Piece::NoTranscript(10)), " [LOS:no_transcript_10s]");
    assert_eq!(text_of(&Piece::NoTranscript(0)), " [LOS:no_transcript_0s]");
    assert_eq!(text_of(&Piece::EndOfTurn), " [end of turn detected]");
    assert_eq!(text_of(&Piece::Resumed), " [RESUMED]");
    assert_eq!(text_of(&Piece::Word("caf\u{e9}".to_string())), " caf\u{e9}");
    assert_eq!(text_of(&Piece::Word(String::new())), " ");
    assert_eq!(text_of(&Piece::Newline), "\n");
    let line = Piece::Line { word: "word".to_string(), start_time: 0, stop_time: Some(1) };
    assert_eq!(line.text(" 1.50", Some("12.25")), "[ 1.50-12.25] word\n");
    assert_eq!(line.text(" 1.50", None), "[ 1.50-     ] word\n");
}

#[test]
fn every_word_is_shown_in_order() {
    let mut session = StreamingSession::new(true, false, false, 0);
    let actions = tell_all(
        &mut session,
        vec![
            StreamEvent::Received { samples: 1920, waited: 0 },
            StreamEvent::Inferred { took: 0, now: SEC },
            word("hello", SEC),
            end(1.0),
            step(0.9),
            word("there", 2 * SEC),
            StreamEvent::Word { decoded: None, start_time: 0, now: 3 * SEC },
            StreamEvent::ChunkDone { now: 3 * SEC },
            StreamEvent::Closed,
        ],
    );
    assert_eq!(transcript(&actions), " hello [end of turn detected] there \n");
}

#[test]
fn words_of_undecodable_tokens_are_empty() {
    let mut session = StreamingSession::new(false, false, false, 0);
    let actions = session.step(StreamEvent::Word { decoded: None, start_time: 0, now: 1 });
    assert_eq!(actions, vec![StreamAction::Emit(Piece::Word(String::new()))]);
}

#[test]
fn silence_raises_one_alert_until_a_word() {
    let mut session = StreamingSession::new(false, false, false, 0);
    for _ in 0..3 {
        session.step(StreamEvent::Received { samples: 1920, waited: 0 });
    }
    // Exactly ten seconds are not yet too long.
    let actions = session.step(StreamEvent::Inferred { took: 0, now: 10 * SEC });
    assert_eq!(actions, vec![]);
    let actions = session.step(StreamEvent::Inferred { took: 0, now: 12 * SEC + 999_999_999 });
    let gap = 12 * SEC + 999_999_999;
    assert_eq!(
        actions,
        vec![
            StreamAction::Notice(StreamNotice::TranscriptLoss { silent_chunks: 3, gap }),
            StreamAction::Emit(Piece::NoTranscript(12)),
        ]
    );
    let actions = session.step(StreamEvent::Inferred { took: 0, now: 30 * SEC });
    assert_eq!(actions, vec![]);
    // The gap is the one that was measured after the last inference.
    let actions = session.step(word("back", 31 * SEC));
    assert_eq!(
        actions,
        vec![
            StreamAction::Notice(StreamNotice::TranscriptResumed(30 * SEC)),
            StreamAction::Emit(Piece::Resumed),
            StreamAction::Emit(Piece::Word("back".to_string())),
        ]
    );
    let actions = session.step(word("again", 32 * SEC));
    assert_eq!(actions, vec![StreamAction::Emit(Piece::Word("again".to_string()))]);
}

#[test]
fn alerts_and_resumptions_take_turns() {
    let mut session = StreamingSession::new(false, false, false, 0);
    let actions = tell_all(
        &mut session,
        vec![
            StreamEvent::Inferred { took: 0, now: 11 * SEC },
            StreamEvent::Inferred { took: 0, now: 12 * SEC },
            word("a", 13 * SEC),
            StreamEvent::Inferred { took: 0, now: 23 * SEC },
            StreamEvent::Inferred { took: 0, now: 24 * SEC },
            word("b", 25 * SEC),
        ],
    );
    assert_eq!(
        transcript(&actions),
        " [LOS:no_transcript_11s] [RESUMED] a [LOS:no_transcript_11s] [RESUMED] b"
    );
}

#[test]
fn end_of_turn_is_shown_once_between_words() {
    let mut session = StreamingSession::new(true, false, false, 0);
    assert_eq!(session.step(step(0.5)), vec![]);
    assert_eq!(session.step(step(0.50001)), vec![StreamAction::Emit(Piece::EndOfTurn)]);
    assert_eq!(session.step(step(0.99)), vec![]);
    session.step(word("next", 1));
    assert_eq!(session.step(step(1.0)), vec![StreamAction::Emit(Piece::EndOfTurn)]);
}

#[test]
fn end_of_turn_needs_vad() {
    let mut session = StreamingSession::new(false, false, true, 0);
    let bare = StreamEvent::Step { scores: vec![] };
    assert!(session.accepts(&bare));
    assert_eq!(session.step(bare), vec![]);
    assert_eq!(session.step(step(1.0)), vec![]);

    let session = StreamingSession::new(true, false, false, 0);
    assert!(!session.accepts(&StreamEvent::Step { scores: vec![] }));
    assert!(!session.accepts(&StreamEvent::Step { scores: vec![vec![1], vec![1], vec![]] }));
    assert!(session.accepts(&StreamEvent::Step { scores: vec![vec![], vec![], vec![1]] }));
}

#[test]
fn stalled_audio_is_marked() {
    let mut session = StreamingSession::new(true, false, true, 0);
    assert_eq!(
        session.step(StreamEvent::Stalled),
        vec![
            StreamAction::Notice(StreamNotice::AudioStalled),
            StreamAction::Emit(Piece::AudioTimeout),
            StreamAction::Wait,
        ]
    );
    assert_eq!(session.chunk_count(), 0);
}

#[test]
fn slow_inference_is_reported_before_an_alert() {
    let mut session = StreamingSession::new(false, false, false, 0);
    assert_eq!(session.step(StreamEvent::Inferred { took: SLOW_INFERENCE, now: 1 }), vec![]);
    let actions = session.step(StreamEvent::Inferred { took: SLOW_INFERENCE + 1, now: 11 * SEC });
    assert_eq!(
        actions,
        vec![
            StreamAction::Notice(StreamNotice::SlowInference(200_000_001)),
            StreamAction::Notice(StreamNotice::TranscriptLoss { silent_chunks: 0, gap: 11 * SEC }),
            StreamAction::Emit(Piece::NoTranscript(11)),
        ]
    );
}

#[test]
fn long_waits_are_reported_in_debug_mode() {
    let mut quiet = StreamingSession::new(false, false, false, 0);
    let mut debug = StreamingSession::new(false, false, true, 0);
    let wait = |waited| StreamEvent::Received { samples: 1, waited };
    let prompt = vec![StreamAction::CountOff, StreamAction::Infer(1)];
    assert_eq!(quiet.step(wait(LONG_WAIT + 1)), prompt);
    assert_eq!(debug.step(wait(LONG_WAIT)), prompt);
    assert_eq!(
        debug.step(wait(LONG_WAIT + 1)),
        vec![
            StreamAction::CountOff,
            StreamAction::Notice(StreamNotice::LongWait(100_000_001)),
            StreamAction::Infer(2),
        ]
    );
}

#[test]
fn status_comes_every_five_seconds_in_debug_mode() {
    let mut session = StreamingSession::new(false, false, true, 7);
    session.step(StreamEvent::Received { samples: 1920, waited: 0 });
    session.step(word("x", 8));
    session.step(StreamEvent::Received { samples: 80, waited: 0 });
    assert_eq!(session.step(StreamEvent::ChunkDone { now: 5 * SEC + 6 }), vec![StreamAction::Wait]);
    assert_eq!(
        session.step(StreamEvent::ChunkDone { now: 5 * SEC + 7 }),
        vec![
            StreamAction::Notice(StreamNotice::Status {
                chunks: 2,
                samples: 2000,
                since_transcript: 1
            }),
            StreamAction::Wait,
        ]
    );
    assert_eq!(session.step(StreamEvent::ChunkDone { now: 6 * SEC }), vec![StreamAction::Wait]);
    let mut quiet = StreamingSession::new(false, false, false, 0);
    assert_eq!(quiet.step(StreamEvent::ChunkDone { now: 100 * SEC }), vec![StreamAction::Wait]);
}

#[test]
fn counters_count_what_was_received() {
    let mut session = StreamingSession::new(false, false, false, 0);
    tell_all(
        &mut session,
        vec![
            StreamEvent::Received { samples: 10, waited: 0 },
            StreamEvent::Stalled,
            StreamEvent::Received { samples: 20, waited: 0 },
            StreamEvent::Closed,
        ],
    );
    assert_eq!(session.chunk_count(), 2);
    assert!(session.accepts(&StreamEvent::Received { samples: usize::MAX - 30, waited: 0 }));
    assert!(!session.accepts(&StreamEvent::Received { samples: usize::MAX - 29, waited: 0 }));
}

#[test]
fn closing_ends_the_line_and_syncs() {
    let mut session = StreamingSession::new(false, false, false, 0);
    assert_eq!(
        session.step(StreamEvent::Closed),
        vec![StreamAction::Emit(Piece::Newline), StreamAction::SyncFile, StreamAction::Stop]
    );
}

#[test]
fn transcript_only_grows() {
    let mut session = StreamingSession::new(true, false, false, 0);
    let mut text = String::new();
    for event in [
        word("one", 1),
        step(0.7),
        StreamEvent::Stalled,
        StreamEvent::Inferred { took: 0, now: 60 * SEC },
        word("two", 61 * SEC),
        StreamEvent::Closed,
    ] {
        let before = text.clone();
        text.push_str(&transcript(&session.step(event)));
        assert!(text.starts_with(&before));
    }
    assert_eq!(
        text,
        " one [end of turn detected] [LOS:audio_timeout] [LOS:no_transcript_59s] [RESUMED] two\n"
    );
}

#[test]
fn words_of_a_live_session_have_lines_with_timestamps() {
    let mut session = StreamingSession::new(false, true, false, 0);
    assert_eq!(session.step(timed_word("hi", 0.5, 1)), vec![]);
    let actions = session.step(end(1.0));
    assert_eq!(actions, vec![line("hi", 0.5, Some(1.0))]);
    assert_eq!(transcript(&actions), "[ 0.50- 1.00] hi\n");
}

#[test]
fn a_live_word_ends_where_the_next_begins() {
    let mut session = StreamingSession::new(false, true, false, 0);
    assert_eq!(session.step(timed_word("one", 0.0, 1)), vec![]);
    assert_eq!(session.step(timed_word("two", 0.75, 2)), vec![line("one", 0.0, Some(0.75))]);
    assert_eq!(session.step(StreamEvent::ChunkDone { now: 3 }), vec![StreamAction::Wait]);
    assert_eq!(session.step(end(1.5)), vec![line("two", 0.75, Some(1.5))]);
    assert_eq!(session.step(end(2.0)), vec![]);
}

#[test]
fn the_last_live_word_has_an_open_end() {
    let mut session = StreamingSession::new(false, true, false, 0);
    session.step(timed_word("bye", 12.25, 1));
    let actions = session.step(StreamEvent::Closed);
    assert_eq!(
        actions,
        vec![
            line("bye", 12.25, None),
            StreamAction::Emit(Piece::Newline),
            StreamAction::SyncFile,
            StreamAction::Stop,
        ]
    );
    assert_eq!(transcript(&actions), "[12.25-     ] bye\n\n");
    assert_eq!(
        session.step(StreamEvent::Closed),
        vec![StreamAction::Emit(Piece::Newline), StreamAction::SyncFile, StreamAction::Stop]
    );
}

#[test]
fn a_live_end_without_a_word_adds_nothing() {
    for timestamps in [false, true] {
        let mut session = StreamingSession::new(true, timestamps, true, 0);
        assert_eq!(session.step(end(0.5)), vec![]);
    }
}

#[test]
fn every_timed_live_word_is_shown_in_order() {
    let mut session = StreamingSession::new(true, true, false, 0);
    let actions = tell_all(
        &mut session,
        vec![
            timed_word("one", 0.0, 1),
            step(0.9),
            StreamEvent::Inferred { took: 0, now: 11 * SEC },
            timed_word("two", 10.5, 11 * SEC),
            end(11.0),
            StreamEvent::Word { decoded: None, start_time: 11.5f64.to_bits(), now: 12 * SEC },
            StreamEvent::Closed,
        ],
    );
    assert_eq!(
        transcript(&actions),
        " [end of turn detected] [LOS:no_transcript_10s] [RESUMED][ 0.00-10.50] one\n\
         [10.50-11.00] two\n[11.50-     ] \n\n"
    );
}

#[test]
fn timestamps_fix_the_form_of_live_words() {
    for timestamps in [false, true] {
        let mut session = StreamingSession::new(false, timestamps, false, 0);
        let actions = tell_all(
            &mut session,
            vec![timed_word("a", 0.5, 1), timed_word("b", 1.0, 2), end(1.5), StreamEvent::Closed],
        );
        for action in &actions {
            match action {
                StreamAction::Emit(Piece::Word(_)) => assert!(!timestamps),
                StreamAction::Emit(Piece::Line { .. }) => assert!(timestamps),
                _ => {}
            }
        }
        assert_eq!(actions.len(), 5);
    }
}

#[test]
fn received_chunks_are_counted_off_once() {
    let mut session = StreamingSession::new(true, true, true, 0);
    let actions = tell_all(
        &mut session,
        vec![
            StreamEvent::Received { samples: 1920, waited: 2 * LONG_WAIT },
            StreamEvent::Inferred { took: 0, now: 20 * SEC },
            word("x", 21 * SEC),
            StreamEvent::ChunkDone { now: 22 * SEC },
            StreamEvent::Stalled,
            StreamEvent::Received { samples: 0, waited: 0 },
            StreamEvent::Closed,
        ],
    );
    let counted = actions.iter().filter(|a| **a == StreamAction::CountOff).count();
    assert_eq!(counted, 2);
}

fn is_operation(action: &StreamAction) -> bool {
    matches!(action, StreamAction::Wait | StreamAction::Infer(_) | StreamAction::Stop)
}

#[test]
fn replies_say_how_to_go_on() {
    let mut session = StreamingSession::new(true, true, true, 0);
    let actions = tell_all(
        &mut session,
        vec![
            StreamEvent::Stalled,
            StreamEvent::Received { samples: 1920, waited: 2 * LONG_WAIT },
            StreamEvent::Inferred { took: 2 * SLOW_INFERENCE, now: 20 * SEC },
            step(0.9),
            word("x", 21 * SEC),
            end(1.0),
            StreamEvent::ChunkDone { now: 22 * SEC },
            StreamEvent::Received { samples: 1920, waited: 0 },
            StreamEvent::Inferred { took: 0, now: 23 * SEC },
            StreamEvent::ChunkDone { now: 24 * SEC },
            StreamEvent::Closed,
        ],
    );
    let operations: Vec<&StreamAction> = actions.iter().filter(|a| is_operation(a)).collect();
    assert_eq!(
        operations,
        vec![
            &StreamAction::Wait,
            &StreamAction::Infer(1),
            &StreamAction::Wait,
            &StreamAction::Infer(2),
            &StreamAction::Wait,
            &StreamAction::Stop,
        ]
    );
}

#[test]
fn obeying_a_session_processes_every_chunk_once() {
    let mut session = StreamingSession::new(false, false, false, 0);
    let mut chunks = vec![30, 20, 10];
    let mut arrived = 0;
    let mut processed = Vec::new();
    let mut operation = StreamAction::Wait;
    loop {
        let events = match operation {
            StreamAction::Wait => match chunks.pop() {
                Some(samples) => {
                    arrived = samples;
                    vec![StreamEvent::Received { samples, waited: 0 }]
                }
                None => vec![StreamEvent::Closed],
            },
            StreamAction::Infer(number) => {
                processed.push((number, arrived));
                vec![
                    StreamEvent::Inferred { took: 0, now: 1 },
                    word("w", 1),
                    StreamEvent::ChunkDone { now: 1 },
                ]
            }
            _ => break,
        };
        let actions = tell_all(&mut session, events);
        operation = actions.into_iter().filter(is_operation).last().unwrap();
    }
    assert_eq!(processed, vec![(1, 10), (2, 20), (3, 30)]);
}

#[test]
fn no_word_stands_within_an_alert() {
    let mut session = StreamingSession::new(true, false, false, 0);
    let actions = tell_all(
        &mut session,
        vec![
            word("a", 1),
            StreamEvent::Inferred { took: 0, now: 12 * SEC },
            step(0.9),
            StreamEvent::Stalled,
            word("b", 13 * SEC),
            word("c", 14 * SEC),
            StreamEvent::Inferred { took: 0, now: 30 * SEC },
        ],
    );
    assert_eq!(
        transcript(&actions),
        " a [LOS:no_transcript_11s] [end of turn detected] [LOS:audio_timeout] [RESUMED] b c \
         [LOS:no_transcript_16s]"
    );
}

#[test]
fn debug_mode_only_adds_reports() {
    let events = || {
        vec![
            StreamEvent::Received { samples: 1920, waited: 2 * LONG_WAIT },
            StreamEvent::Inferred { took: 2 * SLOW_INFERENCE, now: 20 * SEC },
            word("x", 21 * SEC),
            StreamEvent::ChunkDone { now: 22 * SEC },
            StreamEvent::Closed,
        ]
    };
    let quiet = tell_all(&mut StreamingSession::new(true, true, false, 0), events());
    let mut loud = tell_all(&mut StreamingSession::new(true, true, true, 0), events());
    assert_eq!(loud.len(), quiet.len() + 2);
    loud.retain(|action| {
        !matches!(
            action,
            StreamAction::Notice(StreamNotice::LongWait(_) | StreamNotice::Status { .. })
        )
    });
    assert_eq!(loud, quiet);
}
