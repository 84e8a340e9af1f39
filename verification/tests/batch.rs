use stt::batch::{
    end_of_turn_tag, output_text, spaced_word, timed_line, AsrMsg, BatchTranscriber, Output,
};

fn word(text: &str, start: f64) -> AsrMsg {
    AsrMsg::Word { decoded: Some(text.to_string()), start_time: start.to_bits() }
}

fn end(stop: f64) -> AsrMsg {
    AsrMsg::EndWord { stop_time: stop.to_bits() }
}

fn step(score: f32) -> AsrMsg {
    AsrMsg::Step { scores: vec![vec![0], vec![0], vec![score.to_bits()]] }
}

fn line(text: &str, start: f64, stop: Option<f64>) -> Output {
    Output::Line {
        word: text.to_string(),
        start_time: start.to_bits(),
        stop_time: stop.map(|t| t.to_bits()),
    }
}

fn outputs(vad: bool, timestamps: bool, msgs: Vec<AsrMsg>) -> Vec<Output> {
    let mut transcriber = BatchTranscriber::new(vad, timestamps);
    let mut shown = Vec::new();
    for msg in msgs {
        assert!(transcriber.accepts(&msg));
        shown.extend(transcriber.step(msg));
    }
    shown.extend(transcriber.finish());
    shown
}

#[test]
fn words_have_lines_with_timestamps() {
    let shown = outputs(
        false,
        true,
        vec![word("one", 0.0), end(0.4), word("two", 0.8), word("three", 1.2), end(1.6)],
    );
    assert_eq!(
        shown,
        vec![
            line("one", 0.0, Some(0.4)),
            line("two", 0.8, Some(1.2)),
            line("three", 1.2, Some(1.6)),
        ]
    );
}

#[test]
fn messages_can_come_all_at_once() {
    let msgs = || vec![step(0.9), word("one", 0.0), end(0.4), word("two", 0.8), step(0.7)];
    for timestamps in [false, true] {
        let mut transcriber = BatchTranscriber::new(true, timestamps);
        let (mut shown, handled) = transcriber.step_all(msgs());
        assert_eq!(handled, 5);
        shown.extend(transcriber.finish());
        assert_eq!(shown, outputs(true, timestamps, msgs()));
    }
}

#[test]
fn messages_before_one_without_a_score_are_handled() {
    let msgs = || {
        let bare = AsrMsg::Step { scores: vec![] };
        vec![word("one", 0.0), step(0.9), bare, word("two", 0.8)]
    };
    let mut transcriber = BatchTranscriber::new(true, false);
    let (shown, handled) = transcriber.step_all(msgs());
    assert_eq!(handled, 2);
    assert_eq!(
        shown,
        vec![
            Output::Word("one".to_string()),
            Output::EndOfTurn { score: 0.9f32.to_bits() },
        ]
    );
    // Where turns are not shown, no score is needed.
    let (shown, handled) = BatchTranscriber::new(false, false).step_all(msgs());
    assert_eq!(handled, 4);
    assert_eq!(shown, vec![Output::Word("one".to_string()), Output::Word("two".to_string())]);
}

#[test]
fn each_output_has_its_own_text() {
    let turn = Output::EndOfTurn { score: 0.75f32.to_bits() };
    let lone = Output::Word("word".to_string());
    let open = line("word", 1.5, None);
    let closed = line("word", 1.5, Some(12.25));
    for timestamps in [false, true] {
        let text = |output: &Output, stop: Option<&str>| {
            output_text(output, timestamps, " 1.50", stop, "0.75")
        };
        assert_eq!(text(&turn, None), end_of_turn_tag(timestamps, "0.75"));
        assert_eq!(text(&lone, None), " word");
        assert_eq!(text(&open, None), "[ 1.50-     ] word\n");
        assert_eq!(text(&closed, Some("12.25")), "[ 1.50-12.25] word\n");
    }
}

#[test]
fn last_word_has_an_open_end() {
    let shown = outputs(true, true, vec![word("one", 0.5), step(0.1)]);
    assert_eq!(shown, vec![line("one", 0.5, None)]);
}

#[test]
fn an_end_without_a_word_adds_nothing() {
    let shown = outputs(false, true, vec![end(0.1), word("one", 0.5), end(0.6), end(0.7)]);
    assert_eq!(shown, vec![line("one", 0.5, Some(0.6))]);
}

#[test]
fn words_stand_alone_without_timestamps() {
    let shown = outputs(
        false,
        false,
        vec![
            word("one", 0.0),
            end(0.4),
            AsrMsg::Word { decoded: None, start_time: 0 },
            word("two", 0.8),
        ],
    );
    assert_eq!(
        shown,
        vec![
            Output::Word("one".to_string()),
            Output::Word(String::new()),
            Output::Word("two".to_string()),
        ]
    );
}

#[test]
fn finishing_twice_adds_nothing() {
    let mut transcriber = BatchTranscriber::new(false, true);
    assert_eq!(transcriber.step(word("one", 1.0)), None);
    assert_eq!(transcriber.finish(), Some(line("one", 1.0, None)));
    assert_eq!(transcriber.finish(), None);
}

#[test]
fn end_of_turn_is_shown_once_between_boundaries() {
    let shown = outputs(
        true,
        false,
        vec![step(0.6), step(0.9), word("a", 0.0), step(0.4), step(0.75), end(1.0), step(0.8)],
    );
    assert_eq!(
        shown,
        vec![
            Output::EndOfTurn { score: 0.6f32.to_bits() },
            Output::Word("a".to_string()),
            Output::EndOfTurn { score: 0.75f32.to_bits() },
            Output::EndOfTurn { score: 0.8f32.to_bits() },
        ]
    );
    assert_eq!(outputs(false, false, vec![step(0.9)]), vec![]);
}

#[test]
fn steps_need_a_score_where_turns_are_shown() {
    let bare = AsrMsg::Step { scores: vec![vec![0], vec![0]] };
    assert!(!BatchTranscriber::new(true, false).accepts(&bare));
    assert!(BatchTranscriber::new(false, false).accepts(&bare));
    assert!(BatchTranscriber::new(true, false).accepts(&word("a", 0.0)));
}

#[test]
fn only_lone_words_are_urgent() {
    assert!(Output::Word("a".to_string()).is_urgent());
    assert!(!line("a", 0.0, None).is_urgent());
    assert!(!Output::EndOfTurn { score: 0 }.is_urgent());
}

#[test]
fn outputs_read_as_documented() {
    let time = |t: f64| format!("{:5.2}", t);
    assert_eq!(timed_line(&time(1.5), Some(&time(12.25)), "word"), "[ 1.50-12.25] word\n");
    assert_eq!(timed_line(&time(1.5), None, "word"), "[ 1.50-     ] word\n");
    assert_eq!(end_of_turn_tag(false, "0.75"), " <endofturn pr=0.75>");
    assert_eq!(end_of_turn_tag(true, "0.75"), "<endofturn pr=0.75>\n");
    assert_eq!(spaced_word("word"), " word");
}

fn text(vad: bool, timestamps: bool, msgs: Vec<AsrMsg>) -> String {
    let time = |bits: u64| format!("{:5.2}", f64::from_bits(bits));
    let mut text = String::new();
    for output in outputs(vad, timestamps, msgs) {
        let (start, stop, score) = match &output {
            Output::EndOfTurn { score } => (0, None, f32::from_bits(*score).to_string()),
            Output::Word(_) => (0, None, String::new()),
            Output::Line { start_time, stop_time, .. } => (*start_time, *stop_time, String::new()),
        };
        let stop = stop.map(time);
        text.push_str(&output_text(&output, timestamps, &time(start), stop.as_deref(), &score));
    }
    text
}

#[test]
fn a_plain_transcript_is_its_words() {
    let msgs = vec![step(0.9), word("one", 0.0), end(0.5), word("two", 1.0), step(0.9)];
    assert_eq!(text(false, false, msgs), " one two");
    assert_eq!(text(false, false, vec![]), "");
}

#[test]
fn a_timed_transcript_is_its_lines() {
    let msgs = vec![word("one", 0.0), end(0.5), word("two", 1.0), step(0.9), word("three", 1.5)];
    assert_eq!(
        text(false, true, msgs),
        "[ 0.00- 0.50] one\n[ 1.00- 1.50] two\n[ 1.50-     ] three\n"
    );
}

#[test]
fn ends_of_turns_read_by_form() {
    let msgs = || vec![word("one", 0.0), end(0.5), step(0.75), word("two", 1.0)];
    assert_eq!(text(true, false, msgs()), " one <endofturn pr=0.75> two");
    assert_eq!(
        text(true, true, msgs()),
        "[ 0.00- 0.50] one\n<endofturn pr=0.75>\n[ 1.00-     ] two\n"
    );
}

#[test]
fn a_batch_transcript_only_grows() {
    let msgs = || vec![word("one", 0.0), end(0.5), step(0.75), word("two", 1.0), end(1.5)];
    for timestamps in [false, true] {
        let mut transcriber = BatchTranscriber::new(true, timestamps);
        let mut shown = Vec::new();
        for msg in msgs() {
            shown.extend(transcriber.step(msg));
            let whole = outputs(true, timestamps, msgs());
            assert_eq!(shown[..], whole[..shown.len()]);
        }
    }
}
