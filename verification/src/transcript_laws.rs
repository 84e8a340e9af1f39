//! How the parts of a transcript read, character by character.

use vstd::prelude::*;
use vstd::string::*;

use crate::batch::{end_of_turn_tag, output_text, spaced_word, timed_line, Output};
use crate::streaming::Piece;
use crate::text::{is_numeral, lemma_decimal_is_numeral};

verus! {

/// Whether `part` stands whole in `text`, from position `at` on.
pub open spec fn stands_at(text: Seq<char>, at: int, part: Seq<char>) -> bool {
    &&& 0 <= at
    &&& at + part.len() <= text.len()
    &&& forall|i: int| 0 <= i < part.len() ==> text[at + i] == #[trigger] part[i]
}

/// The text that stands for the end of a word: the time, whole, or as many spaces as a short time
/// has characters.
pub open spec fn stop_or_blank(stop: Option<&str>) -> Seq<char> {
    match stop {
        Some(stop) => stop@,
        None => seq![' ', ' ', ' ', ' ', ' '],
    }
}

/// Whether `text` is a line that holds two times and a word, whole and in this order, and nothing
/// else but a bracket, a hyphen, a bracket, a space and a newline around them.
pub open spec fn is_line(
    text: Seq<char>,
    start: Seq<char>,
    stop: Seq<char>,
    word: Seq<char>,
) -> bool {
    let n = text.len();
    &&& n == start.len() + stop.len() + word.len() + 5
    &&& text[0] == '['
    &&& stands_at(text, 1, start)
    &&& text[start.len() as int + 1] == '-'
    &&& stands_at(text, start.len() as int + 2, stop)
    &&& text[n - word.len() - 3] == ']'
    &&& text[n - word.len() - 2] == ' '
    &&& stands_at(text, n - 1 - word.len(), word)
    &&& text[n - 1] == '\n'
}

/// Whether `text` is the word, whole, behind one space.
pub open spec fn is_spaced(text: Seq<char>, word: Seq<char>) -> bool {
    &&& text.len() == word.len() + 1
    &&& text[0] == ' '
    &&& stands_at(text, 1, word)
}

/// Whether `text` marks the end of a turn and holds the score, whole: on a line of its own where
/// words have lines, and behind a space otherwise.
pub open spec fn is_turn(text: Seq<char>, timestamps: bool, score: Seq<char>) -> bool {
    let n = text.len();
    let tag = "<endofturn pr="@;
    &&& n == tag.len() + score.len() + 2
    &&& if timestamps {
        &&& stands_at(text, 0, tag)
        &&& stands_at(text, tag.len() as int, score)
        &&& text[n - 2] == '>'
        &&& text[n - 1] == '\n'
    } else {
        &&& text[0] == ' '
        &&& stands_at(text, 1, tag)
        &&& stands_at(text, tag.len() as int + 1, score)
        &&& text[n - 1] == '>'
    }
}

/// A line holds both times and the word whole, however long they are; the end is blank where there
/// is none.
pub proof fn law_line_holds_times_and_word(
    start: &str,
    stop: Option<&str>,
    word: &str,
    line: String,
)
    requires
        call_ensures(timed_line, (start, stop, word), line),
    ensures
        is_line(line@, start@, stop_or_blank(stop), word@),
{
    lemma_line_literals();
}

/// A word by itself is the word, whole, behind a space.
pub proof fn law_lone_word_is_spaced(word: &str, text: String)
    requires
        call_ensures(spaced_word, (word,), text),
    ensures
        is_spaced(text@, word@),
{
    reveal_strlit(" ");
}

/// The remark on the end of a turn holds the score whole.
pub proof fn law_turn_holds_score(timestamps: bool, score: &str, text: String)
    requires
        call_ensures(end_of_turn_tag, (timestamps, score), text),
    ensures
        is_turn(text@, timestamps, score@),
{
    lemma_turn_literals();
}

/// Each part of the transcript of a recording reads as what it is: a turn with its score, a word
/// behind a space, or a line with the times and the word, all of them whole.
pub proof fn law_output_reads_as_what_it_is(
    output: Output,
    timestamps: bool,
    start: &str,
    stop: Option<&str>,
    score: &str,
    text: String,
)
    requires
        call_ensures(output_text, (&output, timestamps, start, stop, score), text),
    ensures
        match output {
            Output::EndOfTurn { score: bits } => is_turn(text@, timestamps, score@),
            Output::Word(word) => is_spaced(text@, word@),
            Output::Line { word, start_time, stop_time } => is_line(
                text@,
                start@,
                stop_or_blank(stop),
                word@,
            ),
        },
{
    lemma_turn_literals();
    lemma_line_literals();
    reveal_strlit(" ");
}

/// Each piece of a live transcript reads as what it is. An alert holds the number of seconds in
/// decimal, whole.
pub proof fn law_piece_reads_as_what_it_is(
    piece: Piece,
    start: &str,
    stop: Option<&str>,
    text: String,
)
    requires
        call_ensures(Piece::text, (&piece, start, stop), text),
    ensures
        match piece {
            Piece::AudioTimeout => text@ == " [LOS:audio_timeout]"@,
            Piece::NoTranscript(secs) => exists|digits: Seq<char>|
                is_numeral(digits, secs as nat) && text@ == " [LOS:no_transcript_"@ + digits
                    + "s]"@,
            Piece::EndOfTurn => text@ == " [end of turn detected]"@,
            Piece::Resumed => text@ == " [RESUMED]"@,
            Piece::Word(word) => is_spaced(text@, word@),
            Piece::Line { word, start_time, stop_time } => is_line(
                text@,
                start@,
                stop_or_blank(stop),
                word@,
            ),
            Piece::Newline => text@ == seq!['\n'],
        },
{
    lemma_line_literals();
    reveal_strlit(" ");
    assert("\n"@ =~= seq!['\n']);
    if let Piece::NoTranscript(secs) = piece {
        lemma_decimal_is_numeral(secs as nat);
    }
}

/// Only a word by itself has to be seen at once.
pub proof fn law_lone_words_are_urgent(output: Output, urgent: bool)
    requires
        call_ensures(Output::is_urgent, (&output,), urgent),
    ensures
        urgent <==> (output matches Output::Word(_)),
{
}

pub(crate) proof fn lemma_line_literals()
    ensures
        "["@ == seq!['['],
        "-"@ == seq!['-'],
        "     "@ == seq![' ', ' ', ' ', ' ', ' '],
        "] "@ == seq![']', ' '],
        "\n"@ == seq!['\n'],
{
    reveal_strlit("[");
    reveal_strlit("-");
    reveal_strlit("     ");
    reveal_strlit("] ");
    reveal_strlit("\n");
    assert("["@ =~= seq!['[']);
    assert("-"@ =~= seq!['-']);
    assert("     "@ =~= seq![' ', ' ', ' ', ' ', ' ']);
    assert("] "@ =~= seq![']', ' ']);
    assert("\n"@ =~= seq!['\n']);
}

proof fn lemma_turn_literals()
    ensures
        " <endofturn pr="@ == seq![' '] + "<endofturn pr="@,
        ">"@ == seq!['>'],
        ">\n"@ == seq!['>', '\n'],
{
    reveal_strlit("<endofturn pr=");
    reveal_strlit(" <endofturn pr=");
    reveal_strlit(">");
    reveal_strlit(">\n");
    assert(" <endofturn pr="@ =~= seq![' '] + "<endofturn pr="@);
    assert(">"@ =~= seq!['>']);
    assert(">\n"@ =~= seq!['>', '\n']);
}

} // verus!
