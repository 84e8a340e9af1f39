//! The voice activity scores that the model gives with each step.

use vstd::prelude::*;

use crate::single::{greater, greater_spec};

verus! {

/// The bit pattern of one half: a score above it marks the end of a turn.
pub const VAD_THRESHOLD_BITS: u32 = 0x3f00_0000;

/// The score that the end of a turn is told from, as position in the row of scores.
pub const VAD_HEAD: usize = 2;

/// The scores of a step, one row for each head, as bit patterns of single-precision numbers.
pub open spec fn score_rows(scores: Seq<Vec<u32>>) -> Seq<Seq<u32>> {
    scores.map_values(|row: Vec<u32>| row@)
}

/// Whether the scores hold the one that the end of a turn is told from.
pub open spec fn has_vad_score(scores: Seq<Seq<u32>>) -> bool {
    scores.len() > VAD_HEAD && scores[VAD_HEAD as int].len() > 0
}

/// The score that the end of a turn is told from.
pub open spec fn vad_score_of(scores: Seq<Seq<u32>>) -> u32 {
    scores[VAD_HEAD as int][0]
}

/// Whether the scores say that the speaker's turn has ended.
pub open spec fn turn_ended(scores: Seq<Seq<u32>>) -> bool {
    greater_spec(vad_score_of(scores), VAD_THRESHOLD_BITS)
}

/// Whether `scores` holds the score that the end of a turn is told from.
pub fn is_scored(scores: &Vec<Vec<u32>>) -> (r: bool)
    ensures
        r == has_vad_score(score_rows(scores@)),
{
    scores.len() > VAD_HEAD && scores[VAD_HEAD].len() > 0
}

/// The score that the end of a turn is told from.
pub fn vad_score(scores: &Vec<Vec<u32>>) -> (score: u32)
    requires
        has_vad_score(score_rows(scores@)),
    ensures
        score == vad_score_of(score_rows(scores@)),
{
    scores[VAD_HEAD][0]
}

/// Whether a score says that the speaker's turn has ended: it is above one half.
pub fn is_end_of_turn(score: u32) -> (r: bool)
    ensures
        r == greater_spec(score, VAD_THRESHOLD_BITS),
{
    greater(score, VAD_THRESHOLD_BITS)
}

/// Whether a bit pattern stands for a number above one half: such patterns lie between that of one
/// half and that of infinity.
pub open spec fn above_half(score: u32) -> bool {
    0x3f00_0000 < score <= 0x7f80_0000
}

/// A turn ends where the score is above one half.
pub proof fn law_turn_ends_above_half(score: u32, ends: bool)
    requires
        call_ensures(is_end_of_turn, (score,), ends),
    ensures
        ends <==> above_half(score),
{
}

/// The score that the end of a turn is told from is the first of the third row, whatever else the
/// scores hold; and it is there exactly where there is a third row that is not empty.
pub proof fn law_score_is_first_of_third_row(scores: &Vec<Vec<u32>>, scored: bool, score: u32)
    requires
        call_ensures(is_scored, (scores,), scored),
        call_ensures(vad_score, (scores,), score),
    ensures
        scored <==> scores@.len() >= 3 && scores@[2]@.len() >= 1,
        scored ==> score == scores@[2]@[0],
        VAD_HEAD == 2,
{
}

} // verus!
