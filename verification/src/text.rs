//! The texts that the program prints and appends to the transcript.

use vstd::prelude::*;
use vstd::string::*;

verus! {

/// The decimal digit `d`.
pub open spec fn digit(d: nat) -> char {
    if d == 0 {
        '0'
    } else if d == 1 {
        '1'
    } else if d == 2 {
        '2'
    } else if d == 3 {
        '3'
    } else if d == 4 {
        '4'
    } else if d == 5 {
        '5'
    } else if d == 6 {
        '6'
    } else if d == 7 {
        '7'
    } else if d == 8 {
        '8'
    } else {
        '9'
    }
}

/// `n` in decimal notation, without leading zeros.
pub open spec fn decimal(n: nat) -> Seq<char>
    decreases n,
{
    if n < 10 {
        seq![digit(n)]
    } else {
        decimal(n / 10).push(digit(n % 10))
    }
}

/// The number that a row of decimal digits stands for.
pub open spec fn decimal_value(s: Seq<char>) -> int
    decreases s.len(),
{
    if s.len() == 0 {
        0
    } else {
        decimal_value(s.drop_last()) * 10 + (s.last() as int - '0' as int)
    }
}

/// Reading the decimal notation of a number back gives the number, so that two numbers never
/// share one notation.
pub proof fn law_decimal_reads_back(n: nat)
    ensures
        decimal_value(decimal(n)) == n,
    decreases n,
{
    reveal_with_fuel(decimal_value, 2);
    if n < 10 {
        assert(seq![digit(n)].drop_last() =~= Seq::<char>::empty());
    } else {
        law_decimal_reads_back(n / 10);
        assert(decimal(n).drop_last() =~= decimal(n / 10));
    }
}

fn digit_text(d: u8) -> (s: &'static str)
    requires
        d < 10,
    ensures
        s@ == seq![digit(d as nat)],
{
    proof {
        reveal_strlit("0");
        reveal_strlit("1");
        reveal_strlit("2");
        reveal_strlit("3");
        reveal_strlit("4");
        reveal_strlit("5");
        reveal_strlit("6");
        reveal_strlit("7");
        reveal_strlit("8");
        reveal_strlit("9");
    }
    let s = match d {
        0 => "0",
        1 => "1",
        2 => "2",
        3 => "3",
        4 => "4",
        5 => "5",
        6 => "6",
        7 => "7",
        8 => "8",
        _ => "9",
    };
    assert(s@ =~= seq![digit(d as nat)]);
    s
}

/// `n` in decimal notation.
pub fn decimal_text(n: u128) -> (s: String)
    ensures
        s@ == decimal(n as nat),
    decreases n,
{
    if n < 10 {
        String::from_str(digit_text(n as u8))
    } else {
        let mut s = decimal_text(n / 10);
        s.append(digit_text((n % 10) as u8));
        assert(s@ =~= decimal(n as nat));
        s
    }
}

/// What a decoded word stands for, where the decoding may have failed.
pub open spec fn decoded_view(decoded: Option<String>) -> Option<Seq<char>> {
    match decoded {
        Some(word) => Some(word@),
        None => None,
    }
}

/// The word that a decoding gives: nothing where it failed.
pub open spec fn word_or_empty(decoded: Option<Seq<char>>) -> Seq<char> {
    match decoded {
        Some(word) => word,
        None => Seq::empty(),
    }
}

/// The word that a decoding gives, the empty one where it failed.
pub fn decoded_word(decoded: Option<String>) -> (word: String)
    ensures
        word@ == word_or_empty(decoded_view(decoded)),
{
    match decoded {
        Some(word) => word,
        None => String::new(),
    }
}

/// Whether a text is the decimal notation of `n`: digits that stand for `n`, with no zero before
/// another digit.
pub open spec fn is_numeral(s: Seq<char>, n: nat) -> bool {
    &&& s.len() > 0
    &&& forall|i: int| 0 <= i < s.len() ==> '0' <= #[trigger] s[i] && s[i] <= '9'
    &&& s.len() > 1 ==> s[0] != '0'
    &&& decimal_value(s) == n
}

/// A number is written in decimal notation: in digits that stand for it, with no leading zeros.
pub proof fn law_numbers_are_written_in_decimal(n: u128, s: String)
    requires
        call_ensures(decimal_text, (n,), s),
    ensures
        is_numeral(s@, n as nat),
{
    lemma_decimal_is_numeral(n as nat);
}

pub(crate) proof fn lemma_decimal_is_numeral(n: nat)
    ensures
        is_numeral(decimal(n), n),
        n > 0 ==> decimal(n)[0] != '0',
    decreases n,
{
    law_decimal_reads_back(n);
    if n >= 10 {
        lemma_decimal_is_numeral(n / 10);
        let front = decimal(n / 10);
        assert forall|i: int| 0 <= i < decimal(n).len() implies '0' <= #[trigger] decimal(n)[i]
            && decimal(n)[i] <= '9' by {
            if i < front.len() {
                assert(decimal(n)[i] == front[i]);
            }
        }
        assert(decimal(n)[0] == front[0]);
    }
}

/// A word is taken as it was decoded, whatever it holds, and is empty where decoding failed.
pub proof fn law_words_are_as_decoded(decoded: Option<String>, word: String)
    requires
        call_ensures(decoded_word, (decoded,), word),
    ensures
        match decoded {
            Some(text) => word@ == text@,
            None => word@.len() == 0,
        },
{
}

} // verus!
