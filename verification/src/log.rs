//! The entries of the log.
use vstd::prelude::*;
use vstd::string::StringExecFns;

verus! {

/// The decimal digit.
pub open spec fn digit(d: int) -> char {
    (d + '0' as int) as char
}

/// The number in decimal notation, without leading zeros.
pub open spec fn decimal(n: nat) -> Seq<char>
    decreases n,
{
    if n < 10 {
        seq![digit(n as int)]
    } else {
        decimal(n / 10).push(digit(n as int % 10))
    }
}

/// The text of an entry: when it was made, in seconds since 1970, and what it says, on a
/// line of its own.
pub open spec fn entry(seconds: u64, message: Seq<char>) -> Seq<char> {
    seq!['['] + decimal(seconds as nat) + seq![']', ' '] + message + seq!['\n']
}

/// The number that a row of decimal digits stands for.
pub open spec fn numeral(digits: Seq<char>) -> int
    decreases digits.len(),
{
    if digits.len() == 0 {
        0
    } else {
        10 * numeral(digits.drop_last()) + (digits.last() as int - 48)
    }
}

/// The decimal notation of a number consists of digits, stands for that number, and does
/// not begin with a zero unless it is `0`.
pub proof fn lemma_decimal_reads_back(n: nat)
    ensures
        numeral(decimal(n)) == n,
        decimal(n).len() > 0,
        forall|i: int|
            0 <= i < decimal(n).len() ==> 48 <= #[trigger] decimal(n)[i] as int && decimal(
                n,
            )[i] as int <= 57,
        n > 0 ==> decimal(n)[0] != '0',
        n == 0 ==> decimal(n) == seq!['0'],
    decreases n,
{
    reveal_with_fuel(numeral, 2);
    if n < 10 {
        assert(decimal(n).drop_last() =~= Seq::empty());
    } else {
        lemma_decimal_reads_back(n / 10);
        assert(decimal(n).drop_last() =~= decimal(n / 10));
    }
}

/// An entry is a line: a number in brackets that reads back as the time, a blank, the
/// message as it is, and the end of the line.
pub proof fn lemma_entry_reads_back(seconds: u64, message: Seq<char>)
    ensures
        ({
            let text = entry(seconds, message);
            let close = text.len() - message.len() - 3;
            &&& close >= 2
            &&& text[0] == '['
            &&& numeral(text.subrange(1, close)) == seconds
            &&& text[1] == '0' ==> seconds == 0 && close == 2
            &&& text[close] == ']'
            &&& text[close + 1] == ' '
            &&& text.subrange(close + 2, text.len() - 1) == message
            &&& text.last() == '\n'
        }),
{
    let text = entry(seconds, message);
    let close = text.len() - message.len() - 3;
    lemma_decimal_reads_back(seconds as nat);
    assert(text.subrange(1, close) =~= decimal(seconds as nat));
    assert(text.subrange(close + 2, text.len() - 1) =~= message);
    assert(text[1] == decimal(seconds as nat)[0]);
}

/// One decimal digit as text.
fn digit_text(d: u64) -> (text: &'static str)
    requires
        d < 10,
    ensures
        text@ == seq![digit(d as int)],
{
    proof {
        reveal_strlit("0");
        reveal_strlit("1");
        reveal_strlit("2");
        reveal_strlit("3");
        reveal_strlit("4");
        reveal_strlit("5");
        reveal_strlit("6");
        reveal_strlit("7");
        reveal_strlit("8");
        reveal_strlit("9");
        assert("0"@ =~= seq!['0']);
        assert("1"@ =~= seq!['1']);
        assert("2"@ =~= seq!['2']);
        assert("3"@ =~= seq!['3']);
        assert("4"@ =~= seq!['4']);
        assert("5"@ =~= seq!['5']);
        assert("6"@ =~= seq!['6']);
        assert("7"@ =~= seq!['7']);
        assert("8"@ =~= seq!['8']);
        assert("9"@ =~= seq!['9']);
    }
    match d {
        0 => "0",
        1 => "1",
        2 => "2",
        3 => "3",
        4 => "4",
        5 => "5",
        6 => "6",
        7 => "7",
        8 => "8",
        _ => "9",
    }
}

/// Writes a number in decimal notation.
pub fn number(n: u64) -> (text: String)
    ensures
        text@ == decimal(n as nat),
    decreases n,
{
    if n < 10 {
        digit_text(n).to_owned()
    } else {
        let mut text: String = number(n / 10);
        text.append(digit_text(n % 10));
        assert(text@ =~= decimal(n as nat));
        text
    }
}

/// What goes to the log: an entry where the log was asked for, and nothing otherwise.
pub open spec fn written(wanted: bool, seconds: u64, message: Seq<char>) -> Option<Seq<char>> {
    if wanted {
        Some(entry(seconds, message))
    } else {
        None
    }
}

/// Nothing is written unless the log was asked for. Where it was, every message is written,
/// and the time and the message can be read back.
pub proof fn lemma_what_is_written(wanted: bool, seconds: u64, message: Seq<char>)
    ensures
        written(wanted, seconds, message) is Some == wanted,
        written(wanted, seconds, message) matches Some(text) ==> {
            let close = text.len() - message.len() - 3;
            &&& close >= 2
            &&& text[0] == '['
            &&& numeral(text.subrange(1, close)) == seconds
            &&& text[close] == ']'
            &&& text[close + 1] == ' '
            &&& text.subrange(close + 2, text.len() - 1) == message
            &&& text.last() == '\n'
        },
{
    lemma_entry_reads_back(seconds, message);
}

/// Writes an entry for the log, where the log was asked for.
pub fn log_entry(wanted: bool, seconds: u64, message: &str) -> (text: Option<String>)
    ensures
        text is Some == wanted,
        text matches Some(text) ==> text@ == entry(seconds, message@),
        text is Some == written(wanted, seconds, message@) is Some,
        text matches Some(text) ==> Some(text@) == written(wanted, seconds, message@),
{
    if !wanted {
        return None;
    }
    let mut text: String = "[".to_owned();
    text.append(number(seconds).as_str());
    text.append("] ");
    text.append(message);
    text.append("\n");
    proof {
        reveal_strlit("[");
        reveal_strlit("] ");
        reveal_strlit("\n");
        assert(text@ =~= entry(seconds, message@));
    }
    Some(text)
}

} // verus!
