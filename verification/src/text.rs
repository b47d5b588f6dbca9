//! Small helpers for building texts.

use vstd::prelude::*;

verus! {

/// The text `before`, then `middle`, then `after`.
pub fn enclose(before: &str, middle: &str, after: &str) -> (text: String)
    ensures
        text@ == before@ + middle@ + after@,
{
    let mut text = String::from_str(before);
    text.append(middle);
    text.append(after);
    text
}

/// The character of a decimal digit.
pub open spec fn digit_char(digit: int) -> char {
    if digit == 0 {
        '0'
    } else if digit == 1 {
        '1'
    } else if digit == 2 {
        '2'
    } else if digit == 3 {
        '3'
    } else if digit == 4 {
        '4'
    } else if digit == 5 {
        '5'
    } else if digit == 6 {
        '6'
    } else if digit == 7 {
        '7'
    } else if digit == 8 {
        '8'
    } else {
        '9'
    }
}

/// A natural number in decimal, without leading zeros.
pub open spec fn digits(n: nat) -> Seq<char>
    decreases n,
{
    if n < 10 {
        seq![digit_char(n as int)]
    } else {
        digits(n / 10).push(digit_char((n % 10) as int))
    }
}

/// An integer in decimal, with a minus sign where it is negative.
pub open spec fn decimal(n: int) -> Seq<char> {
    if n < 0 {
        seq!['-'] + digits((-n) as nat)
    } else {
        digits(n as nat)
    }
}

/// The text of a decimal digit.
fn digit_text(digit: u64) -> (text: &'static str)
    requires
        digit < 10,
    ensures
        text@ == seq![digit_char(digit as int)],
{
    proof {
        reveal_strlit("0");
        reveal_strlit("1");
        reveal_strlit("2");
        reveal_strlit("3");
        reveal_strlit("4");
        reveal_strlit("5");
        reveal_strlit("6");
        reveal_strlit("7");
        reveal_strlit("8");
        reveal_strlit("9");
    }
    let text = if digit == 0 {
        "0"
    } else if digit == 1 {
        "1"
    } else if digit == 2 {
        "2"
    } else if digit == 3 {
        "3"
    } else if digit == 4 {
        "4"
    } else if digit == 5 {
        "5"
    } else if digit == 6 {
        "6"
    } else if digit == 7 {
        "7"
    } else if digit == 8 {
        "8"
    } else {
        "9"
    };
    assert(text@ =~= seq![digit_char(digit as int)]);
    text
}

/// `n` in decimal.
pub fn decimal_u64(n: u64) -> (text: String)
    ensures
        text@ == digits(n as nat),
    decreases n,
{
    if n < 10 {
        String::from_str(digit_text(n))
    } else {
        let mut text = decimal_u64(n / 10);
        text.append(digit_text(n % 10));
        assert(text@ =~= digits((n / 10) as nat).push(digit_char((n % 10) as int)));
        text
    }
}

/// `n` in decimal, with a minus sign where it is negative.
pub fn decimal_i64(n: i64) -> (text: String)
    ensures
        text@ == decimal(n as int),
{
    if n >= 0 {
        decimal_u64(n as u64)
    } else {
        let magnitude: u64 = if n == i64::MIN {
            0x8000_0000_0000_0000
        } else {
            (-n) as u64
        };
        proof {
            reveal_strlit("-");
        }
        let mut text = String::from_str("-");
        text.append(decimal_u64(magnitude).as_str());
        assert(text@ =~= seq!['-'] + digits((-n) as nat));
        text
    }
}

/// The first `n` of `parts`, with a comma between one and the next.
pub open spec fn joined(parts: Seq<Seq<char>>, n: int) -> Seq<char>
    decreases n,
{
    if n <= 0 {
        Seq::empty()
    } else if n == 1 {
        parts[0]
    } else {
        joined(parts, n - 1) + seq![','] + parts[n - 1]
    }
}

/// Appends `part` to a list of `count` parts that `text` holds, with a
/// comma before it unless it is the first.
pub(crate) fn append_part(
    text: &mut String,
    count: usize,
    part: &str,
    Ghost(parts): Ghost<Seq<Seq<char>>>,
    Ghost(head): Ghost<Seq<char>>,
)
    requires
        count < parts.len(),
        parts[count as int] == part@,
        old(text)@ == head + joined(parts, count as int),
    ensures
        final(text)@ == head + joined(parts, count + 1),
{
    proof {
        reveal_strlit(",");
    }
    if count > 0 {
        text.append(",");
    }
    text.append(part);
    assert(text@ =~= head + joined(parts, count + 1));
}

/// `text` with every occurrence of `from` replaced by `to`, the
/// occurrences taken from the left and not overlapping. An empty `from`
/// occurs nowhere.
pub open spec fn replaced(text: Seq<char>, from: Seq<char>, to: Seq<char>) -> Seq<char>
    decreases text.len(),
{
    if from.len() == 0 || text.len() < from.len() {
        text
    } else if text.take(from.len() as int) == from {
        to + replaced(text.skip(from.len() as int), from, to)
    } else {
        seq![text[0]] + replaced(text.skip(1), from, to)
    }
}

/// Whether `from` stands in `text` at position `at`.
fn occurs_at(text: &str, at: usize, from: &str, length: usize, width: usize) -> (found: bool)
    requires
        length == text@.len(),
        width == from@.len(),
        at + width <= length,
    ensures
        found == (text@.skip(at as int).take(width as int) == from@),
{
    let mut k: usize = 0;
    while k < width
        invariant
            k <= width,
            length == text@.len(),
            width == from@.len(),
            at + width <= length,
            forall|j: int| 0 <= j < k ==> text@[at + j] == from@[j],
        decreases width - k,
    {
        if text.get_char(at + k) != from.get_char(k) {
            assert(text@.skip(at as int).take(width as int)[k as int] != from@[k as int]);
            return false;
        }
        k += 1;
    }
    assert(text@.skip(at as int).take(width as int) =~= from@);
    true
}

/// `text` with every occurrence of `from` replaced by `to`.
pub fn replace(text: &str, from: &str, to: &str) -> (out: String)
    ensures
        out@ == replaced(text@, from@, to@),
{
    let length = text.unicode_len();
    let width = from.unicode_len();
    if width == 0 {
        return String::from_str(text);
    }
    let mut out = String::new();
    let mut at: usize = 0;
    assert(text@.skip(0) =~= text@);
    while at < length
        invariant
            at <= length,
            length == text@.len(),
            width == from@.len(),
            width > 0,
            out@ + replaced(text@.skip(at as int), from@, to@) == replaced(text@, from@, to@),
        decreases length - at,
    {
        let rest = Ghost(text@.skip(at as int));
        if width <= length - at && occurs_at(text, at, from, length, width) {
            out.append(to);
            assert(rest@.skip(width as int) =~= text@.skip(at + width));
            assert(out@ + replaced(text@.skip(at + width), from@, to@) =~= replaced(
                text@,
                from@,
                to@,
            ));
            at += width;
        } else {
            out.append(text.substring_char(at, at + 1));
            assert(text@.subrange(at as int, at + 1) =~= seq![rest@[0]]);
            assert(rest@.skip(1) =~= text@.skip(at + 1));
            proof {
                if rest@.len() < width {
                    assert(replaced(rest@, from@, to@) == rest@);
                    assert(replaced(rest@.skip(1), from@, to@) == rest@.skip(1));
                    assert(rest@ =~= seq![rest@[0]] + rest@.skip(1));
                }
            }
            assert(out@ + replaced(text@.skip(at + 1), from@, to@) =~= replaced(
                text@,
                from@,
                to@,
            ));
            at += 1;
        }
    }
    assert(text@.skip(at as int) =~= Seq::<char>::empty());
    assert(out@ =~= replaced(text@, from@, to@));
    out
}

} // verus!
