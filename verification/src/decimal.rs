//! Decimal text of port numbers, in both directions.

use vstd::prelude::*;
use vstd::string::StringExecFns;

verus! {

/// The character that writes the digit `d`.
pub open spec fn digit_char(d: nat) -> char {
    if d == 0 {
        '0'
    } else if d == 1 {
        '1'
    } else if d == 2 {
        '2'
    } else if d == 3 {
        '3'
    } else if d == 4 {
        '4'
    } else if d == 5 {
        '5'
    } else if d == 6 {
        '6'
    } else if d == 7 {
        '7'
    } else if d == 8 {
        '8'
    } else {
        '9'
    }
}

/// The decimal text of `n`, without sign or leading zeros.
pub open spec fn decimal_text(n: nat) -> Seq<char>
    decreases n,
{
    if n < 10 {
        seq![digit_char(n)]
    } else {
        decimal_text(n / 10).push(digit_char(n % 10))
    }
}

/// The value of a digit character, if it is one.
pub open spec fn digit_value(c: char) -> Option<nat> {
    if c == '0' {
        Some(0)
    } else if c == '1' {
        Some(1)
    } else if c == '2' {
        Some(2)
    } else if c == '3' {
        Some(3)
    } else if c == '4' {
        Some(4)
    } else if c == '5' {
        Some(5)
    } else if c == '6' {
        Some(6)
    } else if c == '7' {
        Some(7)
    } else if c == '8' {
        Some(8)
    } else if c == '9' {
        Some(9)
    } else {
        None
    }
}

/// Whether every character of `text` is a decimal digit.
pub open spec fn all_digits(text: Seq<char>) -> bool {
    forall|i: int| 0 <= i < text.len() ==> (#[trigger] digit_value(text[i])).is_some()
}

/// The number that a string of digits writes, leading zeros allowed.
pub open spec fn digits_value(text: Seq<char>) -> nat
    decreases text.len(),
{
    if text.len() == 0 {
        0
    } else {
        digits_value(text.drop_last()) * 10 + match digit_value(text.last()) {
            Some(d) => d,
            None => 0,
        }
    }
}

/// The one-character text of a single digit.
fn digit_str(d: u16) -> (r: &'static str)
    requires
        d < 10,
    ensures
        r@ == seq![digit_char(d as nat)],
{
    proof {
        reveal_strlit("0");
        reveal_strlit("1");
        reveal_strlit("2");
        reveal_strlit("3");
        reveal_strlit("4");
        reveal_strlit("5");
        reveal_strlit("6");
        reveal_strlit("7");
        reveal_strlit("8");
        reveal_strlit("9");
    }
    let r = if d == 0 {
        "0"
    } else if d == 1 {
        "1"
    } else if d == 2 {
        "2"
    } else if d == 3 {
        "3"
    } else if d == 4 {
        "4"
    } else if d == 5 {
        "5"
    } else if d == 6 {
        "6"
    } else if d == 7 {
        "7"
    } else if d == 8 {
        "8"
    } else {
        "9"
    };
    assert(r@ =~= seq![digit_char(d as nat)]);
    r
}

/// Appends the decimal text of `n` to `out`.
pub fn push_decimal(out: &mut String, n: u16)
    ensures
        final(out)@ == old(out)@ + decimal_text(n as nat),
    decreases n,
{
    if n < 10 {
        out.append(digit_str(n));
    } else {
        push_decimal(out, n / 10);
        out.append(digit_str(n % 10));
        assert(final(out)@ =~= old(out)@ + decimal_text(n as nat)) by {
            assert(decimal_text(n as nat) == decimal_text((n / 10) as nat).push(
                digit_char((n % 10) as nat),
            ));
        }
    }
}

/// The decimal text of a port number.
pub fn port_text(port: u16) -> (text: String)
    ensures
        text@ == decimal_text(port as nat),
{
    let mut text = String::new();
    push_decimal(&mut text, port);
    assert(text@ =~= decimal_text(port as nat));
    text
}

/// The port that a text writes: the value of its digits, where it is made of
/// digits only, at least one, and the value is a port number.
pub open spec fn port_of_text(text: Seq<char>) -> Option<u16> {
    if text.len() > 0 && all_digits(text) && digits_value(text) <= u16::MAX {
        Some(digits_value(text) as u16)
    } else {
        None
    }
}

/// The value of a digit character, if it is one.
fn digit_of(c: char) -> (d: Option<u32>)
    ensures
        (match d {
            Some(v) => Some(v as nat),
            None => None,
        }) == digit_value(c),
        d matches Some(v) ==> v < 10,
{
    match c {
        '0' => Some(0),
        '1' => Some(1),
        '2' => Some(2),
        '3' => Some(3),
        '4' => Some(4),
        '5' => Some(5),
        '6' => Some(6),
        '7' => Some(7),
        '8' => Some(8),
        '9' => Some(9),
        _ => None,
    }
}

/// The digits up to a position write no more than all the digits do.
proof fn lemma_prefix_value(text: Seq<char>, upto: int)
    requires
        0 <= upto <= text.len(),
    ensures
        digits_value(text.subrange(0, upto)) <= digits_value(text),
    decreases text.len(),
{
    if text.len() == upto {
        assert(text.subrange(0, upto) =~= text);
    } else {
        assert(text.drop_last().subrange(0, upto) =~= text.subrange(0, upto));
        lemma_prefix_value(text.drop_last(), upto);
    }
}

/// Reads a port number from its decimal text.
pub fn parse_port(text: &str) -> (port: Option<u16>)
    ensures
        port == port_of_text(text@),
{
    let n = text.unicode_len();
    if n == 0 {
        return None;
    }
    let mut value: u32 = 0;
    let mut i: usize = 0;
    while i < n
        invariant
            i <= n,
            n == text@.len(),
            value <= u16::MAX,
            value == digits_value(text@.subrange(0, i as int)),
            all_digits(text@.subrange(0, i as int)),
        decreases n - i,
    {
        let ghost upto = text@.subrange(0, i + 1);
        proof {
            assert(upto.drop_last() =~= text@.subrange(0, i as int));
            assert(upto.last() == text@[i as int]);
        }
        match digit_of(text.get_char(i)) {
            None => {
                assert(digit_value(text@[i as int]).is_none());
                return None;
            },
            Some(d) => {
                let next: u32 = value * 10 + d;
                assert(next == digits_value(upto));
                if next > 65535 {
                    proof {
                        lemma_prefix_value(text@, i + 1);
                    }
                    return None;
                }
                assert forall|k: int| 0 <= k < upto.len() implies (#[trigger] digit_value(
                    upto[k],
                )).is_some() by {
                    if k < i {
                        assert(upto[k] == text@.subrange(0, i as int)[k]);
                    }
                }
                value = next;
            },
        }
        i += 1;
    }
    assert(text@.subrange(0, i as int) =~= text@);
    Some(value as u16)
}

/// The decimal text of a number is made of digits and writes that number.
pub proof fn lemma_decimal_text_value(n: nat)
    ensures
        decimal_text(n).len() > 0,
        all_digits(decimal_text(n)),
        digits_value(decimal_text(n)) == n,
    decreases n,
{
    let text = decimal_text(n);
    if n < 10 {
        assert(text.drop_last() =~= Seq::<char>::empty());
        assert(digits_value(text.drop_last()) == 0);
        assert(digit_value(digit_char(n)) == Some(n));
    } else {
        lemma_decimal_text_value(n / 10);
        let front = decimal_text(n / 10);
        let d = n % 10;
        assert(text == front.push(digit_char(d)));
        assert(text.drop_last() =~= front);
        assert(text.last() == digit_char(d));
        assert(digit_value(digit_char(d)) == Some(d));
        assert forall|k: int| 0 <= k < text.len() implies (#[trigger] digit_value(
            text[k],
        )).is_some() by {
            if k < front.len() {
                assert(text[k] == front[k]);
            }
        }
    }
}

/// Reading the text of a port gives the port back.
pub proof fn port_text_round_trip(port: u16)
    ensures
        port_of_text(decimal_text(port as nat)) == Some(port),
{
    lemma_decimal_text_value(port as nat);
}

} // verus!
