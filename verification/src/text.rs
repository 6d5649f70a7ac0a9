//! Decimal numbers as text, the way they stand in paths and in JSON keys.

use vstd::prelude::*;
use vstd::string::StringExecFns;

verus! {

/// The texts that a list of strings holds.
pub open spec fn texts(strings: Seq<String>) -> Seq<Seq<char>> {
    Seq::new(strings.len(), |i: int| strings[i]@)
}

/// The character for one decimal digit.
pub open spec fn digit_char(d: nat) -> char {
    if d == 0 {
        '0'
    } else if d == 1 {
        '1'
    } else if d == 2 {
        '2'
    } else if d == 3 {
        '3'
    } else if d == 4 {
        '4'
    } else if d == 5 {
        '5'
    } else if d == 6 {
        '6'
    } else if d == 7 {
        '7'
    } else if d == 8 {
        '8'
    } else {
        '9'
    }
}

/// The decimal numeral of `n`: no sign, no leading zero but for zero itself.
pub open spec fn decimal(n: nat) -> Seq<char>
    decreases n,
{
    if n < 10 {
        seq![digit_char(n)]
    } else {
        decimal(n / 10).push(digit_char(n % 10))
    }
}

/// One decimal digit as a string.
fn digit_str(d: u64) -> (r: &'static str)
    requires
        d < 10,
    ensures
        r@ == seq![digit_char(d as nat)],
{
    proof {
        reveal_strlit("0");
        reveal_strlit("1");
        reveal_strlit("2");
        reveal_strlit("3");
        reveal_strlit("4");
        reveal_strlit("5");
        reveal_strlit("6");
        reveal_strlit("7");
        reveal_strlit("8");
        reveal_strlit("9");
    }
    let r = if d == 0 {
        "0"
    } else if d == 1 {
        "1"
    } else if d == 2 {
        "2"
    } else if d == 3 {
        "3"
    } else if d == 4 {
        "4"
    } else if d == 5 {
        "5"
    } else if d == 6 {
        "6"
    } else if d == 7 {
        "7"
    } else if d == 8 {
        "8"
    } else {
        "9"
    };
    assert(r@ =~= seq![digit_char(d as nat)]);
    r
}

/// Appends the decimal numeral of `n` to `out`.
pub fn push_decimal(out: &mut String, n: u64)
    ensures
        final(out)@ == old(out)@ + decimal(n as nat),
    decreases n,
{
    if n >= 10 {
        push_decimal(out, n / 10);
    }
    out.append(digit_str(n % 10));
    proof {
        if n >= 10 {
            assert(old(out)@ + decimal((n / 10) as nat) + seq![digit_char((n % 10) as nat)]
                =~= old(out)@ + decimal(n as nat));
        }
    }
}

/// The decimal numeral of `n`.
pub fn to_decimal(n: u64) -> (r: String)
    ensures
        r@ == decimal(n as nat),
{
    let mut out = String::new();
    push_decimal(&mut out, n);
    assert(Seq::<char>::empty() + decimal(n as nat) =~= decimal(n as nat));
    out
}

/// The digit that a character stands for, where it is a decimal digit.
pub open spec fn digit_of(c: char) -> Option<nat> {
    if c == '0' {
        Some(0)
    } else if c == '1' {
        Some(1)
    } else if c == '2' {
        Some(2)
    } else if c == '3' {
        Some(3)
    } else if c == '4' {
        Some(4)
    } else if c == '5' {
        Some(5)
    } else if c == '6' {
        Some(6)
    } else if c == '7' {
        Some(7)
    } else if c == '8' {
        Some(8)
    } else if c == '9' {
        Some(9)
    } else {
        None
    }
}

/// The number that a run of decimal digits spells; `None` where a character
/// is no digit.
pub open spec fn numeral_value(digits: Seq<char>) -> Option<nat>
    decreases digits.len(),
{
    if digits.len() == 0 {
        Some(0)
    } else {
        match (numeral_value(digits.drop_last()), digit_of(digits.last())) {
            (Some(front), Some(d)) => Some(front * 10 + d),
            _ => None,
        }
    }
}

/// The number that `text` is the decimal numeral of: at least one digit,
/// nothing but digits, and no leading zero but for zero itself.
pub open spec fn read_decimal(text: Seq<char>) -> Option<nat> {
    if text.len() == 0 || (text.len() > 1 && text[0] == '0') {
        None
    } else {
        numeral_value(text)
    }
}

/// The number up to 255 that `text` is the decimal numeral of.
pub open spec fn read_u8(text: Seq<char>) -> Option<u8> {
    match read_decimal(text) {
        Some(n) => if n <= 255 {
            Some(n as u8)
        } else {
            None
        },
        None => None,
    }
}

/// A run of digits spells at least what any of its beginnings spells.
proof fn lemma_prefix_value(digits: Seq<char>, upto: int)
    requires
        0 <= upto <= digits.len(),
        numeral_value(digits) is Some,
    ensures
        numeral_value(digits.take(upto)) is Some,
        numeral_value(digits.take(upto))->Some_0 <= numeral_value(digits)->Some_0,
    decreases digits.len(),
{
    if upto == digits.len() {
        assert(digits.take(upto) =~= digits);
    } else {
        let front = digits.drop_last();
        assert(front.take(upto) =~= digits.take(upto));
        lemma_prefix_value(front, upto);
    }
}

/// Reading the numeral of a number gives the number back.
pub proof fn lemma_read_decimal_of_numeral(n: nat)
    ensures
        read_decimal(decimal(n)) == Some(n),
        decimal(n).len() >= 1,
        decimal(n)[0] == '0' <==> n == 0,
    decreases n,
{
    if n < 10 {
        let one = seq![digit_char(n)];
        assert(one.drop_last() =~= Seq::<char>::empty());
        assert(numeral_value(one.drop_last()) == Some(0nat));
        assert(digit_of(one.last()) == Some(n));
    } else {
        lemma_read_decimal_of_numeral(n / 10);
        let front = decimal(n / 10);
        let all = decimal(n);
        assert(all.drop_last() =~= front);
        assert(all.last() == digit_char(n % 10));
        assert(digit_of(all.last()) == Some(n % 10));
        assert(all[0] == front[0]);
    }
}

/// A text that reads as a number is the numeral of that number.
pub proof fn lemma_numeral_of_read_decimal(text: Seq<char>)
    requires
        read_decimal(text) is Some,
    ensures
        text == decimal(read_decimal(text)->Some_0),
    decreases text.len(),
{
    let n = read_decimal(text)->Some_0;
    let front = text.drop_last();
    let d = digit_of(text.last())->Some_0;
    assert(digit_char(d) == text.last());
    if text.len() == 1 {
        assert(front =~= Seq::<char>::empty());
        assert(n == d);
        assert(text =~= seq![digit_char(d)]);
    } else {
        assert(front[0] == text[0]);
        assert(read_decimal(front) is Some);
        lemma_numeral_of_read_decimal(front);
        let v = read_decimal(front)->Some_0;
        lemma_read_decimal_of_numeral(v);
        assert(v >= 1);
        assert(n == v * 10 + d);
        assert(n / 10 == v && n % 10 == d);
        assert(text =~= front.push(text.last()));
    }
}

/// The digit that `c` stands for.
fn digit_value(c: char) -> (r: Option<u64>)
    ensures
        match r {
            Some(d) => digit_of(c) == Some(d as nat) && d < 10,
            None => digit_of(c) is None,
        },
{
    if c == '0' {
        Some(0)
    } else if c == '1' {
        Some(1)
    } else if c == '2' {
        Some(2)
    } else if c == '3' {
        Some(3)
    } else if c == '4' {
        Some(4)
    } else if c == '5' {
        Some(5)
    } else if c == '6' {
        Some(6)
    } else if c == '7' {
        Some(7)
    } else if c == '8' {
        Some(8)
    } else if c == '9' {
        Some(9)
    } else {
        None
    }
}

/// Reads `text` as the decimal numeral of a number up to 255.
pub fn parse_u8(text: &str) -> (r: Option<u8>)
    ensures
        r == read_u8(text@),
{
    let len = text.unicode_len();
    if len == 0 {
        return None;
    }
    if len > 1 && text.get_char(0) == '0' {
        return None;
    }
    let mut value: u64 = 0;
    let mut i: usize = 0;
    assert(text@.take(0) =~= Seq::<char>::empty());
    while i < len
        invariant
            i <= len,
            len == text@.len(),
            value <= 255,
            numeral_value(text@.take(i as int)) == Some(value as nat),
        decreases len - i,
    {
        let c = text.get_char(i);
        proof {
            assert(text@.take(i + 1).drop_last() =~= text@.take(i as int));
            assert(text@.take(i + 1).last() == c);
            if numeral_value(text@) is Some {
                lemma_prefix_value(text@, i + 1);
            }
        }
        match digit_value(c) {
            Some(d) => {
                value = value * 10 + d;
                if value > 255 {
                    return None;
                }
            },
            None => {
                return None;
            },
        }
        i += 1;
    }
    assert(text@.take(i as int) =~= text@);
    Some(value as u8)
}

} // verus!
