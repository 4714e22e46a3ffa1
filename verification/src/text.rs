//! Text that is built piece by piece, with what it spells.
use vstd::prelude::*;
use vstd::string::*;

verus! {

/// The decimal digit of a number below ten.
pub open spec fn digit(d: nat) -> char {
    if d == 0 {
        '0'
    } else if d == 1 {
        '1'
    } else if d == 2 {
        '2'
    } else if d == 3 {
        '3'
    } else if d == 4 {
        '4'
    } else if d == 5 {
        '5'
    } else if d == 6 {
        '6'
    } else if d == 7 {
        '7'
    } else if d == 8 {
        '8'
    } else {
        '9'
    }
}

/// A number written in decimal, without leading zeros.
pub open spec fn decimal(n: nat) -> Seq<char>
    decreases n,
{
    if n < 10 {
        seq![digit(n)]
    } else {
        decimal(n / 10).push(digit(n % 10))
    }
}

/// A text in which every `from` is written as `to`.
pub open spec fn replaced(text: Seq<char>, from: char, to: char) -> Seq<char> {
    text.map_values(
        |c: char|
            if c == from {
                to
            } else {
                c
            },
    )
}

/// The digit of a number below ten, as text.
fn digit_text(d: u64) -> (text: &'static str)
    requires
        d < 10,
    ensures
        text@ == seq![digit(d as nat)],
{
    proof {
        reveal_strlit("0");
        reveal_strlit("1");
        reveal_strlit("2");
        reveal_strlit("3");
        reveal_strlit("4");
        reveal_strlit("5");
        reveal_strlit("6");
        reveal_strlit("7");
        reveal_strlit("8");
        reveal_strlit("9");
    }
    if d == 0 {
        "0"
    } else if d == 1 {
        "1"
    } else if d == 2 {
        "2"
    } else if d == 3 {
        "3"
    } else if d == 4 {
        "4"
    } else if d == 5 {
        "5"
    } else if d == 6 {
        "6"
    } else if d == 7 {
        "7"
    } else if d == 8 {
        "8"
    } else {
        "9"
    }
}

/// Appends a number in decimal.
pub fn push_decimal(out: &mut String, n: u64)
    ensures
        final(out)@ == old(out)@ + decimal(n as nat),
    decreases n,
{
    if n < 10 {
        out.append(digit_text(n));
    } else {
        push_decimal(out, n / 10);
        out.append(digit_text(n % 10));
        assert(out@ =~= old(out)@ + decimal(n as nat));
    }
}

/// Whether two texts spell the same.
pub fn same_text(a: &str, b: &str) -> (same: bool)
    ensures
        same == (a@ == b@),
{
    a.to_owned() == b.to_owned()
}

/// Copies a text, writing `to` for every `from`.
pub fn replace_char(text: &str, from: char, to: &str) -> (out: String)
    requires
        to@.len() == 1,
    ensures
        out@ == replaced(text@, from, to@[0]),
{
    let mut out = String::new();
    let n: usize = text.unicode_len();
    let mut i: usize = 0;
    while i < n
        invariant
            i <= n == text@.len(),
            to@.len() == 1,
            out@ == replaced(text@, from, to@[0]).take(i as int),
        decreases n - i,
    {
        if text.get_char(i) == from {
            out.append(to);
        } else {
            out.append(text.substring_char(i, i + 1));
        }
        i += 1;
        assert(out@ =~= replaced(text@, from, to@[0]).take(i as int));
    }
    assert(out@ =~= replaced(text@, from, to@[0]));
    out
}

/// The last digit of a number in decimal is what is left of it after tens, the
/// digits before it are those of the tens, and there is no leading zero.
pub proof fn law_decimal_is_positional(n: nat)
    ensures
        decimal(n).len() > 0,
        decimal(n).last() as int == '0' as int + n % 10,
        n < 10 <==> decimal(n).len() == 1,
        n >= 10 ==> decimal(n).drop_last() == decimal(n / 10) && decimal(n)[0] != '0',
    decreases n,
{
    if n >= 10 {
        law_decimal_is_positional(n / 10);
        assert(decimal(n).drop_last() =~= decimal(n / 10));
        if n / 10 < 10 {
            assert(decimal(n)[0] == digit(n / 10));
        } else {
            assert(decimal(n)[0] == decimal(n / 10)[0]);
        }
    }
}

/// Numbers that are written alike are the same.
pub proof fn law_decimal_tells_numbers_apart(first: nat, second: nat)
    requires
        decimal(first) == decimal(second),
    ensures
        first == second,
    decreases first,
{
    law_decimal_is_positional(first);
    law_decimal_is_positional(second);
    if first >= 10 {
        law_decimal_tells_numbers_apart(first / 10, second / 10);
    }
}

/// A text in which characters are replaced keeps its length and its other
/// characters.
pub proof fn law_only_the_character_is_replaced(text: Seq<char>, from: char, to: char)
    ensures
        replaced(text, from, to).len() == text.len(),
        forall|i: int|
            0 <= i < text.len() ==> #[trigger] replaced(text, from, to)[i] == if text[i] == from {
                to
            } else {
                text[i]
            },
{
}

} // verus!
