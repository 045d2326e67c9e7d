//! Decimal numerals and concatenation, the pieces that every key and message is made of.

use vstd::prelude::*;
use vstd::string::*;

verus! {

/// The character of a decimal digit.
pub open spec fn digit_char(d: nat) -> char {
    ('0' as u8 + d) as char
}

/// `n` written in decimal, without leading zeros.
pub open spec fn decimal(n: nat) -> Seq<char>
    decreases n,
{
    if n < 10 {
        seq![digit_char(n)]
    } else {
        decimal(n / 10).push(digit_char(n % 10))
    }
}

/// The one-character text of a decimal digit.
fn digit_text(d: u32) -> (text: &'static str)
    requires
        d < 10,
    ensures
        text@ == seq![digit_char(d as nat)],
{
    proof {
        reveal_strlit("0");
        reveal_strlit("1");
        reveal_strlit("2");
        reveal_strlit("3");
        reveal_strlit("4");
        reveal_strlit("5");
        reveal_strlit("6");
        reveal_strlit("7");
        reveal_strlit("8");
        reveal_strlit("9");
    }
    let text = match d {
        0 => "0",
        1 => "1",
        2 => "2",
        3 => "3",
        4 => "4",
        5 => "5",
        6 => "6",
        7 => "7",
        8 => "8",
        _ => "9",
    };
    assert(text@ =~= seq![digit_char(d as nat)]);
    text
}

/// Writes `n` in decimal.
pub fn decimal_text(n: u32) -> (text: String)
    ensures
        text@ == decimal(n as nat),
    decreases n,
{
    if n < 10 {
        digit_text(n).to_owned()
    } else {
        let mut text = decimal_text(n / 10);
        text.append(digit_text(n % 10));
        assert(text@ =~= decimal((n / 10) as nat).push(digit_char((n % 10) as nat)));
        text
    }
}

/// Joins two pieces of text.
pub fn concat(a: &str, b: &str) -> (text: String)
    ensures
        text@ == a@ + b@,
{
    let mut text = a.to_owned();
    text.append(b);
    text
}

/// The last character of a numeral is its last digit, and what stands before it is the numeral of
/// the quotient.
proof fn lemma_decimal_last(n: nat)
    ensures
        decimal(n).len() > 0,
        decimal(n).last() == digit_char(n % 10),
        n < 10 <==> decimal(n).len() == 1,
        n >= 10 ==> decimal(n).drop_last() == decimal(n / 10),
    decreases n,
{
    if n >= 10 {
        lemma_decimal_last(n / 10);
        assert(decimal(n).drop_last() =~= decimal(n / 10));
    }
}

/// Different numbers have different numerals.
pub proof fn decimal_is_injective(m: nat, n: nat)
    requires
        decimal(m) == decimal(n),
    ensures
        m == n,
    decreases m,
{
    lemma_decimal_last(m);
    lemma_decimal_last(n);
    assert(m % 10 == n % 10);
    if m >= 10 {
        decimal_is_injective(m / 10, n / 10);
    }
}

/// The number that a run of digits stands for, each counting ten times as much as the one after it.
pub open spec fn numeral_value(text: Seq<char>) -> int
    decreases text.len(),
{
    if text.len() == 0 {
        0
    } else {
        10 * numeral_value(text.drop_last()) + (text.last() as int - '0' as int)
    }
}

/// A numeral is made of digits alone, has no leading zero, and reads back as the number that it was
/// made of.
pub proof fn a_numeral_reads_back(n: nat)
    ensures
        decimal(n).len() > 0,
        forall|i: int|
            0 <= i < decimal(n).len() ==> '0' as int <= #[trigger] decimal(n)[i] as int <= '9' as int,
        decimal(n).len() > 1 ==> decimal(n)[0] != '0',
        numeral_value(decimal(n)) == n,
    decreases n,
{
    lemma_decimal_last(n);
    let last = digit_char(n % 10);
    assert(last as int == '0' as int + n % 10);
    if n >= 10 {
        a_numeral_reads_back(n / 10);
        assert(decimal(n).drop_last() == decimal(n / 10));
        assert(decimal(n)[0] == decimal(n / 10)[0]);
        if decimal(n / 10).len() == 1 {
            lemma_decimal_last(n / 10);
            assert(decimal(n / 10)[0] == digit_char((n / 10) % 10));
        }
        assert forall|i: int| 0 <= i < decimal(n).len() implies '0' as int
            <= #[trigger] decimal(n)[i] as int <= '9' as int by {
            if i < decimal(n).len() - 1 {
                assert(decimal(n)[i] == decimal(n / 10)[i]);
            }
        }
    } else {
        assert(decimal(n).drop_last() =~= Seq::empty());
        assert(numeral_value(decimal(n).drop_last()) == 0);
    }
}

} // verus!
