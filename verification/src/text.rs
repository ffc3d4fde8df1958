//! Building the human-readable descriptions of the library's values: decimal numbers and lists.
use vstd::prelude::*;
use vstd::string::*;

verus! {

/// The character of a decimal digit.
pub open spec fn spec_digit(d: nat) -> char {
    if d == 0 {
        '0'
    } else if d == 1 {
        '1'
    } else if d == 2 {
        '2'
    } else if d == 3 {
        '3'
    } else if d == 4 {
        '4'
    } else if d == 5 {
        '5'
    } else if d == 6 {
        '6'
    } else if d == 7 {
        '7'
    } else if d == 8 {
        '8'
    } else {
        '9'
    }
}

/// A number written in decimal, without leading zeros.
pub open spec fn spec_decimal(n: nat) -> Seq<char>
    decreases n,
{
    if n < 10 {
        seq![spec_digit(n)]
    } else {
        spec_decimal(n / 10) + seq![spec_digit(n % 10)]
    }
}

/// A signed number written in decimal, with a minus sign when negative.
pub open spec fn spec_signed_decimal(n: int) -> Seq<char> {
    if n < 0 {
        seq!['-'] + spec_decimal((-n) as nat)
    } else {
        spec_decimal(n as nat)
    }
}

/// Numbers written in decimal, one after another, with `separator` between each two.
pub open spec fn spec_decimal_list(items: Seq<u8>, separator: Seq<char>) -> Seq<char>
    decreases items.len(),
{
    if items.len() == 0 {
        Seq::empty()
    } else if items.len() == 1 {
        spec_decimal(items[0] as nat)
    } else {
        spec_decimal_list(items.drop_last(), separator) + separator + spec_decimal(
            items.last() as nat,
        )
    }
}

/// Whether `s` begins with `prefix`.
pub open spec fn starts_with(s: Seq<char>, prefix: Seq<char>) -> bool {
    prefix.len() <= s.len() && s.subrange(0, prefix.len() as int) == prefix
}

/// A text put before another is what the whole starts with, and the rest is the other text.
pub proof fn lemma_after_prefix(prefix: Seq<char>, rest: Seq<char>)
    ensures
        starts_with(prefix + rest, prefix),
        (prefix + rest).skip(prefix.len() as int) == rest,
{
    assert((prefix + rest).subrange(0, prefix.len() as int) =~= prefix);
    assert((prefix + rest).skip(prefix.len() as int) =~= rest);
}

/// A list of byte values as `Debug` writes it, as in `[77, 84]`.
pub open spec fn spec_byte_list(items: Seq<u8>) -> Seq<char> {
    "["@ + spec_decimal_list(items, ", "@) + "]"@
}

/// Writes a list of byte values as `Debug` writes it, as in `[77, 84]`.
pub fn byte_list(items: &[u8]) -> (res: String)
    ensures
        res@ == spec_byte_list(items@),
{
    let mut res = String::from_str("[");
    res.append(decimal_list(items, ", ").as_str());
    res.append("]");
    res
}

/// The string of one decimal digit.
fn digit(d: u64) -> (res: &'static str)
    requires
        d < 10,
    ensures
        res@ == seq![spec_digit(d as nat)],
{
    if d == 0 {
        proof {
            reveal_strlit("0");
        }
        "0"
    } else if d == 1 {
        proof {
            reveal_strlit("1");
        }
        "1"
    } else if d == 2 {
        proof {
            reveal_strlit("2");
        }
        "2"
    } else if d == 3 {
        proof {
            reveal_strlit("3");
        }
        "3"
    } else if d == 4 {
        proof {
            reveal_strlit("4");
        }
        "4"
    } else if d == 5 {
        proof {
            reveal_strlit("5");
        }
        "5"
    } else if d == 6 {
        proof {
            reveal_strlit("6");
        }
        "6"
    } else if d == 7 {
        proof {
            reveal_strlit("7");
        }
        "7"
    } else if d == 8 {
        proof {
            reveal_strlit("8");
        }
        "8"
    } else {
        proof {
            reveal_strlit("9");
        }
        "9"
    }
}

/// Writes a number in decimal.
pub fn decimal(n: u64) -> (res: String)
    ensures
        res@ == spec_decimal(n as nat),
    decreases n,
{
    if n < 10 {
        String::from_str(digit(n))
    } else {
        let mut res = decimal(n / 10);
        res.append(digit(n % 10));
        res
    }
}

/// Writes a signed number in decimal.
pub fn signed_decimal(n: i64) -> (res: String)
    ensures
        res@ == spec_signed_decimal(n as int),
{
    if n < 0 {
        proof {
            reveal_strlit("-");
        }
        let magnitude: u64 = (-(n + 1)) as u64 + 1;
        let mut res = String::from_str("-");
        res.append(decimal(magnitude).as_str());
        res
    } else {
        decimal(n as u64)
    }
}

/// Writes numbers in decimal with `separator` between each two.
pub fn decimal_list(items: &[u8], separator: &str) -> (res: String)
    ensures
        res@ == spec_decimal_list(items@, separator@),
{
    let mut res = String::new();
    let mut i: usize = 0;
    while i < items.len()
        invariant
            i <= items@.len(),
            res@ == spec_decimal_list(items@.take(i as int), separator@),
        decreases items@.len() - i,
    {
        if i > 0 {
            res.append(separator);
        }
        res.append(decimal(items[i] as u64).as_str());
        i = i + 1;
        proof {
            let taken = items@.take(i as int);
            assert(taken.drop_last() =~= items@.take(i - 1));
            if i == 1 {
                assert(res@ =~= spec_decimal_list(taken, separator@));
            }
        }
    }
    assert(items@.take(i as int) =~= items@);
    res
}

} // verus!
