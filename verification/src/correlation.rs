//! Correlation ids: the decimal numerals of the positions of dispatch.

use vstd::prelude::*;
use vstd::string::StringExecFns;

verus! {

/// The numeral of one decimal digit.
pub open spec fn digit_char(d: nat) -> char {
    if d == 0 {
        '0'
    } else if d == 1 {
        '1'
    } else if d == 2 {
        '2'
    } else if d == 3 {
        '3'
    } else if d == 4 {
        '4'
    } else if d == 5 {
        '5'
    } else if d == 6 {
        '6'
    } else if d == 7 {
        '7'
    } else if d == 8 {
        '8'
    } else {
        '9'
    }
}

/// The correlation id of the operation that was dispatched after `n`
/// others: `n` in decimal, without leading zeros.
pub open spec fn correlation_id(n: nat) -> Seq<char>
    decreases n,
{
    if n < 10 {
        seq![digit_char(n)]
    } else {
        correlation_id(n / 10).push(digit_char(n % 10))
    }
}

/// Different operations get different correlation ids.
pub proof fn lemma_correlation_ids_differ(a: nat, b: nat)
    requires
        a != b,
    ensures
        correlation_id(a) != correlation_id(b),
    decreases a,
{
    let ia = correlation_id(a);
    let ib = correlation_id(b);
    if ia == ib {
        assert(ia.last() == ib.last());
        if a < 10 {
            if b >= 10 {
                lemma_correlation_id_len(b / 10);
            }
        } else {
            if b < 10 {
                lemma_correlation_id_len(a / 10);
            } else {
                assert(ia.drop_last() =~= correlation_id(a / 10));
                assert(ib.drop_last() =~= correlation_id(b / 10));
                if a / 10 != b / 10 {
                    lemma_correlation_ids_differ(a / 10, b / 10);
                }
            }
        }
    }
}

/// No correlation id is empty.
pub proof fn lemma_correlation_id_len(n: nat)
    ensures
        correlation_id(n).len() >= 1,
{
}

/// The numeral of one decimal digit, as a text.
fn digit_text(d: u64) -> (r: &'static str)
    requires
        d < 10,
    ensures
        r@ == seq![digit_char(d as nat)],
{
    proof {
        reveal_strlit("0");
        reveal_strlit("1");
        reveal_strlit("2");
        reveal_strlit("3");
        reveal_strlit("4");
        reveal_strlit("5");
        reveal_strlit("6");
        reveal_strlit("7");
        reveal_strlit("8");
        reveal_strlit("9");
    }
    if d == 0 {
        "0"
    } else if d == 1 {
        "1"
    } else if d == 2 {
        "2"
    } else if d == 3 {
        "3"
    } else if d == 4 {
        "4"
    } else if d == 5 {
        "5"
    } else if d == 6 {
        "6"
    } else if d == 7 {
        "7"
    } else if d == 8 {
        "8"
    } else {
        "9"
    }
}

/// Writes the correlation id of the operation that was dispatched after
/// `n` others.
pub fn correlation_text(n: u64) -> (r: String)
    ensures
        r@ == correlation_id(n as nat),
    decreases n,
{
    if n < 10 {
        String::from_str(digit_text(n))
    } else {
        correlation_text(n / 10).concat(digit_text(n % 10))
    }
}

} // verus!
