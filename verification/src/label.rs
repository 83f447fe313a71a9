//! The text that stands for one level of a countdown: the level's number in
//! decimal digits, followed by a hyphen.

use vstd::prelude::*;
use vstd::string::StringExecFns;

verus! {

/// The character that writes the digit `d`.
pub open spec fn digit_char(d: nat) -> char
    recommends
        d < 10,
{
    if d == 0 {
        '0'
    } else if d == 1 {
        '1'
    } else if d == 2 {
        '2'
    } else if d == 3 {
        '3'
    } else if d == 4 {
        '4'
    } else if d == 5 {
        '5'
    } else if d == 6 {
        '6'
    } else if d == 7 {
        '7'
    } else if d == 8 {
        '8'
    } else {
        '9'
    }
}

/// The decimal digits of `n`, most significant first, without leading zeros.
pub open spec fn decimal_text(n: nat) -> Seq<char>
    decreases n,
{
    if n < 10 {
        seq![digit_char(n)]
    } else {
        decimal_text(n / 10).push(digit_char(n % 10))
    }
}

/// The label of level `n`: its decimal digits and the separator.
pub open spec fn label_text(n: nat) -> Seq<char> {
    decimal_text(n).push('-')
}

/// The labels of the levels `n, n - 1, ..., 0`, one after another.
pub open spec fn countdown_text(n: nat) -> Seq<char>
    decreases n,
{
    if n == 0 {
        label_text(0)
    } else {
        label_text(n) + countdown_text((n - 1) as nat)
    }
}

/// Digits given least significant first, written most significant first.
spec fn spelled(digits: Seq<u64>) -> Seq<char> {
    Seq::new(digits.len(), |i: int| digit_char(digits[digits.len() - 1 - i] as nat))
}

fn digit_str(d: u64) -> (s: &'static str)
    requires
        d < 10,
    ensures
        s@ == seq![digit_char(d as nat)],
{
    proof {
        reveal_strlit("0");
        reveal_strlit("1");
        reveal_strlit("2");
        reveal_strlit("3");
        reveal_strlit("4");
        reveal_strlit("5");
        reveal_strlit("6");
        reveal_strlit("7");
        reveal_strlit("8");
        reveal_strlit("9");
    }
    let s: &'static str = if d == 0 {
        "0"
    } else if d == 1 {
        "1"
    } else if d == 2 {
        "2"
    } else if d == 3 {
        "3"
    } else if d == 4 {
        "4"
    } else if d == 5 {
        "5"
    } else if d == 6 {
        "6"
    } else if d == 7 {
        "7"
    } else if d == 8 {
        "8"
    } else {
        "9"
    };
    assert(s@ =~= seq![digit_char(d as nat)]);
    s
}

/// Renders the label of level `n`.
pub fn countdown_label(n: u64) -> (label: String)
    ensures
        label@ == label_text(n as nat),
{
    let mut digits: Vec<u64> = Vec::new();
    let mut rest: u64 = n;
    while rest >= 10
        invariant
            decimal_text(n as nat) == decimal_text(rest as nat) + spelled(digits@),
            forall|i: int| 0 <= i < digits.len() ==> digits[i] < 10,
        decreases rest,
    {
        let ghost before = digits@;
        digits.push(rest % 10);
        proof {
            assert(spelled(digits@) =~= seq![digit_char((rest % 10) as nat)] + spelled(before));
            assert(decimal_text(rest as nat) + spelled(before) =~= decimal_text(
                (rest / 10) as nat,
            ) + spelled(digits@));
        }
        rest = rest / 10;
    }
    let ghost before = digits@;
    digits.push(rest);
    proof {
        assert(spelled(digits@) =~= seq![digit_char(rest as nat)] + spelled(before));
    }
    let mut label = String::new();
    let mut i: usize = digits.len();
    while i > 0
        invariant
            i <= digits.len(),
            forall|k: int| 0 <= k < digits.len() ==> digits[k] < 10,
            label@ == spelled(digits@).subrange(0, digits.len() - i),
        decreases i,
    {
        i = i - 1;
        label.append(digit_str(digits[i]));
        proof {
            assert(label@ =~= spelled(digits@).subrange(0, digits.len() - i));
        }
    }
    label.append("-");
    proof {
        reveal_strlit("-");
        assert(label@ =~= label_text(n as nat));
    }
    label
}

} // verus!
