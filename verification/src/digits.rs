//! Decimal digit strings: the canonical representation of a number and the
//! value denoted by a digit sequence.  Shared by the menu-input parser and the
//! session codec.

use vstd::prelude::*;

verus! {

/// Whether `c` is a decimal digit.
pub open spec fn is_digit(c: char) -> bool {
    c == '0' || c == '1' || c == '2' || c == '3' || c == '4' || c == '5' || c == '6' || c == '7'
        || c == '8' || c == '9'
}

/// The numeric value of a decimal digit.
pub open spec fn digit_val(c: char) -> nat {
    if c == '0' {
        0
    } else if c == '1' {
        1
    } else if c == '2' {
        2
    } else if c == '3' {
        3
    } else if c == '4' {
        4
    } else if c == '5' {
        5
    } else if c == '6' {
        6
    } else if c == '7' {
        7
    } else if c == '8' {
        8
    } else {
        9
    }
}

/// The decimal digit with value `d` (meaningful for `d < 10`).
pub open spec fn digit_char(d: nat) -> char {
    if d == 0 {
        '0'
    } else if d == 1 {
        '1'
    } else if d == 2 {
        '2'
    } else if d == 3 {
        '3'
    } else if d == 4 {
        '4'
    } else if d == 5 {
        '5'
    } else if d == 6 {
        '6'
    } else if d == 7 {
        '7'
    } else if d == 8 {
        '8'
    } else {
        '9'
    }
}

/// Whether every character of `s` is a decimal digit.
pub open spec fn all_digits(s: Seq<char>) -> bool {
    forall|i: int| 0 <= i < s.len() ==> is_digit(#[trigger] s[i])
}

/// The number denoted by the digit string `s`, folded from the left onto an
/// accumulator that already holds the value of the digits read so far.
pub open spec fn acc_val(acc: nat, s: Seq<char>) -> nat
    decreases s.len(),
{
    if s.len() == 0 {
        acc
    } else {
        acc_val(acc * 10 + digit_val(s[0]), s.drop_first())
    }
}

/// The number denoted by the digit string `s`.
pub open spec fn dec_value(s: Seq<char>) -> nat {
    acc_val(0, s)
}

/// The canonical decimal representation of `n` (no leading zeros, except for
/// `n == 0` itself).
pub open spec fn digits_of(n: nat) -> Seq<char>
    decreases n,
{
    if n < 10 {
        seq![digit_char(n)]
    } else {
        digits_of(n / 10).push(digit_char(n % 10))
    }
}

/// Appending a digit multiplies the denoted value by ten and adds the digit.
pub proof fn lemma_acc_val_push(acc: nat, s: Seq<char>, c: char)
    ensures
        acc_val(acc, s.push(c)) == acc_val(acc, s) * 10 + digit_val(c),
    decreases s.len(),
{
    if s.len() == 0 {
        assert(s.push(c).drop_first() =~= Seq::<char>::empty());
        assert(s.push(c)[0] == c);
        assert(acc_val(acc, s.push(c)) == acc_val(acc * 10 + digit_val(c), Seq::<char>::empty()));
    } else {
        assert(s.push(c).drop_first() =~= s.drop_first().push(c));
        assert(s.push(c)[0] == s[0]);
        lemma_acc_val_push(acc * 10 + digit_val(s[0]), s.drop_first(), c);
        assert(acc_val(acc, s.push(c)) == acc_val(
            acc * 10 + digit_val(s[0]),
            s.drop_first().push(c),
        ));
        assert(acc_val(acc, s) == acc_val(acc * 10 + digit_val(s[0]), s.drop_first()));
    }
}

/// The denoted value never falls below the accumulator it starts from.
pub proof fn lemma_acc_val_lower(acc: nat, s: Seq<char>)
    ensures
        acc_val(acc, s) >= acc,
    decreases s.len(),
{
    if s.len() > 0 {
        lemma_acc_val_lower(acc * 10 + digit_val(s[0]), s.drop_first());
    }
}

/// The canonical representation is made of digits, is non-empty, and denotes
/// the number it was built from.
pub proof fn lemma_digits_of(n: nat)
    ensures
        all_digits(digits_of(n)),
        digits_of(n).len() >= 1,
        dec_value(digits_of(n)) == n,
    decreases n,
{
    if n < 10 {
        assert(acc_val(0, seq![digit_char(n)]) == acc_val(digit_val(digit_char(n)), Seq::<
            char,
        >::empty())) by {
            assert(seq![digit_char(n)].drop_first() =~= Seq::<char>::empty());
        }
    } else {
        lemma_digits_of(n / 10);
        lemma_acc_val_push(0, digits_of(n / 10), digit_char(n % 10));
        assert(digit_val(digit_char(n % 10)) == n % 10);
        assert(forall|i: int|
            0 <= i < digits_of(n).len() ==> is_digit(#[trigger] digits_of(n)[i]));
    }
}

/// Whether `c` is a decimal digit.
pub fn is_digit_exec(c: char) -> (b: bool)
    ensures
        b == is_digit(c),
{
    c == '0' || c == '1' || c == '2' || c == '3' || c == '4' || c == '5' || c == '6' || c == '7'
        || c == '8' || c == '9'
}

/// The numeric value of a decimal digit.
pub fn digit_val_exec(c: char) -> (d: usize)
    requires
        is_digit(c),
    ensures
        d as nat == digit_val(c),
        d <= 9,
{
    if c == '0' {
        0
    } else if c == '1' {
        1
    } else if c == '2' {
        2
    } else if c == '3' {
        3
    } else if c == '4' {
        4
    } else if c == '5' {
        5
    } else if c == '6' {
        6
    } else if c == '7' {
        7
    } else if c == '8' {
        8
    } else {
        9
    }
}

/// The decimal digit with value `d`.
pub fn digit_str(d: usize) -> (r: &'static str)
    requires
        d < 10,
    ensures
        r@ == seq![digit_char(d as nat)],
{
    if d == 0 {
        proof {
            reveal_strlit("0");
        }
        assert("0"@ =~= seq![digit_char(0)]);
        "0"
    } else if d == 1 {
        proof {
            reveal_strlit("1");
        }
        assert("1"@ =~= seq![digit_char(1)]);
        "1"
    } else if d == 2 {
        proof {
            reveal_strlit("2");
        }
        assert("2"@ =~= seq![digit_char(2)]);
        "2"
    } else if d == 3 {
        proof {
            reveal_strlit("3");
        }
        assert("3"@ =~= seq![digit_char(3)]);
        "3"
    } else if d == 4 {
        proof {
            reveal_strlit("4");
        }
        assert("4"@ =~= seq![digit_char(4)]);
        "4"
    } else if d == 5 {
        proof {
            reveal_strlit("5");
        }
        assert("5"@ =~= seq![digit_char(5)]);
        "5"
    } else if d == 6 {
        proof {
            reveal_strlit("6");
        }
        assert("6"@ =~= seq![digit_char(6)]);
        "6"
    } else if d == 7 {
        proof {
            reveal_strlit("7");
        }
        assert("7"@ =~= seq![digit_char(7)]);
        "7"
    } else if d == 8 {
        proof {
            reveal_strlit("8");
        }
        assert("8"@ =~= seq![digit_char(8)]);
        "8"
    } else {
        proof {
            reveal_strlit("9");
        }
        assert("9"@ =~= seq![digit_char(9)]);
        "9"
    }
}

/// The canonical decimal representation of `n`, as a string.
pub fn digits_str(n: usize) -> (r: String)
    ensures
        r@ == digits_of(n as nat),
    decreases n,
{
    if n < 10 {
        digit_str(n).to_owned()
    } else {
        let mut s = digits_str(n / 10);
        s.append(digit_str(n % 10));
        proof {
            assert(digits_of((n / 10) as nat).push(digit_char((n % 10) as nat)) =~= digits_of(
                (n / 10) as nat,
            ) + seq![digit_char((n % 10) as nat)]);
        }
        s
    }
}

/// The value of the digit run `s[from..to]`, unless it exceeds `cap`.
pub fn dec_value_capped(s: &str, from: usize, to: usize, cap: usize) -> (r: Option<usize>)
    requires
        from <= to <= s@.len(),
        all_digits(s@.subrange(from as int, to as int)),
    ensures
        match r {
            Some(v) => v as nat == dec_value(s@.subrange(from as int, to as int)) && v <= cap,
            None => dec_value(s@.subrange(from as int, to as int)) > cap,
        },
{
    let ghost whole = s@.subrange(from as int, to as int);
    let mut acc: usize = 0;
    let mut k: usize = from;
    while k < to
        invariant
            from <= k <= to <= s@.len(),
            all_digits(whole),
            whole == s@.subrange(from as int, to as int),
            acc <= cap,
            acc_val(acc as nat, s@.subrange(k as int, to as int)) == dec_value(whole),
        decreases to - k,
    {
        let ghost rest = s@.subrange(k as int, to as int);
        let c = s.get_char(k);
        proof {
            assert(rest[0] == s@[k as int]);
            assert(whole[k - from] == s@[k as int]);
            assert(is_digit(s@[k as int]));
            assert(rest.drop_first() =~= s@.subrange(k as int + 1, to as int));
        }
        let d = digit_val_exec(c);
        proof {
            assert(acc_val(acc as nat, rest) == acc_val(
                (acc as nat) * 10 + digit_val(c),
                s@.subrange(k as int + 1, to as int),
            ));
            lemma_acc_val_lower((acc as nat) * 10 + digit_val(c), s@.subrange(k as int + 1, to as int));
        }
        let step = match acc.checked_mul(10) {
            Some(m) => m.checked_add(d),
            None => None,
        };
        match step {
            Some(next) => {
                if next > cap {
                    return None;
                }
                acc = next;
            },
            None => {
                return None;
            },
        }
        k = k + 1;
    }
    proof {
        assert(s@.subrange(k as int, to as int) =~= Seq::<char>::empty());
    }
    Some(acc)
}

} // verus!
