use vstd::prelude::*;

verus! {

/// The decimal digit character for `d` (0 to 9).
pub open spec fn digit_char(d: int) -> char {
    if d == 0 {
        '0'
    } else if d == 1 {
        '1'
    } else if d == 2 {
        '2'
    } else if d == 3 {
        '3'
    } else if d == 4 {
        '4'
    } else if d == 5 {
        '5'
    } else if d == 6 {
        '6'
    } else if d == 7 {
        '7'
    } else if d == 8 {
        '8'
    } else {
        '9'
    }
}

/// The decimal text of `n`, without leading zeros.
pub open spec fn nat_text(n: nat) -> Seq<char>
    decreases n,
{
    if n < 10 {
        seq![digit_char(n as int)]
    } else {
        nat_text(n / 10) + seq![digit_char((n % 10) as int)]
    }
}

pub open spec fn magnitude(v: int) -> nat {
    if v < 0 {
        (-v) as nat
    } else {
        v as nat
    }
}

pub open spec fn sign_text(v: int) -> Seq<char> {
    if v < 0 {
        seq!['-']
    } else {
        seq![]
    }
}

/// The three digits of `r` (below 1000) after the decimal point, with
/// trailing zeros dropped; `r` is not zero.
pub open spec fn fraction_text(r: nat) -> Seq<char> {
    let d1 = digit_char((r / 100) as int);
    let d2 = digit_char(((r / 10) % 10) as int);
    let d3 = digit_char((r % 10) as int);
    if r % 100 == 0 {
        seq![d1]
    } else if r % 10 == 0 {
        seq![d1, d2]
    } else {
        seq![d1, d2, d3]
    }
}

/// A thousandths amount in shortest form: `800`, `1.5`, `-0.25`.
pub open spec fn plain_text(v: int) -> Seq<char> {
    let n = magnitude(v);
    sign_text(v) + nat_text(n / 1000) + if n % 1000 == 0 {
        Seq::<char>::empty()
    } else {
        seq!['.'] + fraction_text(n % 1000)
    }
}

/// A thousandths amount rounded to one decimal place, halves away from zero:
/// `64.0`, `0.1`, `-2.5`.
pub open spec fn tenths_text(v: int) -> Seq<char> {
    let t = (magnitude(v) + 50) / 100;
    sign_text(v) + nat_text(t / 10) + seq!['.', digit_char((t % 10) as int)]
}

fn digit_str(d: u64) -> (r: &'static str)
    requires
        d < 10,
    ensures
        r@ == seq![digit_char(d as int)],
{
    if d == 0 {
        proof { reveal_strlit("0"); }
        "0"
    } else if d == 1 {
        proof { reveal_strlit("1"); }
        "1"
    } else if d == 2 {
        proof { reveal_strlit("2"); }
        "2"
    } else if d == 3 {
        proof { reveal_strlit("3"); }
        "3"
    } else if d == 4 {
        proof { reveal_strlit("4"); }
        "4"
    } else if d == 5 {
        proof { reveal_strlit("5"); }
        "5"
    } else if d == 6 {
        proof { reveal_strlit("6"); }
        "6"
    } else if d == 7 {
        proof { reveal_strlit("7"); }
        "7"
    } else if d == 8 {
        proof { reveal_strlit("8"); }
        "8"
    } else {
        proof { reveal_strlit("9"); }
        "9"
    }
}

/// Appends the decimal text of `n`.
pub fn push_nat(s: &mut String, n: u64)
    ensures
        final(s)@ == old(s)@ + nat_text(n as nat),
    decreases n,
{
    if n >= 10 {
        push_nat(s, n / 10);
    }
    s.append(digit_str(n % 10));
    assert(final(s)@ =~= old(s)@ + nat_text(n as nat));
}

fn magnitude_of(v: i64) -> (r: u64)
    ensures
        r as int == magnitude(v as int),
{
    if v < 0 {
        (0i128 - v as i128) as u64
    } else {
        v as u64
    }
}

fn push_sign(s: &mut String, v: i64)
    ensures
        final(s)@ == old(s)@ + sign_text(v as int),
{
    if v < 0 {
        proof { reveal_strlit("-"); }
        s.append("-");
    }
    assert(final(s)@ =~= old(s)@ + sign_text(v as int));
}

/// The shortest decimal text of a thousandths amount.
pub fn format_plain(v: i64) -> (r: String)
    ensures
        r@ == plain_text(v as int),
{
    let n = magnitude_of(v);
    let mut s = String::new();
    push_sign(&mut s, v);
    push_nat(&mut s, n / 1000);
    let rem = n % 1000;
    if rem != 0 {
        proof { reveal_strlit("."); }
        s.append(".");
        s.append(digit_str(rem / 100));
        if rem % 100 != 0 {
            s.append(digit_str((rem / 10) % 10));
            if rem % 10 != 0 {
                s.append(digit_str(rem % 10));
            }
        }
    }
    assert(s@ =~= plain_text(v as int));
    s
}

/// The text of a thousandths amount rounded to one decimal place.
pub fn format_tenths(v: i64) -> (r: String)
    ensures
        r@ == tenths_text(v as int),
{
    let t = (magnitude_of(v) + 50) / 100;
    let mut s = String::new();
    push_sign(&mut s, v);
    push_nat(&mut s, t / 10);
    proof { reveal_strlit("."); }
    s.append(".");
    s.append(digit_str(t % 10));
    assert(s@ =~= tenths_text(v as int));
    s
}

} // verus!
