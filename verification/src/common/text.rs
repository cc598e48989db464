//! Building the texts that the contract reports: decimal numbers and joined
//! lists.

use vstd::prelude::*;
use vstd::string::*;
use crate::common::security::strings_model;

verus! {

/// The character of a decimal digit.
pub open spec fn digit_char(d: int) -> char {
    if d == 0 { '0' }
    else if d == 1 { '1' }
    else if d == 2 { '2' }
    else if d == 3 { '3' }
    else if d == 4 { '4' }
    else if d == 5 { '5' }
    else if d == 6 { '6' }
    else if d == 7 { '7' }
    else if d == 8 { '8' }
    else { '9' }
}

/// The decimal notation of a natural number, without leading zeros.
pub open spec fn decimal_text(n: nat) -> Seq<char>
    decreases n,
{
    if n < 10 {
        seq![digit_char(n as int)]
    } else {
        decimal_text(n / 10).push(digit_char((n % 10) as int))
    }
}

fn digit_str(d: u8) -> (s: &'static str)
    requires
        d < 10,
    ensures
        s@ == seq![digit_char(d as int)],
{
    if d == 0 {
        proof { reveal_strlit("0"); }
        "0"
    } else if d == 1 {
        proof { reveal_strlit("1"); }
        "1"
    } else if d == 2 {
        proof { reveal_strlit("2"); }
        "2"
    } else if d == 3 {
        proof { reveal_strlit("3"); }
        "3"
    } else if d == 4 {
        proof { reveal_strlit("4"); }
        "4"
    } else if d == 5 {
        proof { reveal_strlit("5"); }
        "5"
    } else if d == 6 {
        proof { reveal_strlit("6"); }
        "6"
    } else if d == 7 {
        proof { reveal_strlit("7"); }
        "7"
    } else if d == 8 {
        proof { reveal_strlit("8"); }
        "8"
    } else {
        proof { reveal_strlit("9"); }
        "9"
    }
}

/// The decimal notation of the last `k` digits collected, most significant
/// first: `digits[k-1] .. digits[0]`.
spec fn digits_text(digits: Seq<u8>, k: int) -> Seq<char>
    decreases k,
{
    if k <= 0 {
        Seq::empty()
    } else {
        seq![digit_char(digits[k - 1] as int)] + digits_text(digits, k - 1)
    }
}

proof fn lemma_decimal_split(n: nat)
    requires
        n >= 10,
    ensures
        decimal_text(n) == decimal_text(n / 10) + seq![digit_char((n % 10) as int)],
{
    assert(decimal_text(n / 10).push(digit_char((n % 10) as int)) =~= decimal_text(n / 10)
        + seq![digit_char((n % 10) as int)]);
}

/// Writes a number in decimal notation.
pub fn u128_text(n: u128) -> (s: String)
    ensures
        s@ == decimal_text(n as nat),
{
    // collect the digits, least significant first
    let mut digits: Vec<u8> = Vec::new();
    let mut rest: u128 = n;
    let ghost mut parts: Seq<nat> = seq![n as nat];
    loop
        invariant
            digits@.len() + 1 == parts.len(),
            parts[0] == n as nat,
            parts.last() == rest as nat,
            forall|i: int| 0 <= i < digits@.len() ==> #[trigger] digits@[i] < 10 && parts[i] >= 10
                && parts[i + 1] == parts[i] / 10 && digits@[i] as nat == parts[i] % 10,
        ensures
            rest < 10,
            digits@.len() + 1 == parts.len(),
            parts[0] == n as nat,
            parts.last() == rest as nat,
            forall|i: int| 0 <= i < digits@.len() ==> #[trigger] digits@[i] < 10 && parts[i] >= 10
                && parts[i + 1] == parts[i] / 10 && digits@[i] as nat == parts[i] % 10,
        decreases rest,
    {
        if rest < 10 {
            break;
        }
        let d = (rest % 10) as u8;
        let ghost old_digits = digits@;
        let ghost old_parts = parts;
        digits.push(d);
        proof {
            parts = parts.push((rest / 10) as nat);
            assert forall|i: int| 0 <= i < digits@.len() implies #[trigger] digits@[i] < 10 && parts[i] >= 10
                && parts[i + 1] == parts[i] / 10 && digits@[i] as nat == parts[i] % 10 by {
                if i < old_digits.len() {
                    assert(digits@[i] == old_digits[i]);
                    assert(parts[i] == old_parts[i]);
                    assert(parts[i + 1] == old_parts[i + 1]);
                } else {
                    assert(parts[i] == rest as nat);
                }
            }
        }
        rest = rest / 10;
    }
    let mut s = String::new();
    s.append(digit_str(rest as u8));
    let mut k: usize = digits.len();
    // s holds the decimal notation of parts[k]
    while k > 0
        invariant
            k <= digits@.len(),
            digits@.len() + 1 == parts.len(),
            parts[0] == n as nat,
            forall|i: int| 0 <= i < digits@.len() ==> #[trigger] digits@[i] < 10 && parts[i] >= 10
                && parts[i + 1] == parts[i] / 10 && digits@[i] as nat == parts[i] % 10,
            s@ == decimal_text(parts[k as int]),
        decreases k,
    {
        let d = digits[k - 1];
        proof {
            let p = parts[k - 1];
            assert(digits@[k - 1] < 10);
            lemma_decimal_split(p);
        }
        s.append(digit_str(d));
        k = k - 1;
    }
    s
}

/// Writes a signed number in decimal notation.
pub fn i32_text(n: i32) -> (s: String)
    ensures
        s@ == (if n < 0 { seq!['-'] + decimal_text((-n) as nat) } else { decimal_text(n as nat) }),
{
    if n < 0 {
        let mut s = String::new();
        proof { reveal_strlit("-"); }
        s.append("-");
        let magnitude: u128 = (0i64 - n as i64) as u128;
        let digits = u128_text(magnitude);
        s.append(digits.as_str());
        s
    } else {
        u128_text(n as u128)
    }
}

/// Texts joined with a separator between neighbours.
pub open spec fn joined(parts: Seq<Seq<char>>, sep: Seq<char>) -> Seq<char>
    decreases parts.len(),
{
    if parts.len() == 0 {
        Seq::empty()
    } else if parts.len() == 1 {
        parts[0]
    } else {
        joined(parts.drop_last(), sep) + sep + parts.last()
    }
}

/// Joins texts with a separator.
pub fn join_strings(parts: &Vec<String>, sep: &str) -> (s: String)
    ensures
        s@ == joined(strings_model(parts@), sep@),
{
    let mut s = String::new();
    let ghost model = strings_model(parts@);
    for i in 0..parts.len()
        invariant
            model == strings_model(parts@),
            s@ == joined(model.take(i as int), sep@),
    {
        proof {
            assert(model.take(i + 1).drop_last() =~= model.take(i as int));
            assert(model.take(i + 1).last() == parts@[i as int]@);
        }
        if i > 0 {
            s.append(sep);
        } else {
            assert(model.take(1) =~= seq![parts@[0]@]);
            assert(s@ + parts@[0]@ =~= parts@[0]@);
        }
        s.append(parts[i].as_str());
    }
    assert(model.take(parts@.len() as int) =~= model);
    s
}

/// Concatenates two texts.
pub fn concat(a: &str, b: &str) -> (s: String)
    ensures
        s@ == a@ + b@,
{
    let mut s = String::new();
    s.append(a);
    s.append(b);
    assert(Seq::<char>::empty() + a@ + b@ =~= a@ + b@);
    s
}

} // verus!
