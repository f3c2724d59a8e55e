//! Record identifiers.
//!
//! An identifier is a fixed prefix followed by a time in milliseconds,
//! written in decimal. Two identifiers with the same prefix are equal only
//! if the two times are, so records saved at different milliseconds never
//! share a key.

use vstd::prelude::*;
use vstd::string::*;

verus! {

/// The character that writes the digit `d`.
pub open spec fn digit_char(d: int) -> char
    recommends
        0 <= d <= 9,
{
    if d == 0 {
        '0'
    } else if d == 1 {
        '1'
    } else if d == 2 {
        '2'
    } else if d == 3 {
        '3'
    } else if d == 4 {
        '4'
    } else if d == 5 {
        '5'
    } else if d == 6 {
        '6'
    } else if d == 7 {
        '7'
    } else if d == 8 {
        '8'
    } else {
        '9'
    }
}

/// The decimal digits of `n`, most significant first, without leading zeros.
pub open spec fn digits(n: nat) -> Seq<char>
    decreases n,
{
    if n < 10 {
        seq![digit_char(n as int)]
    } else {
        digits(n / 10).push(digit_char((n % 10) as int))
    }
}

/// `i` written in decimal, with a leading minus sign where it is negative.
pub open spec fn decimal(i: int) -> Seq<char> {
    if i < 0 {
        seq!['-'] + digits((-i) as nat)
    } else {
        digits(i as nat)
    }
}

/// The identifier of a patient first saved at `millis`.
pub open spec fn patient_id_at(millis: int) -> Seq<char> {
    "patient_"@ + decimal(millis)
}

/// The identifier of a medication saved at `millis`.
pub open spec fn medication_id_at(millis: int) -> Seq<char> {
    "medication_"@ + decimal(millis)
}

/// The one-character string that writes the digit `d`.
fn digit_str(d: u64) -> (s: &'static str)
    requires
        d <= 9,
    ensures
        s@ == seq![digit_char(d as int)],
{
    proof {
        reveal_strlit("0");
        reveal_strlit("1");
        reveal_strlit("2");
        reveal_strlit("3");
        reveal_strlit("4");
        reveal_strlit("5");
        reveal_strlit("6");
        reveal_strlit("7");
        reveal_strlit("8");
        reveal_strlit("9");
    }
    let s: &'static str = if d == 0 {
        "0"
    } else if d == 1 {
        "1"
    } else if d == 2 {
        "2"
    } else if d == 3 {
        "3"
    } else if d == 4 {
        "4"
    } else if d == 5 {
        "5"
    } else if d == 6 {
        "6"
    } else if d == 7 {
        "7"
    } else if d == 8 {
        "8"
    } else {
        "9"
    };
    assert(s@ =~= seq![digit_char(d as int)]);
    s
}

/// Appends the decimal digits of `n` to `out`.
fn push_digits(out: &mut String, n: u64)
    ensures
        final(out)@ == old(out)@ + digits(n as nat),
    decreases n,
{
    if n >= 10 {
        push_digits(out, n / 10);
    }
    out.append(digit_str(n % 10));
    assert(out@ =~= old(out)@ + digits(n as nat));
}

/// Appends `i`, written in decimal, to `out`.
pub fn push_decimal(out: &mut String, i: i64)
    ensures
        final(out)@ == old(out)@ + decimal(i as int),
{
    if i < 0 {
        // -(i + 1) + 1 is the magnitude, and fits even for the least i64.
        let magnitude: u64 = ((-(i + 1)) as u64) + 1;
        out.append("-");
        proof {
            reveal_strlit("-");
        }
        push_digits(out, magnitude);
        assert(out@ =~= old(out)@ + decimal(i as int));
    } else {
        push_digits(out, i as u64);
    }
}

/// The identifier of a patient first saved at `millis`.
pub fn patient_id(millis: i64) -> (id: String)
    ensures
        id@ == patient_id_at(millis as int),
        id@.len() > 0,
{
    let mut id = "patient_".to_string();
    push_decimal(&mut id, millis);
    proof {
        lemma_decimal_nonempty(millis as int);
    }
    id
}

/// The identifier of a medication saved at `millis`.
pub fn medication_id(millis: i64) -> (id: String)
    ensures
        id@ == medication_id_at(millis as int),
        id@.len() > 0,
{
    let mut id = "medication_".to_string();
    push_decimal(&mut id, millis);
    proof {
        lemma_decimal_nonempty(millis as int);
    }
    id
}

/// Every number is written with at least one digit, and the first
/// character of its digits is a digit, never a minus sign.
pub proof fn lemma_digits_shape(n: nat)
    ensures
        digits(n).len() >= 1,
        n >= 10 ==> digits(n).len() >= 2,
        digits(n)[0] != '-',
    decreases n,
{
    if n >= 10 {
        lemma_digits_shape(n / 10);
    }
}

/// No number is written as the empty text.
pub proof fn lemma_decimal_nonempty(i: int)
    ensures
        decimal(i).len() > 0,
{
    if i < 0 {
        lemma_digits_shape((-i) as nat);
    } else {
        lemma_digits_shape(i as nat);
    }
}

/// Two natural numbers with the same digits are the same number.
pub proof fn lemma_digits_injective(a: nat, b: nat)
    requires
        digits(a) == digits(b),
    ensures
        a == b,
    decreases a,
{
    lemma_digits_shape(a);
    lemma_digits_shape(b);
    if a >= 10 && b >= 10 {
        let da = digits(a / 10);
        let db = digits(b / 10);
        let ca = digit_char((a % 10) as int);
        let cb = digit_char((b % 10) as int);
        assert(da.push(ca).len() == db.push(cb).len());
        assert(da.push(ca).last() == db.push(cb).last());
        assert(da.push(ca).drop_last() =~= da);
        assert(db.push(cb).drop_last() =~= db);
        lemma_digits_injective(a / 10, b / 10);
    } else if a < 10 && b < 10 {
        assert(digits(a)[0] == digits(b)[0]);
    }
}

/// Two integers written alike in decimal are the same integer.
pub proof fn lemma_decimal_injective(a: int, b: int)
    requires
        decimal(a) == decimal(b),
    ensures
        a == b,
{
    let ma: nat = if a < 0 { (-a) as nat } else { a as nat };
    let mb: nat = if b < 0 { (-b) as nat } else { b as nat };
    lemma_digits_shape(ma);
    lemma_digits_shape(mb);
    if a < 0 && b < 0 {
        assert((seq!['-'] + digits(ma)).subrange(1, 1 + digits(ma).len() as int) =~= digits(ma));
        assert((seq!['-'] + digits(mb)).subrange(1, 1 + digits(mb).len() as int) =~= digits(mb));
        lemma_digits_injective(ma, mb);
    } else if a >= 0 && b >= 0 {
        lemma_digits_injective(ma, mb);
    } else if a < 0 {
        assert(decimal(a)[0] == '-');
        assert(decimal(b)[0] == digits(mb)[0]);
    } else {
        assert(decimal(b)[0] == '-');
        assert(decimal(a)[0] == digits(ma)[0]);
    }
}

/// Patients first saved at different milliseconds get different
/// identifiers.
pub proof fn lemma_patient_ids_distinct(a: int, b: int)
    requires
        a != b,
    ensures
        patient_id_at(a) != patient_id_at(b),
{
    if patient_id_at(a) == patient_id_at(b) {
        lemma_same_prefix_same_rest("patient_"@, decimal(a), decimal(b));
        lemma_decimal_injective(a, b);
    }
}

/// Medications saved at different milliseconds get different identifiers.
pub proof fn lemma_medication_ids_distinct(a: int, b: int)
    requires
        a != b,
    ensures
        medication_id_at(a) != medication_id_at(b),
{
    if medication_id_at(a) == medication_id_at(b) {
        lemma_same_prefix_same_rest("medication_"@, decimal(a), decimal(b));
        lemma_decimal_injective(a, b);
    }
}

/// Texts that agree after the same prefix was put before them agree.
proof fn lemma_same_prefix_same_rest(prefix: Seq<char>, x: Seq<char>, y: Seq<char>)
    requires
        prefix + x == prefix + y,
    ensures
        x == y,
{
    let n = prefix.len() as int;
    assert((prefix + x).len() == (prefix + y).len());
    assert((prefix + x).subrange(n, n + x.len()) =~= x);
    assert((prefix + y).subrange(n, n + y.len()) =~= y);
}

} // verus!
