//! Decimal text: rendering unsigned numbers and reading a bounded length.

use vstd::prelude::*;
use vstd::string::StringExecFns;
use vstd::string::StrSliceExecFns;

verus! {

/// The single decimal digit of a value below ten.
pub open spec fn digit_str(d: nat) -> Seq<char> {
    if d == 0 {
        "0"@
    } else if d == 1 {
        "1"@
    } else if d == 2 {
        "2"@
    } else if d == 3 {
        "3"@
    } else if d == 4 {
        "4"@
    } else if d == 5 {
        "5"@
    } else if d == 6 {
        "6"@
    } else if d == 7 {
        "7"@
    } else if d == 8 {
        "8"@
    } else {
        "9"@
    }
}

/// The decimal rendering of a number, most significant digit first, with no
/// sign and no leading zeros.
pub open spec fn dec_str(n: nat) -> Seq<char>
    decreases n,
{
    if n < 10 {
        digit_str(n)
    } else {
        dec_str(n / 10) + digit_str(n % 10)
    }
}

/// The digit character of a value below ten.
fn digit_lit(d: u64) -> (r: &'static str)
    requires
        d < 10,
    ensures
        r@ == digit_str(d as nat),
{
    if d == 0 {
        "0"
    } else if d == 1 {
        "1"
    } else if d == 2 {
        "2"
    } else if d == 3 {
        "3"
    } else if d == 4 {
        "4"
    } else if d == 5 {
        "5"
    } else if d == 6 {
        "6"
    } else if d == 7 {
        "7"
    } else if d == 8 {
        "8"
    } else {
        "9"
    }
}

/// Appends the decimal rendering of `n` to `s`.
pub fn push_dec(s: &mut String, n: u64)
    ensures
        final(s)@ == old(s)@ + dec_str(n as nat),
    decreases n,
{
    if n < 10 {
        s.append(digit_lit(n));
    } else {
        push_dec(s, n / 10);
        s.append(digit_lit(n % 10));
        proof {
            assert(old(s)@ + dec_str((n / 10) as nat) + digit_str((n % 10) as nat) =~= old(s)@
                + dec_str(n as nat));
        }
    }
}

/// Whether a character is a decimal digit.
pub open spec fn is_digit(c: char) -> bool {
    48 <= c as int <= 57
}

/// The value of a digit character.
pub open spec fn digit_val(c: char) -> nat {
    (c as int - 48) as nat
}

/// Whether every character of the sequence is a decimal digit.
pub open spec fn all_digits(s: Seq<char>) -> bool {
    forall|i: int| 0 <= i < s.len() ==> is_digit(#[trigger] s[i])
}

/// The value of a digit sequence read as a decimal number.
pub open spec fn dec_val(s: Seq<char>) -> nat
    decreases s.len(),
{
    if s.len() == 0 {
        0
    } else {
        dec_val(s.drop_last()) * 10 + digit_val(s.last())
    }
}

/// Reading more digits never shrinks the value.
proof fn lemma_dec_val_prefix(s: Seq<char>, n: int)
    requires
        0 <= n <= s.len(),
    ensures
        dec_val(s.take(n)) <= dec_val(s),
    decreases s.len() - n,
{
    if n < s.len() {
        lemma_dec_val_prefix(s.drop_last(), n);
        assert(s.take(n) =~= s.drop_last().take(n));
    } else {
        assert(s.take(n) =~= s);
    }
}

/// The digits of the input after an optional leading plus sign.
pub open spec fn digits_part(s: Seq<char>) -> Seq<char> {
    if s.len() > 0 && s[0] == '+' {
        s.drop_first()
    } else {
        s
    }
}

/// Reads the requested scramble length: the input, after an optional
/// leading plus sign, must be one or more decimal digits whose value fits
/// the length range; anything else is rejected with a message.
pub fn parse_length(s: &str) -> (r: Result<u8, String>)
    ensures
        (match r {
            Ok(n) => {
                let t = digits_part(s@);
                t.len() > 0 && all_digits(t) && dec_val(t) <= 255 && n as nat == dec_val(t)
            },
            Err(e) => {
                let t = digits_part(s@);
                (t.len() == 0 || !all_digits(t) || dec_val(t) > 255) && e@
                    == "length must be less than 256"@
            },
        }),
{
    let len = s.unicode_len();
    let ghost t = digits_part(s@);
    let mut i: usize = 0;
    if len > 0 && s.get_char(0) == '+' {
        i = 1;
    }
    let ghost start = i as int;
    proof {
        assert(t =~= s@.subrange(start, len as int));
    }
    if i == len {
        return Err(String::from_str("length must be less than 256"));
    }
    let mut val: u64 = 0;
    while i < len
        invariant
            0 <= start <= i as int <= len as int,
            len as nat == s@.len(),
            t == digits_part(s@),
            t =~= s@.subrange(start, len as int),
            all_digits(t.take(i - start)),
            val as nat == dec_val(t.take(i - start)),
            val <= 255,
        decreases len - i,
    {
        let c = s.get_char(i);
        let v = c as u32;
        if v < 48 || v > 57 {
            proof {
                assert(s@.subrange(start, len as int)[i as int - start] == s@[i as int]);
                assert(t[i as int - start] == c);
                assert(!is_digit(c));
                assert(!all_digits(t));
            }
            return Err(String::from_str("length must be less than 256"));
        }
        let d: u64 = (v - 48) as u64;
        let ghost j = i as int - start;
        proof {
            assert(s@.subrange(start, len as int)[j] == s@[i as int]);
            assert(t[j] == c);
            assert(t.take(j + 1) =~= t.take(j).push(c));
            assert(t.take(j + 1).drop_last() =~= t.take(j));
            assert(t.take(j + 1).last() == c);
            assert(d as nat == digit_val(c));
            assert(dec_val(t.take(j + 1)) == dec_val(t.take(j)) * 10 + digit_val(c));
        }
        val = val * 10 + d;
        i = i + 1;
        proof {
            assert(val as nat == dec_val(t.take(i as int - start)));
        }
        if val > 255 {
            proof {
                lemma_dec_val_prefix(t, i as int - start);
                assert(dec_val(t) > 255);
            }
            return Err(String::from_str("length must be less than 256"));
        }
    }
    proof {
        assert(t.take(i - start) =~= t);
        assert(t.len() > 0);
    }
    Ok(val as u8)
}

} // verus!
