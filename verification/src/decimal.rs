//! Decimal text of integers: how process ids, exit codes and signals cross
//! the boundary to the user interface, and how an id comes back.

use vstd::prelude::*;
use vstd::string::*;

verus! {

/// The character that writes the digit `d`, for `d` below ten.
pub open spec fn digit_char(d: nat) -> char {
    if d == 0 {
        '0'
    } else if d == 1 {
        '1'
    } else if d == 2 {
        '2'
    } else if d == 3 {
        '3'
    } else if d == 4 {
        '4'
    } else if d == 5 {
        '5'
    } else if d == 6 {
        '6'
    } else if d == 7 {
        '7'
    } else if d == 8 {
        '8'
    } else {
        '9'
    }
}

/// Whether `c` is one of the ten decimal digits.
pub open spec fn is_digit(c: char) -> bool {
    '0' <= c <= '9'
}

/// The canonical decimal text of `n`: no sign, no leading zero, `"0"` for zero.
pub open spec fn decimal(n: nat) -> Seq<char>
    decreases n,
{
    if n < 10 {
        seq![digit_char(n)]
    } else {
        decimal(n / 10).push(digit_char(n % 10))
    }
}

/// The decimal text of a signed value: a minus sign before the text of the
/// magnitude when the value is negative.
pub open spec fn signed_decimal(v: int) -> Seq<char> {
    if v < 0 {
        seq!['-'] + decimal((-v) as nat)
    } else {
        decimal(v as nat)
    }
}

/// The one-character text of a digit.
fn digit_text(d: u64) -> (r: &'static str)
    requires
        d < 10,
    ensures
        r@ == seq![digit_char(d as nat)],
{
    proof {
        reveal_strlit("0");
        reveal_strlit("1");
        reveal_strlit("2");
        reveal_strlit("3");
        reveal_strlit("4");
        reveal_strlit("5");
        reveal_strlit("6");
        reveal_strlit("7");
        reveal_strlit("8");
        reveal_strlit("9");
    }
    let r = if d == 0 {
        "0"
    } else if d == 1 {
        "1"
    } else if d == 2 {
        "2"
    } else if d == 3 {
        "3"
    } else if d == 4 {
        "4"
    } else if d == 5 {
        "5"
    } else if d == 6 {
        "6"
    } else if d == 7 {
        "7"
    } else if d == 8 {
        "8"
    } else {
        "9"
    };
    assert(r@ =~= seq![digit_char(d as nat)]);
    r
}

/// Appends the decimal text of `n` to `out`.
pub fn push_decimal(out: &mut String, n: u64)
    ensures
        final(out)@ == old(out)@ + decimal(n as nat),
    decreases n,
{
    if n >= 10 {
        push_decimal(out, n / 10);
    }
    out.append(digit_text(n % 10));
    proof {
        if n >= 10 {
            assert(old(out)@ + decimal((n / 10) as nat) + seq![digit_char((n % 10) as nat)]
                =~= old(out)@ + decimal(n as nat));
        }
    }
}

/// The decimal text of an unsigned value.
pub fn unsigned_text(n: u64) -> (r: String)
    ensures
        r@ == decimal(n as nat),
{
    let mut out = String::new();
    push_decimal(&mut out, n);
    assert(Seq::<char>::empty() + decimal(n as nat) =~= decimal(n as nat));
    out
}

/// The decimal text of a signed value, as it is written in an exit notice.
pub fn signed_text(v: i32) -> (r: String)
    ensures
        r@ == signed_decimal(v as int),
{
    let mut out = String::new();
    if v < 0 {
        proof {
            reveal_strlit("-");
        }
        out.append("-");
        let magnitude: u64 = (-(v as i64)) as u64;
        push_decimal(&mut out, magnitude);
        assert(out@ =~= seq!['-'] + decimal((-(v as int)) as nat));
    } else {
        push_decimal(&mut out, v as u64);
        assert(out@ =~= decimal(v as nat));
    }
    out
}

/// Ten to the power `k`.
pub open spec fn pow10(k: nat) -> nat
    decreases k,
{
    if k == 0 {
        1
    } else {
        10 * pow10((k - 1) as nat)
    }
}

/// Decimal text is never empty and holds digits only.
pub proof fn lemma_decimal_digits(n: nat)
    ensures
        decimal(n).len() >= 1,
        forall|i: int| 0 <= i < decimal(n).len() ==> is_digit(#[trigger] decimal(n)[i]),
    decreases n,
{
    if n >= 10 {
        lemma_decimal_digits(n / 10);
    }
}

/// Decimal text has no leading zero, but for zero itself.
pub proof fn lemma_decimal_leading(n: nat)
    requires
        n >= 1,
    ensures
        decimal(n)[0] != '0',
    decreases n,
{
    if n >= 10 {
        lemma_decimal_digits(n / 10);
        lemma_decimal_leading(n / 10);
    }
}

/// A value has at most `k` digits exactly when it is below ten to the `k`.
pub proof fn lemma_decimal_len(n: nat, k: nat)
    requires
        k >= 1,
    ensures
        decimal(n).len() <= k <==> n < pow10(k),
    decreases k,
{
    reveal_with_fuel(pow10, 2);
    lemma_decimal_digits(n);
    if n >= 10 {
        lemma_decimal_digits(n / 10);
        if k >= 2 {
            lemma_decimal_len(n / 10, (k - 1) as nat);
        }
    } else {
        lemma_pow10_at_least_ten(k);
    }
}

/// Ten to a positive power is at least ten.
pub proof fn lemma_pow10_at_least_ten(k: nat)
    requires
        k >= 1,
    ensures
        pow10(k) >= 10,
    decreases k,
{
    reveal_with_fuel(pow10, 2);
    if k >= 2 {
        lemma_pow10_at_least_ten((k - 1) as nat);
    }
}

/// Two values with the same decimal text are the same value.
pub proof fn lemma_decimal_injective(a: nat, b: nat)
    requires
        decimal(a) == decimal(b),
    ensures
        a == b,
    decreases a,
{
    if a >= 10 && b >= 10 {
        assert(decimal(a / 10) =~= decimal(a).drop_last());
        assert(decimal(b / 10) =~= decimal(b).drop_last());
        lemma_decimal_injective(a / 10, b / 10);
        assert(decimal(a).last() == digit_char(a % 10));
        assert(decimal(b).last() == digit_char(b % 10));
        assert(a % 10 == b % 10);
    } else if a < 10 && b < 10 {
        assert(decimal(a)[0] == digit_char(a));
        assert(decimal(b)[0] == digit_char(b));
    } else if a < 10 {
        lemma_decimal_digits(b / 10);
        assert(decimal(b).len() >= 2);
    } else {
        lemma_decimal_digits(a / 10);
        assert(decimal(a).len() >= 2);
    }
}

/// The 32-bit value that `text` is the canonical decimal text of, if there is
/// one.
pub open spec fn decimal_value(text: Seq<char>) -> Option<u32> {
    if exists|n: u32| text == #[trigger] decimal(n as nat) {
        Some(choose|n: u32| text == #[trigger] decimal(n as nat))
    } else {
        None
    }
}

/// Reading the decimal text of a value gives that value back.
pub proof fn lemma_decimal_round_trip(n: u32)
    ensures
        decimal_value(decimal(n as nat)) == Some(n),
{
    let m = choose|m: u32| decimal(n as nat) == #[trigger] decimal(m as nat);
    lemma_decimal_injective(n as nat, m as nat);
}

/// Reads canonical decimal text back: `Some(n)` exactly when `text` is the
/// decimal text of an `n` that fits in 32 bits. A sign, a space, a leading
/// zero or any other character makes the text no number at all.
pub fn parse_unsigned(text: &str) -> (r: Option<u32>)
    ensures
        r == decimal_value(text@),
{
    let r = scan_unsigned(text);
    proof {
        if let Some(n) = r {
            lemma_decimal_round_trip(n);
        }
    }
    r
}

fn scan_unsigned(text: &str) -> (r: Option<u32>)
    ensures
        match r {
            Some(n) => text@ == decimal(n as nat),
            None => forall|n: u32| text@ != #[trigger] decimal(n as nat),
        },
{
    broadcast use is_ascii_spec_bytes;

    if !text.is_ascii() {
        proof {
            assert forall|n: u32| text@ != #[trigger] decimal(n as nat) by {
                lemma_decimal_digits(n as nat);
            }
        }
        return None;
    }
    let bytes = text.as_bytes();
    let len = bytes.len();
    assert(len == text@.len());
    assert(forall|i: int| 0 <= i < len ==> bytes@[i] == text@[i] as u8);
    if len == 0 || len > 10 {
        proof {
            assert forall|n: u32| text@ != #[trigger] decimal(n as nat) by {
                lemma_decimal_digits(n as nat);
                lemma_decimal_len(n as nat, 10);
                assert(pow10(10) == 10_000_000_000) by {
                    reveal_with_fuel(pow10, 11);
                }
            }
        }
        return None;
    }
    let first = bytes[0];
    if first < 48 || first > 57 {
        proof {
            assert forall|n: u32| text@ != #[trigger] decimal(n as nat) by {
                lemma_decimal_digits(n as nat);
                assert(!is_digit(text@[0]));
            }
        }
        return None;
    }
    if first == 48 {
        if len == 1 {
            assert(text@ =~= decimal(0));
            return Some(0);
        }
        proof {
            assert forall|n: u32| text@ != #[trigger] decimal(n as nat) by {
                if n >= 1 {
                    lemma_decimal_leading(n as nat);
                }
            }
        }
        return None;
    }
    let mut acc: u64 = (first - 48) as u64;
    let mut i: usize = 1;
    assert(text@.take(1) =~= decimal(acc as nat));
    while i < len
        invariant
            1 <= i <= len <= 10,
            len == text@.len(),
            len == bytes@.len(),
            is_ascii(text),
            forall|j: int| 0 <= j < len ==> bytes@[j] == text@[j] as u8,
            acc >= 1,
            text@.take(i as int) == decimal(acc as nat),
        decreases len - i,
    {
        let b = bytes[i];
        if b < 48 || b > 57 {
            proof {
                assert forall|n: u32| text@ != #[trigger] decimal(n as nat) by {
                    lemma_decimal_digits(n as nat);
                    assert(!is_digit(text@[i as int]));
                }
            }
            return None;
        }
        proof {
            lemma_decimal_len(acc as nat, i as nat);
            lemma_decimal_len(acc as nat, 9);
            assert(pow10(9) == 1_000_000_000) by {
                reveal_with_fuel(pow10, 10);
            }
        }
        let d: u64 = (b - 48) as u64;
        let next: u64 = acc * 10 + d;
        proof {
            assert(text@[i as int] == digit_char(d as nat));
            assert(text@.take(i + 1) =~= text@.take(i as int).push(text@[i as int]));
            assert(next / 10 == acc && next % 10 == d);
        }
        acc = next;
        i = i + 1;
    }
    assert(text@.take(len as int) =~= text@);
    if acc > 0xffff_ffff {
        proof {
            assert forall|n: u32| text@ != #[trigger] decimal(n as nat) by {
                if text@ == decimal(n as nat) {
                    lemma_decimal_injective(n as nat, acc as nat);
                }
            }
        }
        return None;
    }
    Some(acc as u32)
}

} // verus!
