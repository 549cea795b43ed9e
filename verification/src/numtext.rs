//! Decimal text for wire payloads and responses: formatting unsigned
//! integers into request arguments, and parsing response values that the
//! device reports as decimal numbers.

use vstd::prelude::*;

verus! {

/// The decimal digit character for `d`.
pub open spec fn digit_char(d: int) -> char {
    if d == 0 {
        '0'
    } else if d == 1 {
        '1'
    } else if d == 2 {
        '2'
    } else if d == 3 {
        '3'
    } else if d == 4 {
        '4'
    } else if d == 5 {
        '5'
    } else if d == 6 {
        '6'
    } else if d == 7 {
        '7'
    } else if d == 8 {
        '8'
    } else {
        '9'
    }
}

/// The canonical decimal spelling of `n`: no sign, no leading zeros
/// (except for `n == 0` itself).
pub open spec fn dec_chars(n: nat) -> Seq<char>
    decreases n,
{
    if n < 10 {
        seq![digit_char(n as int)]
    } else {
        dec_chars(n / 10) + seq![digit_char((n % 10) as int)]
    }
}

/// Whether `c` is a decimal digit.
pub open spec fn is_digit(c: char) -> bool {
    48 <= c as u32 <= 57
}

/// The numeric value of the digit `c`.
pub open spec fn digit_val(c: char) -> nat {
    (c as u32 - 48) as nat
}

/// Whether every character of `s` is a decimal digit.
pub open spec fn all_digits(s: Seq<char>) -> bool {
    forall|i: int| 0 <= i < s.len() ==> is_digit(#[trigger] s[i])
}

/// The number denoted by the digit string `s` (most significant first).
pub open spec fn dec_value(s: Seq<char>) -> nat
    decreases s.len(),
{
    if s.len() == 0 {
        0
    } else {
        dec_value(s.drop_last()) * 10 + digit_val(s.last())
    }
}

/// The digit string of an unsigned number after any single leading `+`
/// sign has been taken off.
pub open spec fn unsigned_body(s: Seq<char>) -> Seq<char> {
    if s.len() > 0 && s[0] == '+' {
        s.drop_first()
    } else {
        s
    }
}

/// Whether `s` spells an unsigned decimal number no larger than `limit`:
/// an optional `+`, then at least one digit, nothing else.
pub open spec fn is_unsigned_str(s: Seq<char>, limit: nat) -> bool {
    &&& unsigned_body(s).len() >= 1
    &&& all_digits(unsigned_body(s))
    &&& dec_value(unsigned_body(s)) <= limit
}

/// Appending one digit multiplies the value by ten and adds the digit.
pub(crate) proof fn lemma_dec_value_push(s: Seq<char>, c: char)
    ensures
        dec_value(s.push(c)) == dec_value(s) * 10 + digit_val(c),
{
    assert(s.push(c).drop_last() =~= s);
}

/// Extending a digit string never shrinks its value.
proof fn lemma_dec_value_extend(s: Seq<char>, t: Seq<char>)
    requires
        s.len() <= t.len(),
        forall|i: int| 0 <= i < s.len() ==> s[i] == t[i],
    ensures
        dec_value(s) <= dec_value(t),
    decreases t.len() - s.len(),
{
    if s.len() < t.len() {
        let t1 = t.drop_last();
        lemma_dec_value_extend(s, t1);
        assert(dec_value(t) == dec_value(t1) * 10 + digit_val(t.last()));
        assert(dec_value(t1) <= dec_value(t1) * 10) by (nonlinear_arith);
    } else {
        assert(s =~= t);
    }
}

/// Ten times a number above `(m - d) / 10`, plus `d`, exceeds `m`.
proof fn lemma_mul10_overflow(v: nat, d: nat, m: nat)
    requires
        d <= 9,
        d <= m,
        v > (m - d) / 10,
    ensures
        v * 10 + d > m,
{
    let x = m - d;
    vstd::arithmetic::div_mod::lemma_fundamental_div_mod(x, 10);
    let q = x / 10;
    assert(x == 10 * q + x % 10);
    assert(0 <= x % 10 < 10);
    assert(v * 10 >= (q + 1) * 10) by (nonlinear_arith)
        requires
            v >= q + 1,
    ;
    assert((q + 1) * 10 == 10 * q + 10) by (nonlinear_arith);
}

/// The decimal digit `d`, as request text.
fn digit_str(d: u64) -> (r: &'static str)
    requires
        d < 10,
    ensures
        r@ == seq![digit_char(d as int)],
{
    if d == 0 {
        proof {
            reveal_strlit("0");
            assert("0"@ =~= seq!['0']);
        }
        "0"
    } else if d == 1 {
        proof {
            reveal_strlit("1");
            assert("1"@ =~= seq!['1']);
        }
        "1"
    } else if d == 2 {
        proof {
            reveal_strlit("2");
            assert("2"@ =~= seq!['2']);
        }
        "2"
    } else if d == 3 {
        proof {
            reveal_strlit("3");
            assert("3"@ =~= seq!['3']);
        }
        "3"
    } else if d == 4 {
        proof {
            reveal_strlit("4");
            assert("4"@ =~= seq!['4']);
        }
        "4"
    } else if d == 5 {
        proof {
            reveal_strlit("5");
            assert("5"@ =~= seq!['5']);
        }
        "5"
    } else if d == 6 {
        proof {
            reveal_strlit("6");
            assert("6"@ =~= seq!['6']);
        }
        "6"
    } else if d == 7 {
        proof {
            reveal_strlit("7");
            assert("7"@ =~= seq!['7']);
        }
        "7"
    } else if d == 8 {
        proof {
            reveal_strlit("8");
            assert("8"@ =~= seq!['8']);
        }
        "8"
    } else {
        proof {
            reveal_strlit("9");
            assert("9"@ =~= seq!['9']);
        }
        "9"
    }
}

/// Formats `n` as its canonical decimal spelling.
pub fn u64_to_string(n: u64) -> (r: String)
    ensures
        r@ == dec_chars(n as nat),
    decreases n,
{
    if n < 10 {
        String::from_str(digit_str(n))
    } else {
        let mut s = u64_to_string(n / 10);
        s.append(digit_str(n % 10));
        s
    }
}

/// A quantity counted in tenths, as the wire expects it: whole values
/// printed bare, anything else with one decimal place.
pub open spec fn tenths_chars(t: nat) -> Seq<char> {
    if t % 10 == 0 {
        dec_chars(t / 10)
    } else {
        dec_chars(t / 10) + "."@ + dec_chars(t % 10)
    }
}

/// Formats a quantity counted in tenths for the wire.
pub fn tenths_to_string(t: u8) -> (r: String)
    ensures
        r@ == tenths_chars(t as nat),
{
    if t % 10 == 0 {
        u64_to_string((t / 10) as u64)
    } else {
        let mut s = u64_to_string((t / 10) as u64);
        s.append(".");
        s.append(u64_to_string((t % 10) as u64).as_str());
        s
    }
}

/// Parses an unsigned decimal number: an optional `+`, then at least one
/// digit, rejecting anything else and any value above `u64::MAX`.
pub fn parse_u64(s: &str) -> (r: Option<u64>)
    ensures
        match r {
            Some(v) => is_unsigned_str(s@, u64::MAX as nat) && v == dec_value(unsigned_body(s@)),
            None => !is_unsigned_str(s@, u64::MAX as nat),
        },
{
    let n = s.unicode_len();
    let start: usize = if n > 0 && s.get_char(0) == '+' {
        1
    } else {
        0
    };
    let ghost body = unsigned_body(s@);
    proof {
        assert(body =~= s@.subrange(start as int, n as int));
    }
    if start == n {
        return None;
    }
    let mut val: u64 = 0;
    let mut i: usize = start;
    while i < n
        invariant
            start <= i <= n,
            n == s@.len(),
            body == unsigned_body(s@),
            body == s@.subrange(start as int, n as int),
            all_digits(s@.subrange(start as int, i as int)),
            val == dec_value(s@.subrange(start as int, i as int)),
        decreases n - i,
    {
        let c = s.get_char(i);
        let u = c as u32;
        if !(48 <= u && u <= 57) {
            proof {
                assert(body[i - start] == c);
                assert(!is_digit(body[i - start]));
            }
            return None;
        }
        let d = (u - 48) as u64;
        let ghost prefix = s@.subrange(start as int, i as int);
        proof {
            assert(s@.subrange(start as int, i as int + 1) =~= prefix.push(c));
            lemma_dec_value_push(prefix, c);
        }
        if val > (u64::MAX - d) / 10 {
            proof {
                lemma_mul10_overflow(val as nat, d as nat, u64::MAX as nat);
                assert(dec_value(prefix.push(c)) == val * 10 + d);
                lemma_dec_value_extend(prefix.push(c), body);
                assert(dec_value(body) > u64::MAX as nat);
            }
            return None;
        }
        proof {
            assert(val * 10 + d <= u64::MAX) by (nonlinear_arith)
                requires
                    d <= 9,
                    val <= (u64::MAX - d) / 10,
            ;
        }
        val = val * 10 + d;
        i += 1;
    }
    proof {
        assert(s@.subrange(start as int, n as int) =~= body);
    }
    Some(val)
}

/// Parses an unsigned decimal number no larger than `u32::MAX`.
pub fn parse_u32(s: &str) -> (r: Option<u32>)
    ensures
        match r {
            Some(v) => is_unsigned_str(s@, u32::MAX as nat) && v == dec_value(unsigned_body(s@)),
            None => !is_unsigned_str(s@, u32::MAX as nat),
        },
{
    match parse_u64(s) {
        Some(v) if v <= u32::MAX as u64 => Some(v as u32),
        _ => None,
    }
}

/// Parses an unsigned decimal number no larger than `u8::MAX`.
pub fn parse_u8(s: &str) -> (r: Option<u8>)
    ensures
        match r {
            Some(v) => is_unsigned_str(s@, u8::MAX as nat) && v == dec_value(unsigned_body(s@)),
            None => !is_unsigned_str(s@, u8::MAX as nat),
        },
{
    match parse_u64(s) {
        Some(v) if v <= u8::MAX as u64 => Some(v as u8),
        _ => None,
    }
}

/// The digit string of a signed decimal number after any single leading
/// `+` or `-` sign has been taken off.
pub open spec fn signed_body(s: Seq<char>) -> Seq<char> {
    if s.len() > 0 && (s[0] == '+' || s[0] == '-') {
        s.drop_first()
    } else {
        s
    }
}

/// Whether `s` begins with a `-` sign.
pub open spec fn is_negative_str(s: Seq<char>) -> bool {
    s.len() > 0 && s[0] == '-'
}

/// Whether `s` spells a decimal number representable as an `i64`: an
/// optional sign, then at least one digit, nothing else.
pub open spec fn is_i64_str(s: Seq<char>) -> bool {
    &&& signed_body(s).len() >= 1
    &&& all_digits(signed_body(s))
    &&& if is_negative_str(s) {
        dec_value(signed_body(s)) <= 0x8000_0000_0000_0000
    } else {
        dec_value(signed_body(s)) <= i64::MAX as nat
    }
}

/// The number denoted by the signed decimal string `s`.
pub open spec fn i64_str_value(s: Seq<char>) -> int {
    if is_negative_str(s) {
        -(dec_value(signed_body(s)) as int)
    } else {
        dec_value(signed_body(s)) as int
    }
}

/// Parses a signed decimal number: an optional `+` or `-`, then at least
/// one digit, rejecting anything else and any value outside `i64`'s range.
pub fn parse_i64(s: &str) -> (r: Option<i64>)
    ensures
        match r {
            Some(v) => is_i64_str(s@) && v as int == i64_str_value(s@),
            None => !is_i64_str(s@),
        },
{
    let n = s.unicode_len();
    if n == 0 {
        return None;
    }
    let c0 = s.get_char(0);
    let negative = c0 == '-';
    let rest = if c0 == '-' || c0 == '+' {
        s.substring_char(1, n)
    } else {
        s.substring_char(0, n)
    };
    proof {
        assert(rest@ =~= signed_body(s@));
    }
    // A second sign character is not a digit; reject it here so that the
    // magnitude below can go through the unsigned parser, which itself
    // tolerates one leading plus.
    if rest.unicode_len() > 0 {
        let r0 = rest.get_char(0);
        if r0 == '+' || r0 == '-' {
            assert(!is_digit(signed_body(s@)[0]));
            return None;
        }
    }
    let limit: u64 = if negative {
        0x8000_0000_0000_0000
    } else {
        i64::MAX as u64
    };
    proof {
        assert(unsigned_body(rest@) =~= rest@);
    }
    let mag = match parse_u64(rest) {
        Some(v) if v <= limit => v,
        _ => {
            return None;
        },
    };
    if negative {
        if mag == 0x8000_0000_0000_0000 {
            Some(i64::MIN)
        } else {
            Some(-(mag as i64))
        }
    } else {
        Some(mag as i64)
    }
}

} // verus!
