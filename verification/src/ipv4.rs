//! Dotted-quad IPv4 address text: the form the controller's LAN
//! configuration commands carry on the wire, validated before any
//! transaction is attempted.

use vstd::prelude::*;
use vstd::string::StrSliceExecFns;

use crate::codec::{split_on, split_str};
use crate::numtext::{all_digits, dec_value, is_digit, lemma_dec_value_push};

verus! {

/// Whether `s` is one decimal octet as an address part: one to three
/// digits, no leading zero unless it is exactly `0`, value at most 255.
pub open spec fn is_octet(s: Seq<char>) -> bool {
    &&& 1 <= s.len() <= 3
    &&& all_digits(s)
    &&& (s.len() > 1 ==> s[0] != '0')
    &&& dec_value(s) <= 255
}

/// Whether `s` is a dotted-quad IPv4 address: four octets joined by dots.
pub open spec fn is_ipv4(s: Seq<char>) -> bool {
    let parts = split_on(s, '.');
    parts.len() == 4 && forall|i: int| 0 <= i < 4 ==> is_octet(#[trigger] parts[i])
}

/// Whether one address part is a well-formed octet.
fn octet_ok(s: &str) -> (r: bool)
    ensures
        r == is_octet(s@),
{
    let n = s.unicode_len();
    if n < 1 || n > 3 {
        return false;
    }
    if n > 1 && s.get_char(0) == '0' {
        return false;
    }
    let mut val: u32 = 0;
    let mut i: usize = 0;
    while i < n
        invariant
            0 <= i <= n,
            n == s@.len(),
            n <= 3,
            all_digits(s@.subrange(0, i as int)),
            val == dec_value(s@.subrange(0, i as int)),
            val <= 999,
        decreases n - i,
    {
        let c = s.get_char(i);
        let u = c as u32;
        if !(48 <= u && u <= 57) {
            proof {
                assert(s@.subrange(0, n as int) =~= s@);
                assert(!is_digit(s@[i as int]));
            }
            return false;
        }
        let ghost prefix = s@.subrange(0, i as int);
        proof {
            assert(s@.subrange(0, i as int + 1) =~= prefix.push(c));
            lemma_dec_value_push(prefix, c);
            assert(dec_value(prefix) <= 99) by {
                if i == 2 {
                    let p1 = prefix.drop_last();
                    assert(dec_value(prefix) == dec_value(p1) * 10 + crate::numtext::digit_val(
                        prefix.last(),
                    ));
                    assert(p1 =~= s@.subrange(0, 1));
                    assert(dec_value(p1) == dec_value(p1.drop_last()) * 10
                        + crate::numtext::digit_val(p1.last()));
                    assert(p1.drop_last() =~= Seq::<char>::empty());
                }
                if i == 1 {
                    assert(dec_value(prefix) == dec_value(prefix.drop_last()) * 10
                        + crate::numtext::digit_val(prefix.last()));
                    assert(prefix.drop_last() =~= Seq::<char>::empty());
                }
                if i == 0 {
                    assert(prefix =~= Seq::<char>::empty());
                }
            }
        }
        val = val * 10 + (u - 48);
        i += 1;
    }
    proof {
        assert(s@.subrange(0, n as int) =~= s@);
    }
    val <= 255
}

/// Whether `s` is a dotted-quad IPv4 address the controller will accept.
pub fn validate_ipv4(s: &str) -> (r: bool)
    ensures
        r == is_ipv4(s@),
{
    let parts = split_str(s, '.');
    if parts.len() != 4 {
        return false;
    }
    let mut i: usize = 0;
    while i < 4
        invariant
            0 <= i <= 4,
            parts@.len() == 4,
            parts.deep_view() == split_on(s@, '.'),
            forall|j: int| 0 <= j < i ==> is_octet(#[trigger] parts.deep_view()[j]),
        decreases 4 - i,
    {
        proof {
            assert(parts.deep_view()[i as int] == parts@[i as int]@);
        }
        if !octet_ok(parts[i].as_str()) {
            return false;
        }
        i += 1;
    }
    true
}

} // verus!
