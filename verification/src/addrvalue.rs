//! Verified validators for the payload values that address segments
//! carry: decimal numbers (ports, IPv4 octets), IPv4 and IPv6 literals,
//! and base58 peer-identifier text.

use vstd::prelude::*;
use vstd::string::StrSliceExecFns;

verus! {

/// A decimal digit.
pub open spec fn is_digit(c: char) -> bool {
    48 <= (c as u32) && (c as u32) <= 57
}

/// The numeric value of a decimal digit.
pub open spec fn digit_val(c: char) -> int
    recommends
        is_digit(c),
{
    (c as u32) - 48
}

/// Every character of the sequence is a decimal digit.
pub open spec fn all_digits(s: Seq<char>) -> bool {
    forall|k: int| 0 <= k < s.len() ==> is_digit(#[trigger] s[k])
}

/// The number a sequence of decimal digits denotes, most significant
/// digit first.
pub open spec fn num_val(s: Seq<char>) -> int
    decreases s.len(),
{
    if s.len() == 0 {
        0
    } else {
        num_val(s.drop_last()) * 10 + digit_val(s.last())
    }
}

/// A non-empty run of digits without a superfluous leading zero whose
/// value is at most `max`.
pub open spec fn valid_decimal(s: Seq<char>, max: int) -> bool {
    &&& s.len() >= 1
    &&& all_digits(s)
    &&& (s.len() == 1 || s[0] != '0')
    &&& num_val(s) <= max
}

proof fn lemma_num_val_nonneg(s: Seq<char>)
    requires
        all_digits(s),
    ensures
        num_val(s) >= 0,
    decreases s.len(),
{
    if s.len() > 0 {
        assert(all_digits(s.drop_last()));
        lemma_num_val_nonneg(s.drop_last());
    }
}

/// Extending a digit run to the right never shrinks its value.
proof fn lemma_num_val_prefix(s: Seq<char>, i: int)
    requires
        all_digits(s),
        0 <= i <= s.len(),
    ensures
        num_val(s) >= num_val(s.take(i)),
    decreases s.len() - i,
{
    if i < s.len() {
        assert(s.take(i + 1).drop_last() =~= s.take(i));
        assert(s.take(i + 1).last() == s[i]);
        assert(all_digits(s.take(i)));
        lemma_num_val_nonneg(s.take(i));
        assert(num_val(s.take(i + 1)) == num_val(s.take(i)) * 10 + digit_val(s[i]));
        lemma_num_val_prefix(s, i + 1);
    } else {
        assert(s.take(i) =~= s);
    }
}

/// Check that a string is a non-empty decimal number without a
/// superfluous leading zero and at most `max`.
pub fn check_decimal(v: &str, max: u32) -> (r: bool)
    ensures
        r == valid_decimal(v@, max as int),
{
    let n = v.unicode_len();
    if n == 0 {
        return false;
    }
    if n > 1 && v.get_char(0) == '0' {
        return false;
    }
    let mut acc: u64 = 0;
    let mut i: usize = 0;
    while i < n
        invariant
            1 <= n,
            n as nat == v@.len(),
            i <= n,
            all_digits(v@.take(i as int)),
            acc as int == num_val(v@.take(i as int)),
            acc <= max,
        decreases n - i,
    {
        let c = v.get_char(i);
        let u = c as u32;
        if u < 48 || u > 57 {
            assert(!is_digit(v@[i as int]));
            return false;
        }
        let d = (u - 48) as u64;
        proof {
            assert(v@.take(i + 1).drop_last() =~= v@.take(i as int));
            assert(v@.take(i + 1).last() == v@[i as int]);
        }
        acc = acc * 10 + d;
        if acc > max as u64 {
            proof {
                assert(!valid_decimal(v@, max as int)) by {
                    if all_digits(v@) {
                        lemma_num_val_prefix(v@, i + 1);
                    }
                }
            }
            return false;
        }
        i += 1;
    }
    proof {
        assert(v@.take(n as int) =~= v@);
    }
    true
}

/// The first index at or after `i` holding `stop`, or the length of the
/// sequence when no later character does.
pub open spec fn scan(s: Seq<char>, i: int, stop: char) -> int
    decreases s.len() - i,
{
    if i >= s.len() {
        s.len() as int
    } else if s[i] == stop {
        i
    } else {
        scan(s, i + 1, stop)
    }
}

pub proof fn lemma_scan_ge(s: Seq<char>, i: int, stop: char)
    ensures
        i <= s.len() ==> i <= scan(s, i, stop) <= s.len(),
    decreases s.len() - i,
{
    if i < s.len() && s[i] != stop {
        lemma_scan_ge(s, i + 1, stop);
    }
}

pub proof fn lemma_scan(s: Seq<char>, i: int, stop: char)
    requires
        0 <= i <= s.len(),
    ensures
        i <= scan(s, i, stop) <= s.len(),
        forall|k: int| i <= k < scan(s, i, stop) ==> s[k] != stop,
        scan(s, i, stop) < s.len() ==> s[scan(s, i, stop)] == stop,
    decreases s.len() - i,
{
    if i < s.len() && s[i] != stop {
        lemma_scan(s, i + 1, stop);
    }
}

/// `scan` is pinned down by its characteristic properties.
pub proof fn lemma_scan_is(s: Seq<char>, i: int, j: int, stop: char)
    requires
        0 <= i <= j <= s.len(),
        forall|k: int| i <= k < j ==> s[k] != stop,
        j < s.len() ==> s[j] == stop,
    ensures
        scan(s, i, stop) == j,
    decreases j - i,
{
    if i < j {
        lemma_scan_is(s, i + 1, j, stop);
    }
}

/// Find the first occurrence of `stop` at or after index `i`, or the
/// end of the string.
pub fn scan_str(s: &str, i: usize, stop: char) -> (j: usize)
    requires
        i <= s@.len(),
    ensures
        i <= j <= s@.len(),
        j as int == scan(s@, i as int, stop),
        forall|k: int| i <= k < j ==> s@[k] != stop,
        j < s@.len() ==> s@[j as int] == stop,
    decreases s@.len() - i,
{
    let n = s.unicode_len();
    let mut j: usize = i;
    while j < n
        invariant
            i <= j <= n,
            n as nat == s@.len(),
            forall|k: int| i <= k < j ==> s@[k] != stop,
        decreases n - j,
    {
        if s.get_char(j) == stop {
            proof {
                lemma_scan_is(s@, i as int, j as int, stop);
            }
            return j;
        }
        j += 1;
    }
    proof {
        lemma_scan_is(s@, i as int, n as int, stop);
    }
    j
}

/// Four valid octets separated by dots, checked from index `i` with
/// `parts` octets still expected.
pub open spec fn valid_ip4_from(s: Seq<char>, i: int, parts: int) -> bool
    decreases parts,
{
    if parts <= 0 {
        false
    } else {
        let j = scan(s, i, '.');
        &&& valid_decimal(s.subrange(i, j), 255)
        &&& if parts == 1 {
            j == s.len()
        } else {
            j < s.len() && valid_ip4_from(s, j + 1, parts - 1)
        }
    }
}

/// A dotted-quad IPv4 literal.
pub open spec fn valid_ip4(s: Seq<char>) -> bool {
    valid_ip4_from(s, 0, 4)
}

fn check_ip4_from(v: &str, i: usize, parts: u32) -> (r: bool)
    requires
        i <= v@.len(),
    ensures
        r == valid_ip4_from(v@, i as int, parts as int),
    decreases parts,
{
    if parts == 0 {
        return false;
    }
    let j = scan_str(v, i, '.');
    proof {
        lemma_scan_ge(v@, i as int, '.');
    }
    let octet = v.substring_char(i, j);
    if !check_decimal(octet, 255) {
        return false;
    }
    let n = v.unicode_len();
    if parts == 1 {
        j == n
    } else {
        if j == n {
            false
        } else {
            check_ip4_from(v, j + 1, parts - 1)
        }
    }
}

/// Check that a string is a dotted-quad IPv4 literal.
pub fn check_ip4(v: &str) -> (r: bool)
    ensures
        r == valid_ip4(v@),
{
    check_ip4_from(v, 0, 4)
}

/// A hexadecimal digit, either case.
pub open spec fn is_hex_char(c: char) -> bool {
    ||| is_digit(c)
    ||| 97 <= (c as u32) && (c as u32) <= 102
    ||| 65 <= (c as u32) && (c as u32) <= 70
}

/// A simplified IPv6 literal: hexadecimal digits and colons, with at
/// least one colon.
pub open spec fn valid_ip6(s: Seq<char>) -> bool {
    &&& s.len() >= 2
    &&& (forall|k: int| 0 <= k < s.len() ==> is_hex_char(#[trigger] s[k]) || s[k] == ':')
    &&& (exists|k: int| 0 <= k < s.len() && #[trigger] s[k] == ':')
}

/// Check that a string is a (simplified) IPv6 literal.
pub fn check_ip6(v: &str) -> (r: bool)
    ensures
        r == valid_ip6(v@),
{
    let n = v.unicode_len();
    if n < 2 {
        return false;
    }
    let mut seen_colon = false;
    let mut i: usize = 0;
    while i < n
        invariant
            i <= n,
            n as nat == v@.len(),
            forall|k: int| 0 <= k < i ==> is_hex_char(#[trigger] v@[k]) || v@[k] == ':',
            seen_colon == (exists|k: int| 0 <= k < i && #[trigger] v@[k] == ':'),
        decreases n - i,
    {
        let c = v.get_char(i);
        if c == ':' {
            seen_colon = true;
            proof {
                assert(v@[i as int] == ':');
            }
        } else {
            let u = c as u32;
            let hex = (48 <= u && u <= 57) || (97 <= u && u <= 102) || (65 <= u && u <= 70);
            if !hex {
                assert(!(is_hex_char(v@[i as int]) || v@[i as int] == ':'));
                return false;
            }
        }
        i += 1;
    }
    seen_colon
}

/// A character of the base58 alphabet used for peer identifiers:
/// alphanumeric without `0`, `O`, `I` and `l`.
pub open spec fn is_base58_char(c: char) -> bool {
    let u = c as u32;
    ||| 49 <= u && u <= 57
    ||| 65 <= u && u <= 72
    ||| 74 <= u && u <= 78
    ||| 80 <= u && u <= 90
    ||| 97 <= u && u <= 107
    ||| 109 <= u && u <= 122
}

/// Non-empty base58 text.
pub open spec fn valid_base58(s: Seq<char>) -> bool {
    &&& s.len() >= 1
    &&& (forall|k: int| 0 <= k < s.len() ==> is_base58_char(#[trigger] s[k]))
}

/// Check that a string is non-empty base58 text.
pub fn check_base58(v: &str) -> (r: bool)
    ensures
        r == valid_base58(v@),
{
    let n = v.unicode_len();
    if n == 0 {
        return false;
    }
    let mut i: usize = 0;
    while i < n
        invariant
            i <= n,
            n as nat == v@.len(),
            forall|k: int| 0 <= k < i ==> is_base58_char(#[trigger] v@[k]),
        decreases n - i,
    {
        let u = v.get_char(i) as u32;
        let ok = (49 <= u && u <= 57) || (65 <= u && u <= 72) || (74 <= u && u <= 78) || (80 <= u
            && u <= 90) || (97 <= u && u <= 107) || (109 <= u && u <= 122);
        if !ok {
            assert(!is_base58_char(v@[i as int]));
            return false;
        }
        i += 1;
    }
    true
}

} // verus!
