//! Small text utilities the wire protocol and the configuration surface
//! share: case folding over ASCII bytes, and decimal numbers read and
//! written exactly.

use vstd::prelude::*;

verus! {

/// ASCII lower-casing of one byte; anything but a capital letter is
/// already in its lower form.
pub open spec fn lower_byte(c: u8) -> u8 {
    if 65 <= c && c <= 90 {
        (c + 32) as u8
    } else {
        c
    }
}

/// The two byte runs spell the same word up to ASCII case.
pub open spec fn name_matches(a: Seq<u8>, b: Seq<u8>) -> bool {
    a.len() == b.len() && forall|i: int|
        0 <= i < a.len() ==> lower_byte(#[trigger] a[i]) == lower_byte(#[trigger] b[i])
}

/// Lower-cases one ASCII byte.
fn lower(c: u8) -> (r: u8)
    ensures
        r == lower_byte(c),
{
    if 65 <= c && c <= 90 {
        c + 32
    } else {
        c
    }
}

/// Compares two byte runs up to ASCII case.
pub fn eq_ignore_case(a: &[u8], b: &[u8]) -> (r: bool)
    ensures
        r == name_matches(a@, b@),
{
    if a.len() != b.len() {
        return false;
    }
    for i in 0..a.len()
        invariant
            a@.len() == b@.len(),
            forall|j: int| 0 <= j < i ==> lower_byte(#[trigger] a@[j]) == lower_byte(
                #[trigger] b@[j],
            ),
    {
        if lower(a[i]) != lower(b[i]) {
            return false;
        }
    }
    true
}

/// Compares two byte runs exactly.
pub fn bytes_equal(a: &[u8], b: &[u8]) -> (r: bool)
    ensures
        r == (a@ == b@),
{
    if a.len() != b.len() {
        proof {
            assert(a@ != b@);
        }
        return false;
    }
    for i in 0..a.len()
        invariant
            a@.len() == b@.len(),
            forall|j: int| 0 <= j < i ==> a@[j] == b@[j],
    {
        if a[i] != b[i] {
            proof {
                assert(a@ != b@);
            }
            return false;
        }
    }
    proof {
        assert(a@ =~= b@);
    }
    true
}

/// An ASCII decimal digit.
pub open spec fn is_digit(c: u8) -> bool {
    48 <= c && c <= 57
}

/// Every byte of the run is a decimal digit.
pub open spec fn all_digits(s: Seq<u8>) -> bool {
    forall|i: int| 0 <= i < s.len() ==> is_digit(#[trigger] s[i])
}

/// The number a run of decimal digits denotes.
pub open spec fn dec_value(s: Seq<u8>) -> nat
    decreases s.len(),
{
    if s.len() == 0 {
        0
    } else {
        dec_value(s.drop_last()) * 10 + (if s.last() >= 48 {
            (s.last() - 48) as nat
        } else {
            0
        })
    }
}

/// A digit run denotes at least what any of its prefixes denotes.
pub proof fn lemma_dec_value_prefix(s: Seq<u8>, i: int)
    requires
        0 <= i <= s.len(),
    ensures
        dec_value(s.subrange(0, i)) <= dec_value(s),
    decreases s.len() - i,
{
    if i < s.len() {
        lemma_dec_value_prefix(s, i + 1);
        assert(s.subrange(0, i + 1).drop_last() =~= s.subrange(0, i));
        assert(dec_value(s.subrange(0, i)) <= dec_value(s.subrange(0, i + 1)));
    } else {
        assert(s.subrange(0, i) =~= s);
    }
}

/// Reads an unsigned decimal number.  Succeeds exactly on a non-empty,
/// all-digit run whose value fits the machine word, and then returns that
/// value.
pub fn parse_u64(s: &[u8]) -> (r: Option<u64>)
    ensures
        r == spec_u64_of(s@),
        r is Some <==> s@.len() > 0 && all_digits(s@) && dec_value(s@) <= u64::MAX,
        r matches Some(v) ==> v == dec_value(s@),
{
    if s.len() == 0 {
        return None;
    }
    let mut value: u64 = 0;
    for i in 0..s.len()
        invariant
            s@.len() > 0,
            forall|j: int| 0 <= j < i ==> is_digit(#[trigger] s@[j]),
            value == dec_value(s@.subrange(0, i as int)),
    {
        let c = s[i];
        if c < 48 || c > 57 {
            return None;
        }
        let d = c - 48;
        proof {
            assert(s@.subrange(0, i + 1).drop_last() =~= s@.subrange(0, i as int));
        }
        if value > (u64::MAX - d as u64) / 10 {
            proof {
                lemma_dec_value_prefix(s@, i + 1);
            }
            return None;
        }
        value = value * 10 + d as u64;
    }
    proof {
        assert(s@.subrange(0, s@.len() as int) =~= s@);
    }
    Some(value)
}

/// The digits of a number, most significant first, no leading zero.
pub open spec fn u64_digits(n: nat) -> Seq<u8>
    decreases n,
{
    if n < 10 {
        seq![(48 + n) as u8]
    } else {
        u64_digits(n / 10).push((48 + n % 10) as u8)
    }
}

/// Writing a number and reading it back is the identity.
pub proof fn lemma_u64_digits_value(n: nat)
    ensures
        dec_value(u64_digits(n)) == n,
        all_digits(u64_digits(n)),
        u64_digits(n).len() > 0,
    decreases n,
{
    if n < 10 {
        assert(u64_digits(n) == seq![(48 + n) as u8]);
        assert(u64_digits(n).drop_last() =~= Seq::<u8>::empty());
        assert(u64_digits(n).last() == (48 + n) as u8);
        assert(dec_value(u64_digits(n)) == dec_value(u64_digits(n).drop_last()) * 10 + n);
        assert(dec_value(Seq::<u8>::empty()) == 0);
    } else {
        lemma_u64_digits_value(n / 10);
        assert(u64_digits(n).drop_last() =~= u64_digits(n / 10));
        assert(u64_digits(n).last() == (48 + n % 10) as u8);
        assert(dec_value(u64_digits(n)) == dec_value(u64_digits(n / 10)) * 10 + n % 10);
        assert(n / 10 * 10 + n % 10 == n) by (nonlinear_arith);
    }
}

/// Writes a number in decimal, most significant digit first; reading
/// the digits back gives the number.
pub fn format_u64(v: u64) -> (r: Vec<u8>)
    ensures
        r@ == u64_digits(v as nat),
        dec_value(r@) == v,
        all_digits(r@),
        r@.len() > 0,
    decreases v,
{
    proof {
        lemma_u64_digits_value(v as nat);
    }
    if v < 10 {
        let mut r: Vec<u8> = Vec::new();
        r.push(48 + v as u8);
        proof {
            assert(r@ =~= u64_digits(v as nat));
        }
        r
    } else {
        let mut r = format_u64(v / 10);
        r.push(48 + (v % 10) as u8);
        r
    }
}

/// What a run of bytes denotes as a signed decimal number: an optional
/// leading minus sign, then at least one digit.
pub open spec fn signed_rep(s: Seq<u8>) -> Option<int> {
    if s.len() > 0 && s[0] == 45 {
        if s.len() > 1 && all_digits(s.drop_first()) {
            Some(-(dec_value(s.drop_first()) as int))
        } else {
            None
        }
    } else {
        if s.len() > 0 && all_digits(s) {
            Some(dec_value(s) as int)
        } else {
            None
        }
    }
}

/// What an unsigned decimal word denotes, when it fits a machine word.
pub open spec fn spec_u64_of(s: Seq<u8>) -> Option<u64> {
    if s.len() > 0 && all_digits(s) && dec_value(s) <= u64::MAX {
        Some(dec_value(s) as u64)
    } else {
        None
    }
}

/// What a signed decimal word denotes, when it fits an `i32`.
pub open spec fn spec_i32_of(s: Seq<u8>) -> Option<i32> {
    match signed_rep(s) {
        Some(v) => if i32::MIN <= v <= i32::MAX {
            Some(v as i32)
        } else {
            None
        },
        None => None,
    }
}

/// What a signed decimal word denotes, when it fits an `i8`.
pub open spec fn spec_i8_of(s: Seq<u8>) -> Option<i8> {
    match signed_rep(s) {
        Some(v) => if i8::MIN <= v <= i8::MAX {
            Some(v as i8)
        } else {
            None
        },
        None => None,
    }
}

/// Reads a signed decimal number into a machine integer.  Succeeds
/// exactly on a well-formed signed digit run whose value fits.
pub fn parse_i32(s: &[u8]) -> (r: Option<i32>)
    ensures
        r == spec_i32_of(s@),
        r is Some <==> (signed_rep(s@) matches Some(v) && i32::MIN <= v <= i32::MAX),
        r matches Some(x) ==> signed_rep(s@) == Some(x as int),
{
    if s.len() > 0 && s[0] == 45 {
        let rest = split_first(s);
        match parse_u64(rest) {
            Some(v) => {
                if v > 0x8000_0000u64 {
                    proof {
                        assert(signed_rep(s@) matches Some(w) ==> w < i32::MIN);
                    }
                    None
                } else if v == 0x8000_0000u64 {
                    Some(i32::MIN)
                } else {
                    Some(0 - (v as i32))
                }
            },
            None => None,
        }
    } else {
        match parse_u64(s) {
            Some(v) => {
                if v > i32::MAX as u64 {
                    None
                } else {
                    Some(v as i32)
                }
            },
            None => None,
        }
    }
}

/// Reads a signed decimal number into a byte-sized integer.
pub fn parse_i8(s: &[u8]) -> (r: Option<i8>)
    ensures
        r == spec_i8_of(s@),
{
    match parse_i32(s) {
        Some(v) => {
            if -128 <= v && v <= 127 {
                Some(v as i8)
            } else {
                None
            }
        },
        None => None,
    }
}

/// The run with its first byte dropped.
pub fn split_first(s: &[u8]) -> (r: &[u8])
    requires
        s@.len() > 0,
    ensures
        r@ == s@.drop_first(),
{
    let (_, rest) = s.split_at(1);
    proof {
        assert(rest@ =~= s@.drop_first());
    }
    rest
}

} // verus!
