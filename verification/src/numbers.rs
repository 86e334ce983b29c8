//! The number model. A runtime number is carried as the 64 raw bits of an
//! IEEE-754 double. Equality tests, ordering, negation and the zero test are
//! simple bit-level functions and are implemented and verified here; rounding
//! arithmetic, decimal parsing and decimal formatting are delegated to the
//! `rustc_apfloat` soft-float library behind trusted wrappers.

use vstd::prelude::*;
use rustc_apfloat::Float;
use crate::scanner::char_string;

verus! {

pub const SIGN_MASK: u64 = 0x8000_0000_0000_0000;

pub const MAG_MASK: u64 = 0x7fff_ffff_ffff_ffff;

pub const EXP_MASK: u64 = 0x7ff0_0000_0000_0000;

pub const FRAC_MASK: u64 = 0x000f_ffff_ffff_ffff;

/// A NaN has an all-ones exponent and a non-zero fraction.
pub open spec fn is_nan_bits(b: u64) -> bool {
    b & EXP_MASK == EXP_MASK && b & FRAC_MASK != 0
}

/// An infinity has an all-ones exponent and a zero fraction.
pub open spec fn is_inf_bits(b: u64) -> bool {
    b & MAG_MASK == EXP_MASK
}

/// A double equals 0.0 exactly when everything but the sign is zero.
pub open spec fn is_zero_bits(b: u64) -> bool {
    b & MAG_MASK == 0
}

pub open spec fn is_neg_bits(b: u64) -> bool {
    b & SIGN_MASK != 0
}

/// Order rank of a non-NaN double: sign-magnitude read as an integer. The
/// magnitude bits of same-signed doubles (finite or infinite) compare exactly
/// as the represented reals do, and both zeros get rank 0, so two non-NaN
/// doubles compare as their ranks do.
pub open spec fn rank_bits(b: u64) -> int {
    if is_neg_bits(b) {
        -((b & MAG_MASK) as int)
    } else {
        (b & MAG_MASK) as int
    }
}

/// IEEE `==` on doubles: false on any NaN, and +0.0 equals -0.0.
pub open spec fn num_eq_bits(a: u64, b: u64) -> bool {
    !is_nan_bits(a) && !is_nan_bits(b) && rank_bits(a) == rank_bits(b)
}

/// IEEE `<` on doubles: false on any NaN.
pub open spec fn num_lt_bits(a: u64, b: u64) -> bool {
    !is_nan_bits(a) && !is_nan_bits(b) && rank_bits(a) < rank_bits(b)
}

/// IEEE `<=` on doubles: false on any NaN.
pub open spec fn num_le_bits(a: u64, b: u64) -> bool {
    !is_nan_bits(a) && !is_nan_bits(b) && rank_bits(a) <= rank_bits(b)
}

/// IEEE negation flips the sign bit and nothing else.
pub open spec fn neg_bits(b: u64) -> u64 {
    b ^ SIGN_MASK
}

pub(crate) fn num_is_nan(b: u64) -> (r: bool)
    ensures
        r == is_nan_bits(b),
{
    b & EXP_MASK == EXP_MASK && b & FRAC_MASK != 0
}

pub(crate) fn num_is_inf(b: u64) -> (r: bool)
    ensures
        r == is_inf_bits(b),
{
    b & MAG_MASK == EXP_MASK
}

pub(crate) fn num_is_zero(b: u64) -> (r: bool)
    ensures
        r == is_zero_bits(b),
{
    b & MAG_MASK == 0
}

pub(crate) fn num_neg(b: u64) -> (r: u64)
    ensures
        r == neg_bits(b),
{
    b ^ SIGN_MASK
}

pub(crate) fn num_eq(a: u64, b: u64) -> (r: bool)
    ensures
        r == num_eq_bits(a, b),
{
    if num_is_nan(a) || num_is_nan(b) {
        false
    } else {
        let ma = a & MAG_MASK;
        let mb = b & MAG_MASK;
        let na = a & SIGN_MASK != 0;
        let nb = b & SIGN_MASK != 0;
        if na == nb {
            ma == mb
        } else {
            ma == 0 && mb == 0
        }
    }
}

pub(crate) fn num_lt(a: u64, b: u64) -> (r: bool)
    ensures
        r == num_lt_bits(a, b),
{
    if num_is_nan(a) || num_is_nan(b) {
        false
    } else {
        let ma = a & MAG_MASK;
        let mb = b & MAG_MASK;
        let na = a & SIGN_MASK != 0;
        let nb = b & SIGN_MASK != 0;
        if na && nb {
            mb < ma
        } else if na {
            // a <= 0 <= b; strict unless both are zero
            ma != 0 || mb != 0
        } else if nb {
            false
        } else {
            ma < mb
        }
    }
}

pub(crate) fn num_le(a: u64, b: u64) -> (r: bool)
    ensures
        r == num_le_bits(a, b),
{
    if num_is_nan(a) || num_is_nan(b) {
        false
    } else {
        num_lt(a, b) || num_eq(a, b)
    }
}

/// The bits of the IEEE double sum of two doubles, rounding to nearest even.
pub uninterp spec fn add_bits_of(a: u64, b: u64) -> u64;

/// The bits of the IEEE double difference, rounding to nearest even.
pub uninterp spec fn sub_bits_of(a: u64, b: u64) -> u64;

/// The bits of the IEEE double product, rounding to nearest even.
pub uninterp spec fn mul_bits_of(a: u64, b: u64) -> u64;

/// The bits of the IEEE double quotient, rounding to nearest even.
pub uninterp spec fn div_bits_of(a: u64, b: u64) -> u64;

/// The correctly rounded double named by a decimal text, if the text is a
/// well-formed decimal number.
pub uninterp spec fn parsed_bits_of(s: Seq<char>) -> Option<u64>;

/// The decimal text of a finite double, written with the given number of
/// significant digits and trailing zeros dropped; scientific notation is
/// chosen only where plain notation would claim more digits than asked for.
pub uninterp spec fn decimal_text_of(bits: u64, prec: nat) -> Seq<char>;

/// Relies on rustc_apfloat's IEEE double addition rounding to nearest even.
#[verifier::external_body]
pub(crate) fn num_add(a: u64, b: u64) -> (r: u64)
    ensures
        r == add_bits_of(a, b),
{
    let x = rustc_apfloat::ieee::Double::from_bits(a as u128);
    let y = rustc_apfloat::ieee::Double::from_bits(b as u128);
    (x + y).value.to_bits() as u64
}

/// Relies on rustc_apfloat's IEEE double subtraction rounding to nearest even.
#[verifier::external_body]
pub(crate) fn num_sub(a: u64, b: u64) -> (r: u64)
    ensures
        r == sub_bits_of(a, b),
{
    let x = rustc_apfloat::ieee::Double::from_bits(a as u128);
    let y = rustc_apfloat::ieee::Double::from_bits(b as u128);
    (x - y).value.to_bits() as u64
}

/// Relies on rustc_apfloat's IEEE double multiplication rounding to nearest even.
#[verifier::external_body]
pub(crate) fn num_mul(a: u64, b: u64) -> (r: u64)
    ensures
        r == mul_bits_of(a, b),
{
    let x = rustc_apfloat::ieee::Double::from_bits(a as u128);
    let y = rustc_apfloat::ieee::Double::from_bits(b as u128);
    (x * y).value.to_bits() as u64
}

/// Relies on rustc_apfloat's IEEE double division rounding to nearest even.
#[verifier::external_body]
pub(crate) fn num_div(a: u64, b: u64) -> (r: u64)
    ensures
        r == div_bits_of(a, b),
{
    let x = rustc_apfloat::ieee::Double::from_bits(a as u128);
    let y = rustc_apfloat::ieee::Double::from_bits(b as u128);
    (x / y).value.to_bits() as u64
}

/// Relies on rustc_apfloat's correctly rounded decimal-to-double conversion
/// (`Double::from_str`, rounding to nearest even).
#[verifier::external_body]
pub(crate) fn num_parse(s: &str) -> (r: Option<u64>)
    ensures
        r == parsed_bits_of(s@),
{
    match <rustc_apfloat::ieee::Double as core::str::FromStr>::from_str(s) {
        Ok(d) => Some(d.to_bits() as u64),
        Err(_) => None,
    }
}

/// Relies on rustc_apfloat's decimal formatting of a double: `Display` with a
/// significant-digit precision, and a width wide enough that plain notation
/// is preferred whenever it would not claim extra digits.
#[verifier::external_body]
pub(crate) fn num_text_prec(bits: u64, prec: usize) -> (r: String)
    ensures
        r@ == decimal_text_of(bits, prec as nat),
{
    let d = rustc_apfloat::ieee::Double::from_bits(bits as u128);
    format!("{:400.1$}", d, prec)
}

/// The decimal text of a finite double with the fewest significant digits
/// (at most 17) that still read back as exactly the same double.
pub open spec fn shortest_text_from(bits: u64, p: nat) -> Seq<char>
    decreases 17 - p,
    when 1 <= p <= 17
{
    if p >= 17 {
        decimal_text_of(bits, 17)
    } else if parsed_bits_of(decimal_text_of(bits, p)) == Some(bits) {
        decimal_text_of(bits, p)
    } else {
        shortest_text_from(bits, p + 1)
    }
}

pub open spec fn is_digit_char(c: char) -> bool {
    '0' as u32 <= c as u32 && c as u32 <= '9' as u32
}

/// The decimal digits of a text, in order, everything else dropped.
pub open spec fn digit_seq(s: Seq<char>) -> Seq<char>
    decreases s.len(),
{
    if s.len() == 0 {
        Seq::empty()
    } else if is_digit_char(s.last()) {
        digit_seq(s.drop_last()).push(s.last())
    } else {
        digit_seq(s.drop_last())
    }
}

/// The number a text reads as in decimal, every non-digit read as 0.
pub open spec fn dec_value(s: Seq<char>) -> nat
    decreases s.len(),
{
    if s.len() == 0 {
        0
    } else {
        dec_value(s.drop_last()) * 10 + (if is_digit_char(s.last()) {
            (s.last() as u32 - '0' as u32) as nat
        } else {
            0
        })
    }
}

pub open spec fn zero_seq(n: nat) -> Seq<char>
    decreases n,
{
    if n == 0 {
        Seq::empty()
    } else {
        zero_seq((n - 1) as nat).push('0')
    }
}

pub open spec fn pow10(n: nat) -> nat
    decreases n,
{
    if n == 0 {
        1
    } else {
        10 * pow10((n - 1) as nat)
    }
}

proof fn lemma_pow10_le(a: nat, b: nat)
    requires
        a <= b,
    ensures
        pow10(a) <= pow10(b),
    decreases b,
{
    if a < b {
        lemma_pow10_le(a, (b - 1) as nat);
    }
}

proof fn lemma_dec_value_bound(s: Seq<char>)
    ensures
        dec_value(s) < pow10(s.len()),
    decreases s.len(),
{
    if s.len() > 0 {
        lemma_dec_value_bound(s.drop_last());
    }
}

/// The position of the first exponent marker at or after `i`.
pub open spec fn e_index(t: Seq<char>, i: nat) -> nat
    decreases t.len() - i,
    when i <= t.len()
{
    if i >= t.len() {
        i
    } else if t[i as int] == 'E' {
        i
    } else {
        e_index(t, i + 1)
    }
}

/// A scientific text rewritten positionally: its digits, then the zeros its
/// exponent asks for, keeping the sign. A text without an exponent marker,
/// or outside the shape a double can print as, passes through unchanged.
pub open spec fn to_plain(t: Seq<char>) -> Seq<char> {
    let e = e_index(t, 0);
    if e >= t.len() {
        t
    } else {
        let d = digit_seq(t.subrange(0, e as int));
        let etail = t.subrange(e as int + 1, t.len() as int);
        let expv = dec_value(etail);
        if etail.len() <= 15 && expv <= 400 && d.len() >= 1 && expv + 1 >= d.len() {
            let sign: Seq<char> = if t[0] == '-' {
                seq!['-']
            } else {
                Seq::empty()
            };
            sign + d + zero_seq((expv + 1 - d.len()) as nat)
        } else {
            t
        }
    }
}

/// The display form of a number value: `NaN` and the infinities by name, and
/// any finite double as its shortest uniquely reading decimal text, written
/// positionally.
pub open spec fn num_text_spec(bits: u64) -> Seq<char> {
    if is_nan_bits(bits) {
        "NaN"@
    } else if is_inf_bits(bits) {
        if is_neg_bits(bits) {
            "-inf"@
        } else {
            "inf"@
        }
    } else {
        to_plain(shortest_text_from(bits, 1))
    }
}

/// The shortest decimal text of a finite double, as the soft-float library
/// writes it (scientific for wide magnitudes).
fn shortest_text(bits: u64) -> (r: String)
    requires
        !is_nan_bits(bits),
        !is_inf_bits(bits),
    ensures
        r@ == shortest_text_from(bits, 1),
{
    let mut p: usize = 1;
    while p < 17
        invariant
            1 <= p <= 17,
            shortest_text_from(bits, 1) == shortest_text_from(bits, p as nat),
        decreases 17 - p,
    {
        let t = num_text_prec(bits, p);
        let back = num_parse(t.as_str());
        match back {
            Option::Some(b2) => {
                if b2 == bits {
                    return t;
                }
            },
            Option::None => {},
        }
        p = p + 1;
    }
    num_text_prec(bits, 17)
}

/// Rewrites a scientific text positionally, as `to_plain` describes.
fn make_plain(t: String) -> (r: String)
    ensures
        r@ == to_plain(t@),
{
    let n = t.as_str().unicode_len();
    let mut e: usize = 0;
    loop
        invariant
            e <= n,
            n == t@.len(),
            e_index(t@, 0) == e_index(t@, e as nat),
        ensures
            e <= n,
            n == t@.len(),
            e_index(t@, 0) == e,
            e < n ==> t@[e as int] == 'E',
        decreases n - e,
    {
        if e >= n {
            break ;
        }
        if t.as_str().get_char(e) == 'E' {
            break ;
        }
        e = e + 1;
    }
    if e >= n {
        return t;
    }
    // the significant digits stand before the marker
    let mut d = String::new();
    let mut i: usize = 0;
    while i < e
        invariant
            i <= e,
            e < n,
            n == t@.len(),
            d@ == digit_seq(t@.subrange(0, i as int)),
        decreases e - i,
    {
        let c = t.as_str().get_char(i);
        if '0' as u32 <= c as u32 && c as u32 <= '9' as u32 {
            let ghost dpre = d@;
            let one = char_string(c);
            d.append(one.as_str());
            proof {
                assert(d@ =~= dpre.push(c));
            }
        }
        proof {
            assert(t@.subrange(0, i as int + 1).drop_last() =~= t@.subrange(0, i as int));
            assert(t@.subrange(0, i as int + 1).last() == t@[i as int]);
        }
        i = i + 1;
    }
    // the exponent stands after it
    if n - (e + 1) > 15 {
        return t;
    }
    let mut expv: u64 = 0;
    let mut j: usize = e + 1;
    proof {
        assert(t@.subrange(e as int + 1, e as int + 1) =~= Seq::<char>::empty());
    }
    while j < n
        invariant
            e + 1 <= j <= n,
            n == t@.len(),
            n - (e + 1) <= 15,
            expv == dec_value(t@.subrange(e as int + 1, j as int)),
            expv < pow10((j - (e + 1)) as nat),
        decreases n - j,
    {
        let c = t.as_str().get_char(j);
        let digit: u64 = if '0' as u32 <= c as u32 && c as u32 <= '9' as u32 {
            (c as u32 - '0' as u32) as u64
        } else {
            0
        };
        proof {
            lemma_pow10_le((j - e) as nat, 15);
            assert(pow10((j - (e + 1)) as nat + 1) == 10 * pow10((j - (e + 1)) as nat));
            reveal_with_fuel(pow10, 17);
            assert(pow10(15nat) == 1000000000000000);
            assert(t@.subrange(e as int + 1, j as int + 1).drop_last() =~= t@.subrange(
                e as int + 1,
                j as int,
            ));
            assert(t@.subrange(e as int + 1, j as int + 1).last() == t@[j as int]);
        }
        expv = expv * 10 + digit;
        j = j + 1;
    }
    if expv > 400 {
        return t;
    }
    let dl = d.as_str().unicode_len();
    if dl == 0 {
        return t;
    }
    if (expv as usize) + 1 < dl {
        return t;
    }
    let mut r = String::new();
    if t.as_str().get_char(0) == '-' {
        let dash = char_string('-');
        r.append(dash.as_str());
    }
    r.append(d.as_str());
    let ghost sign_d = r@;
    let zcount = (expv as usize) + 1 - dl;
    let mut k: usize = 0;
    proof {
        assert(r@ =~= sign_d + zero_seq(0));
    }
    while k < zcount
        invariant
            k <= zcount,
            r@ == sign_d + zero_seq(k as nat),
        decreases zcount - k,
    {
        let ghost rpre = r@;
        let zero = char_string('0');
        r.append(zero.as_str());
        proof {
            assert(r@ =~= sign_d + zero_seq(k as nat + 1));
        }
        k = k + 1;
    }
    r
}

/// Formats a number value for printing.
pub fn num_display(bits: u64) -> (r: String)
    ensures
        r@ == num_text_spec(bits),
{
    if num_is_nan(bits) {
        return "NaN".to_owned();
    }
    if num_is_inf(bits) {
        if bits & SIGN_MASK != 0 {
            return "-inf".to_owned();
        } else {
            return "inf".to_owned();
        }
    }
    let t = shortest_text(bits);
    make_plain(t)
}

} // verus!
