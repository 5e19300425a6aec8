use vstd::prelude::*;
use crate::ast::{Base, Expression, ErrorKind, ParseError, Outcome, Term, agrees, reports, to_public};
use crate::digits::{
    chars_of,
    without_underscores,
    upper_hex_all,
    remove_underscores,
    replace_lowercase_digits,
};

verus! {

pub open spec fn is_dec_digit(b: u8) -> bool {
    0x30 <= b <= 0x39
}

pub open spec fn is_oct_digit(b: u8) -> bool {
    0x30 <= b <= 0x37
}

pub open spec fn is_bin_digit(b: u8) -> bool {
    b == 0x30 || b == 0x31
}

pub open spec fn is_hex_digit(b: u8) -> bool {
    is_dec_digit(b) || (0x41 <= b <= 0x46) || (0x61 <= b <= 0x66)
}

/// The digit set of a base.
pub open spec fn in_base(base: Base, b: u8) -> bool {
    match base {
        Base::Dec => is_dec_digit(b),
        Base::Hex => is_hex_digit(b),
        Base::Oct => is_oct_digit(b),
        Base::Bin => is_bin_digit(b),
    }
}

/// The byte after `0` in the literal prefix of a prefixed base.
pub open spec fn prefix_letter(base: Base) -> u8 {
    match base {
        Base::Hex => 0x78u8,
        Base::Oct => 0x6fu8,
        _ => 0x62u8,
    }
}

pub open spec fn prefix_len(base: Base) -> int {
    if base == Base::Dec {
        0
    } else {
        2
    }
}

/// The literal prefix of `base` stands at `p` (the decimal prefix is empty).
pub open spec fn prefix_at(s: Seq<u8>, base: Base, p: int) -> bool {
    base == Base::Dec || (0 <= p && p + 1 < s.len() && s[p] == 0x30 && s[p + 1] == prefix_letter(
        base,
    ))
}

/// A byte that may continue a digit run: a digit of the base or an underscore.
pub open spec fn in_run(base: Base, b: u8) -> bool {
    in_base(base, b) || b == 0x5f
}

/// Where the run of digits and underscores that starts at `p` ends.
pub open spec fn run_end(s: Seq<u8>, base: Base, p: int) -> int
    decreases s.len() - p,
{
    if 0 <= p < s.len() && in_run(base, s[p]) {
        run_end(s, base, p + 1)
    } else {
        p
    }
}

/// The digit characters that a run stands for: underscores dropped, hex letters upper-cased.
pub open spec fn run_digits(base: Base, t: Seq<u8>) -> Seq<char> {
    let d = without_underscores(chars_of(t));
    if base == Base::Hex {
        upper_hex_all(d)
    } else {
        d
    }
}

/// A fraction starts at `e`: a dot followed by a digit or an underscore.
pub open spec fn fraction_at(s: Seq<u8>, base: Base, e: int) -> bool {
    0 <= e && e + 1 < s.len() && s[e] == 0x2e && in_run(base, s[e + 1])
}

/// A numeral of `base` read at position `p` of `s`.
pub open spec fn numeral(s: Seq<u8>, base: Base, p: int) -> Outcome {
    let d = p + prefix_len(base);
    if !prefix_at(s, base, p) {
        Outcome::Fail(p, ErrorKind::Tag)
    } else if !(0 <= d < s.len() && in_base(base, s[d])) {
        Outcome::Fail(d, ErrorKind::OneOf)
    } else {
        let e = run_end(s, base, d + 1);
        let whole = run_digits(base, s.subrange(d, e));
        if fraction_at(s, base, e) {
            let f = run_end(s, base, e + 1);
            Outcome::Done(f, Term::Number(base, whole, run_digits(base, s.subrange(e + 1, f))))
        } else {
            Outcome::Done(e, Term::Number(base, whole, Seq::empty()))
        }
    }
}

pub fn is_base_digit(base: Base, b: u8) -> (r: bool)
    ensures
        r == in_base(base, b),
{
    match base {
        Base::Dec => 0x30 <= b && b <= 0x39,
        Base::Hex => (0x30 <= b && b <= 0x39) || (0x41 <= b && b <= 0x46) || (0x61 <= b && b
            <= 0x66),
        Base::Oct => 0x30 <= b && b <= 0x37,
        Base::Bin => b == 0x30 || b == 0x31,
    }
}

fn digit_run_end(s: &[u8], base: Base, p: usize) -> (e: usize)
    requires
        p <= s.len(),
    ensures
        e == run_end(s@, base, p as int),
        p <= e <= s.len(),
{
    let mut i: usize = p;
    while i < s.len() && (is_base_digit(base, s[i]) || s[i] == 0x5f)
        invariant
            p <= i <= s.len(),
            run_end(s@, base, p as int) == run_end(s@, base, i as int),
        decreases s.len() - i,
    {
        i = i + 1;
    }
    i
}

/// The digits that the run `s[a..b]` stands for.
fn collect_digits(s: &[u8], base: Base, a: usize, b: usize) -> (v: Vec<char>)
    requires
        a <= b <= s.len(),
    ensures
        v@ == run_digits(base, s@.subrange(a as int, b as int)),
{
    let mut v: Vec<char> = Vec::new();
    let mut i: usize = a;
    while i < b
        invariant
            a <= i <= b <= s.len(),
            v@ == chars_of(s@.subrange(a as int, i as int)),
        decreases b - i,
    {
        v.push(s[i] as char);
        i = i + 1;
        assert(v@ =~= chars_of(s@.subrange(a as int, i as int)));
    }
    remove_underscores(&mut v);
    if base == Base::Hex {
        replace_lowercase_digits(&mut v);
    }
    v
}

fn make_number(base: Base, whole: Vec<char>, fraction: Vec<char>) -> (e: Expression)
    ensures
        e@ == Term::Number(base, whole@, fraction@),
{
    match base {
        Base::Dec => Expression::DecNumber(whole, fraction),
        Base::Hex => Expression::HexNumber(whole, fraction),
        Base::Oct => Expression::OctNumber(whole, fraction),
        Base::Bin => Expression::BinNumber(whole, fraction),
    }
}

/// Reads a numeral of `base` at position `p` of `s`.
pub fn numeral_at(s: &[u8], base: Base, p: usize) -> (r: Result<(usize, Expression), ParseError>)
    requires
        p <= s.len(),
    ensures
        agrees(r, numeral(s@, base, p as int)),
        r is Ok ==> p < r->Ok_0.0 <= s.len(),
{
    let d: usize;
    match base {
        Base::Dec => {
            d = p;
        },
        _ => {
            let letter: u8 = match base {
                Base::Hex => 0x78,
                Base::Oct => 0x6f,
                _ => 0x62,
            };
            if !(s.len() - p >= 2 && s[p] == 0x30 && s[p + 1] == letter) {
                return Err(ParseError::Error(p, ErrorKind::Tag));
            }
            d = p + 2;
        },
    }
    if !(d < s.len() && is_base_digit(base, s[d])) {
        return Err(ParseError::Error(d, ErrorKind::OneOf));
    }
    let e = digit_run_end(s, base, d + 1);
    let whole = collect_digits(s, base, d, e);
    if s.len() - e >= 2 && s[e] == 0x2e && (is_base_digit(base, s[e + 1]) || s[e + 1] == 0x5f) {
        let f = digit_run_end(s, base, e + 1);
        let fraction = collect_digits(s, base, e + 1, f);
        Ok((f, make_number(base, whole, fraction)))
    } else {
        let fraction: Vec<char> = Vec::new();
        proof {
            assert(fraction@ =~= Seq::<char>::empty());
        }
        Ok((e, make_number(base, whole, fraction)))
    }
}

/// Parses a decimal numeral at the start of `input`.
pub fn decnumber(input: &[u8]) -> (r: Result<(&[u8], Expression), ParseError>)
    ensures
        reports(input@, r, numeral(input@, Base::Dec, 0)),
{
    to_public(input, numeral_at(input, Base::Dec, 0))
}

/// Parses a hexadecimal numeral, prefixed `0x`, at the start of `input`.
pub fn hexnumber(input: &[u8]) -> (r: Result<(&[u8], Expression), ParseError>)
    ensures
        reports(input@, r, numeral(input@, Base::Hex, 0)),
{
    to_public(input, numeral_at(input, Base::Hex, 0))
}

/// Parses an octal numeral, prefixed `0o`, at the start of `input`.
pub fn octnumber(input: &[u8]) -> (r: Result<(&[u8], Expression), ParseError>)
    ensures
        reports(input@, r, numeral(input@, Base::Oct, 0)),
{
    to_public(input, numeral_at(input, Base::Oct, 0))
}

/// Parses a binary numeral, prefixed `0b`, at the start of `input`.
pub fn binnumber(input: &[u8]) -> (r: Result<(&[u8], Expression), ParseError>)
    ensures
        reports(input@, r, numeral(input@, Base::Bin, 0)),
{
    to_public(input, numeral_at(input, Base::Bin, 0))
}

} // verus!
