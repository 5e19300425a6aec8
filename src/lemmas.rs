use vstd::prelude::*;
use crate::ast::{Base, ErrorKind, Op, Outcome, Term};
use crate::grammar::{Level, Steps, any_numeral, atom, chain, is_operator, is_space, level, skip_ws};
use crate::digits::{chars_of, without_underscores, upper_hex, upper_hex_all};
use crate::numeral::{
    prefix_at,
    in_base,
    in_run,
    numeral,
    prefix_letter,
    run_digits,
    run_end,
};

verus! {

/// The literal prefix of a base as bytes: empty for decimal.
pub open spec fn prefix_bytes(base: Base) -> Seq<u8> {
    if base == Base::Dec {
        Seq::empty()
    } else {
        seq![0x30u8, prefix_letter(base)]
    }
}

/// How a base stores a digit character: hex letters upper-case, the rest as written.
pub open spec fn canonical(base: Base, d: Seq<char>) -> Seq<char> {
    if base == Base::Hex {
        upper_hex_all(d)
    } else {
        d
    }
}

/// A digit run as the grammar admits it: a digit of the base, then digits and underscores.
pub open spec fn is_digit_run(base: Base, t: Seq<u8>) -> bool {
    &&& t.len() > 0
    &&& in_base(base, t[0])
    &&& forall|k: int| 0 <= k < t.len() ==> in_run(base, #[trigger] t[k])
}

/// A character that a hex numeral may hold: a decimal digit or an upper-case `A` to `F`.
pub open spec fn is_canonical_hex(c: char) -> bool {
    ('0' <= c <= '9') || ('A' <= c <= 'F')
}

proof fn lemma_run_end_at(s: Seq<u8>, base: Base, a: int, b: int)
    requires
        0 <= a <= b <= s.len(),
        forall|k: int| a <= k < b ==> in_run(base, #[trigger] s[k]),
        b == s.len() || !in_run(base, s[b]),
    ensures
        run_end(s, base, a) == b,
    decreases b - a,
{
    if a < b {
        lemma_run_end_at(s, base, a + 1, b);
    }
}

/// A numeral as written: the base's prefix, the run `t`, and, when `u` is not empty, a
/// dot and the run `u`.
pub open spec fn written(base: Base, t: Seq<u8>, u: Seq<u8>) -> Seq<u8> {
    if u.len() == 0 {
        prefix_bytes(base) + t
    } else {
        prefix_bytes(base) + t + seq![0x2eu8] + u
    }
}

/// The tree of the numeral `written(base, t, u)`: each run with its underscores removed
/// (hex letters upper-cased), and no fraction when `u` is empty.
pub open spec fn written_term(base: Base, t: Seq<u8>, u: Seq<u8>) -> Term {
    Term::Number(
        base,
        canonical(base, without_underscores(chars_of(t))),
        if u.len() == 0 {
            Seq::empty()
        } else {
            canonical(base, without_underscores(chars_of(u)))
        },
    )
}

pub open spec fn all_canonical_hex(d: Seq<char>) -> bool {
    forall|k: int| 0 <= k < d.len() ==> is_canonical_hex(#[trigger] d[k])
}

/// A numeral whose digits are a run `t` and whose fraction, when `u` is not empty, is
/// the run `u` after a dot, ends where the runs end, and its digits are the runs with
/// every underscore removed; at the end of the input or before a byte that cannot
/// continue a run.
pub proof fn lemma_underscores_removed(base: Base, t: Seq<u8>, u: Seq<u8>, tail: Seq<u8>)
    requires
        is_digit_run(base, t),
        forall|k: int| 0 <= k < u.len() ==> in_run(base, #[trigger] u[k]),
        tail.len() <= 1,
        tail.len() == 1 ==> !in_run(base, tail[0]),
    ensures
        numeral(written(base, t, u) + tail, base, 0) == Outcome::Done(
            written(base, t, u).len() as int,
            written_term(base, t, u),
        ),
{
    let pre = prefix_bytes(base);
    let d = pre.len() as int;
    let e = d + t.len();
    let s = written(base, t, u) + tail;
    if u.len() == 0 {
        assert(s == pre + t + tail);
        lemma_run_end_at(s, base, d + 1, e);
        assert(s.subrange(d, e) =~= t);
    } else {
        let w = written(base, t, u);
        assert(s == pre + t + seq![0x2eu8] + u + tail);
        lemma_run_end_at(s, base, d + 1, e);
        lemma_run_end_at(s, base, e + 1, w.len() as int);
        assert(s.subrange(d, e) =~= t);
        assert(s.subrange(e + 1, w.len() as int) =~= u);
    }
}

/// The law on underscores and on hex digits holds for a whole expression: a numeral
/// written as `written(base, t, u)` and followed by a byte that neither continues it nor
/// an expression is parsed to `written_term(base, t, u)`, leaving that byte; a hex
/// numeral then holds no lower-case letter. A decimal `0` followed by `x`, `o` or `b` is
/// left out: those bytes make the prefix of another base.
pub proof fn lemma_expression_numeral(base: Base, t: Seq<u8>, u: Seq<u8>, x: u8)
    requires
        is_digit_run(base, t),
        forall|k: int| 0 <= k < u.len() ==> in_run(base, #[trigger] u[k]),
        !in_run(base, x),
        !is_space(x),
        !is_operator(x),
        !(base == Base::Dec && u.len() == 0 && t == seq![0x30u8] && (x == 0x78 || x == 0x6f
            || x == 0x62)),
    ensures
        level(written(base, t, u).push(x), 0, Level::Additive) == Outcome::Done(
            written(base, t, u).len() as int,
            written_term(base, t, u),
        ),
        base == Base::Hex ==> all_canonical_hex(written_term(base, t, u)->Number_1)
            && all_canonical_hex(written_term(base, t, u)->Number_2),
{
    let w = written(base, t, u);
    let s = w.push(x);
    let e = w.len() as int;
    assert(s == w + seq![x]);
    lemma_underscores_removed(base, t, u, seq![x]);
    assert(s[e] == x);
    assert(s[0] == w[0]);
    if base == Base::Dec {
        assert(w[0] == t[0]);
        if t.len() > 1 {
            assert(s[1] == t[1]);
            assert(in_run(base, t[1]));
        } else if u.len() > 0 {
            assert(s[1] == 0x2e);
        } else {
            assert(t =~= seq![t[0]]);
            assert(s[1] == x);
        }
        assert(!prefix_at(s, Base::Hex, 0));
        assert(!prefix_at(s, Base::Oct, 0));
        assert(!prefix_at(s, Base::Bin, 0));
    } else {
        assert(s[0] == 0x30);
        assert(s[1] == prefix_letter(base));
    }
    assert(any_numeral(s, 0) == numeral(s, base, 0));
    assert(skip_ws(s, 0) == 0);
    assert(skip_ws(s, e) == e);
    assert(atom(s, 0) == Outcome::Done(e, written_term(base, t, u)));
    assert(chain(s, e, Level::Multiplicative) == Steps::Ended(e, Seq::<(Op, Term)>::empty()));
    assert(level(s, 0, Level::Multiplicative) == Outcome::Done(e, written_term(base, t, u)));
    assert(chain(s, e, Level::Additive) == Steps::Ended(e, Seq::<(Op, Term)>::empty()));
    if base == Base::Hex {
        lemma_hex_upper_case(s, 0);
    }
}

/// A single digit of a base, after the base's prefix and with nothing after it, is a
/// numeral of that base with that one digit and no fraction.
pub proof fn lemma_single_digit(base: Base, b: u8)
    requires
        in_base(base, b),
    ensures
        numeral(prefix_bytes(base).push(b), base, 0) == Outcome::Done(
            prefix_bytes(base).len() + 1 as int,
            Term::Number(
                base,
                seq![if base == Base::Hex { upper_hex(b as char) } else { b as char }],
                Seq::empty(),
            ),
        ),
{
    let t = seq![b];
    lemma_underscores_removed(base, t, Seq::empty(), Seq::empty());
    assert(prefix_bytes(base) + t + Seq::empty() =~= prefix_bytes(base).push(b));
    assert(chars_of(t) =~= seq![b as char]);
    reveal_with_fuel(Seq::filter, 2);
    assert(seq![b as char].drop_last() =~= Seq::<char>::empty());
    assert(without_underscores(seq![b as char]) =~= seq![b as char]);
    assert(upper_hex_all(seq![b as char]) =~= seq![upper_hex(b as char)]);
}

/// A digit run followed by a dot and a byte that cannot start a fraction is a numeral
/// without a fraction that ends before the dot.
pub proof fn lemma_dangling_point(base: Base, t: Seq<u8>, x: u8, rest: Seq<u8>)
    requires
        is_digit_run(base, t),
        !in_run(base, x),
    ensures
        numeral(prefix_bytes(base) + t + seq![0x2eu8, x] + rest, base, 0) == Outcome::Done(
            (prefix_bytes(base).len() + t.len()) as int,
            Term::Number(base, canonical(base, without_underscores(chars_of(t))), Seq::empty()),
        ),
{
    let pre = prefix_bytes(base);
    let s = pre + t + seq![0x2eu8, x] + rest;
    let d = pre.len() as int;
    let e = d + t.len();
    lemma_run_end_at(s, base, d + 1, e);
    assert(s.subrange(d, e) =~= t);
}

pub open spec fn is_hex_char(c: char) -> bool {
    ('0' <= c <= '9') || ('A' <= c <= 'F') || ('a' <= c <= 'f')
}

proof fn lemma_strip_keeps_hex(x: Seq<char>)
    requires
        forall|k: int| 0 <= k < x.len() ==> is_hex_char(#[trigger] x[k]) || x[k] == '_',
    ensures
        forall|k: int|
            0 <= k < without_underscores(x).len() ==> is_hex_char(
                #[trigger] without_underscores(x)[k],
            ),
    decreases x.len(),
{
    reveal_with_fuel(Seq::filter, 1);
    if x.len() > 0 {
        let y = x.drop_last();
        assert forall|k: int| 0 <= k < y.len() implies is_hex_char(#[trigger] y[k]) || y[k]
            == '_' by {
            assert(y[k] == x[k]);
        }
        lemma_strip_keeps_hex(y);
        let fy = without_underscores(y);
        let fx = without_underscores(x);
        if x.last() != '_' {
            assert(fx == fy.push(x.last()));
            assert forall|k: int| 0 <= k < fx.len() implies is_hex_char(#[trigger] fx[k]) by {
                if k < fy.len() {
                    assert(fx[k] == fy[k]);
                }
            }
        } else {
            assert(fx == fy);
        }
    }
}

proof fn lemma_hex_run_canonical(t: Seq<u8>)
    requires
        forall|k: int| 0 <= k < t.len() ==> in_run(Base::Hex, #[trigger] t[k]),
    ensures
        forall|k: int|
            0 <= k < run_digits(Base::Hex, t).len() ==> is_canonical_hex(
                #[trigger] run_digits(Base::Hex, t)[k],
            ),
{
    let x = chars_of(t);
    assert forall|k: int| 0 <= k < x.len() implies is_hex_char(#[trigger] x[k]) || x[k] == '_' by {
        assert(in_run(Base::Hex, t[k]));
    }
    lemma_strip_keeps_hex(x);
}

proof fn lemma_run_end_covers(s: Seq<u8>, base: Base, a: int)
    requires
        0 <= a <= s.len(),
    ensures
        a <= run_end(s, base, a) <= s.len(),
        forall|k: int| a <= k < run_end(s, base, a) ==> in_run(base, #[trigger] s[k]),
    decreases s.len() - a,
{
    if a < s.len() && in_run(base, s[a]) {
        lemma_run_end_covers(s, base, a + 1);
    }
}

/// Every digit of a hex numeral is a decimal digit or an upper-case letter, whatever
/// the case of the input.
pub proof fn lemma_hex_upper_case(s: Seq<u8>, p: int)
    requires
        numeral(s, Base::Hex, p) is Done,
    ensures
        numeral(s, Base::Hex, p)->Done_1 is Number,
        forall|k: int|
            0 <= k < numeral(s, Base::Hex, p)->Done_1->Number_1.len() ==> is_canonical_hex(
                #[trigger] numeral(s, Base::Hex, p)->Done_1->Number_1[k],
            ),
        forall|k: int|
            0 <= k < numeral(s, Base::Hex, p)->Done_1->Number_2.len() ==> is_canonical_hex(
                #[trigger] numeral(s, Base::Hex, p)->Done_1->Number_2[k],
            ),
{
    let d = p + 2;
    lemma_run_end_covers(s, Base::Hex, d + 1);
    let e = run_end(s, Base::Hex, d + 1);
    let whole = s.subrange(d, e);
    assert forall|k: int| 0 <= k < whole.len() implies in_run(Base::Hex, #[trigger] whole[k]) by {
        if k > 0 {
            assert(whole[k] == s[d + k]);
        }
    }
    lemma_hex_run_canonical(whole);
    if 0 <= e && e + 1 < s.len() && s[e] == 0x2e && in_run(Base::Hex, s[e + 1]) {
        lemma_run_end_covers(s, Base::Hex, e + 1);
        let f = run_end(s, Base::Hex, e + 1);
        let frac = s.subrange(e + 1, f);
        assert forall|k: int| 0 <= k < frac.len() implies in_run(
            Base::Hex,
            #[trigger] frac[k],
        ) by {
            assert(frac[k] == s[e + 1 + k]);
        }
        lemma_hex_run_canonical(frac);
    } else {
        assert(numeral(s, Base::Hex, p)->Done_1->Number_2.len() == 0);
    }
}

/// A base that the first byte of the input does not start is refused at offset 0: a
/// decimal numeral that does not start with a digit fails on its first digit, and a
/// prefixed numeral that does not start with `0` fails on its prefix.
pub proof fn lemma_bad_first_byte(s: Seq<u8>, base: Base)
    requires
        s.len() == 0 || (base == Base::Dec && !in_base(Base::Dec, s[0])) || (base != Base::Dec
            && s[0] != 0x30),
    ensures
        base == Base::Dec ==> numeral(s, base, 0) == Outcome::Fail(0, ErrorKind::OneOf),
        base != Base::Dec ==> numeral(s, base, 0) == Outcome::Fail(0, ErrorKind::Tag),
{
}

} // verus!
