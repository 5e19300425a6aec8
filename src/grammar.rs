use vstd::prelude::*;
use crate::ast::{
    Base,
    BinaryOperation,
    Expression,
    ErrorKind,
    Op,
    Outcome,
    ParseError,
    Term,
    agrees,
    reports,
    to_public,
};
use crate::numeral::{numeral, numeral_at, prefix_at};

verus! {

/// The two folding levels of the grammar.
#[derive(Clone, Copy, Debug, PartialEq, Eq, Structural)]
pub enum Level {
    /// `+` and `-`, over products.
    Additive,
    /// `*` and `/`, over atoms.
    Multiplicative,
}

/// The operations collected by a chain, or the news that the input ran out.
pub enum Steps {
    Ended(int, Seq<(Op, Term)>),
    Incomplete(nat),
}

pub open spec fn is_space(b: u8) -> bool {
    b == 0x20 || b == 0x09 || b == 0x0a || b == 0x0d
}

/// The first position at or after `p` that holds no whitespace.
pub open spec fn skip_ws(s: Seq<u8>, p: int) -> int
    decreases s.len() - p,
{
    if 0 <= p < s.len() && is_space(s[p]) {
        skip_ws(s, p + 1)
    } else {
        p
    }
}

/// The operator that byte `b` stands for at a level.
pub open spec fn op_at(lv: Level, b: u8) -> Option<Op> {
    match lv {
        Level::Additive => if b == 0x2b {
            Some(Op::Add)
        } else if b == 0x2d {
            Some(Op::Subtract)
        } else {
            None
        },
        Level::Multiplicative => if b == 0x2a {
            Some(Op::Multiply)
        } else if b == 0x2f {
            Some(Op::Divide)
        } else {
            None
        },
    }
}

/// A numeral at `p`: a base whose prefix stands there is committed to, decimal otherwise.
pub open spec fn any_numeral(s: Seq<u8>, p: int) -> Outcome {
    if prefix_at(s, Base::Hex, p) {
        numeral(s, Base::Hex, p)
    } else if prefix_at(s, Base::Oct, p) {
        numeral(s, Base::Oct, p)
    } else if prefix_at(s, Base::Bin, p) {
        numeral(s, Base::Bin, p)
    } else {
        numeral(s, Base::Dec, p)
    }
}

/// A head and its chain: the head alone when the chain is empty.
pub open spec fn fold(head: Term, steps: Seq<(Op, Term)>) -> Term {
    if steps.len() == 0 {
        head
    } else {
        Term::Chain(Box::new(head), steps)
    }
}

pub open spec fn ops_view(ops: Seq<BinaryOperation>) -> Seq<(Op, Term)> {
    ops.map_values(|o: BinaryOperation| o@)
}

pub open spec fn level_rank(lv: Level) -> int {
    if lv == Level::Additive {
        5
    } else {
        3
    }
}

pub open spec fn is_operator(b: u8) -> bool {
    b == 0x2b || b == 0x2d || b == 0x2a || b == 0x2f
}

/// Inside parentheses, the input ends where an operand is still owed: after the opening
/// parenthesis, or after an operator, with nothing but whitespace left.
pub open spec fn operand_owed(s: Seq<u8>, e: int) -> bool {
    0 <= e < s.len() && is_operator(s[e]) && skip_ws(s, e + 1) >= s.len()
}

/// An atom at `p`, with the whitespace around it: a numeral or a parenthesised expression.
pub open spec fn atom(s: Seq<u8>, p: int) -> Outcome
    decreases s.len() - p, 1int,
{
    let q = skip_ws(s, p);
    // Skipping whitespace never moves back; the test only makes the recursion visibly decrease.
    if !(p <= q <= s.len()) {
        Outcome::Fail(q, ErrorKind::Alt)
    } else {
        match any_numeral(s, q) {
            Outcome::Done(e, t) => Outcome::Done(skip_ws(s, e), t),
            _ => if q < s.len() && s[q] == 0x28 {
                match level(s, q + 1, Level::Additive) {
                    Outcome::Done(e, t) => if e >= s.len() || operand_owed(s, e) {
                        Outcome::Incomplete(1)
                    } else if s[e] == 0x29 {
                        Outcome::Done(skip_ws(s, e + 1), t)
                    } else {
                        Outcome::Fail(q, ErrorKind::Alt)
                    },
                    Outcome::Fail(_, _) => if skip_ws(s, q + 1) >= s.len() {
                        Outcome::Incomplete(1)
                    } else {
                        Outcome::Fail(q, ErrorKind::Alt)
                    },
                    Outcome::Incomplete(n) => Outcome::Incomplete(n),
                }
            } else {
                Outcome::Fail(q, ErrorKind::Alt)
            },
        }
    }
}

/// An operand of level `lv` at `p`: a product under `+`, an atom under `*`.
pub open spec fn operand(s: Seq<u8>, p: int, lv: Level) -> Outcome
    decreases s.len() - p, level_rank(lv) - 1,
{
    match lv {
        Level::Additive => level(s, p, Level::Multiplicative),
        Level::Multiplicative => atom(s, p),
    }
}

/// The operator-operand pairs of level `lv` that follow from `p` on.
pub open spec fn chain(s: Seq<u8>, p: int, lv: Level) -> Steps
    decreases s.len() - p, level_rank(lv) - 2,
{
    if 0 <= p < s.len() && op_at(lv, s[p]) is Some {
        match operand(s, p + 1, lv) {
            // As in `level`, the test on `e` always holds.
            Outcome::Done(e, t) => if p < e <= s.len() {
                match chain(s, e, lv) {
                    Steps::Ended(f, rest) => Steps::Ended(
                        f,
                        seq![(op_at(lv, s[p])->Some_0, t)] + rest,
                    ),
                    Steps::Incomplete(n) => Steps::Incomplete(n),
                }
            } else {
                Steps::Ended(p, Seq::empty())
            },
            Outcome::Fail(_, _) => Steps::Ended(p, Seq::empty()),
            Outcome::Incomplete(n) => Steps::Incomplete(n),
        }
    } else {
        Steps::Ended(p, Seq::empty())
    }
}

/// An expression of level `lv` at `p`: an operand and the chain that follows it, folded.
pub open spec fn level(s: Seq<u8>, p: int, lv: Level) -> Outcome
    decreases s.len() - p, level_rank(lv),
{
    match operand(s, p, lv) {
        // An operand that matched ends after `p` (see `operand_at`); the test only makes the
        // recursion visibly decrease.
        Outcome::Done(e, t) => if p <= e <= s.len() {
            match chain(s, e, lv) {
                Steps::Ended(f, steps) => Outcome::Done(f, fold(t, steps)),
                Steps::Incomplete(n) => Outcome::Incomplete(n),
            }
        } else {
            Outcome::Fail(p, ErrorKind::Alt)
        },
        other => other,
    }
}

/// A chain that starts with the operations `pre`, continued as `st`.
pub open spec fn extend(pre: Seq<(Op, Term)>, st: Steps) -> Steps {
    match st {
        Steps::Ended(f, rest) => Steps::Ended(f, pre + rest),
        Steps::Incomplete(n) => Steps::Incomplete(n),
    }
}

fn skip_spaces(s: &[u8], p: usize) -> (q: usize)
    requires
        p <= s.len(),
    ensures
        q == skip_ws(s@, p as int),
        p <= q <= s.len(),
{
    let mut i: usize = p;
    while i < s.len() && (s[i] == 0x20 || s[i] == 0x09 || s[i] == 0x0a || s[i] == 0x0d)
        invariant
            p <= i <= s.len(),
            skip_ws(s@, p as int) == skip_ws(s@, i as int),
        decreases s.len() - i,
    {
        i = i + 1;
    }
    i
}

fn has_prefix(s: &[u8], letter: u8, p: usize) -> (r: bool)
    requires
        p <= s.len(),
    ensures
        r == (p + 1 < s.len() && s@[p as int] == 0x30 && s@[p + 1] == letter),
{
    s.len() - p >= 2 && s[p] == 0x30 && s[p + 1] == letter
}

fn any_numeral_at(s: &[u8], p: usize) -> (r: Result<(usize, Expression), ParseError>)
    requires
        p <= s.len(),
    ensures
        agrees(r, any_numeral(s@, p as int)),
        r is Ok ==> p < r->Ok_0.0 <= s.len(),
{
    if has_prefix(s, 0x78, p) {
        numeral_at(s, Base::Hex, p)
    } else if has_prefix(s, 0x6f, p) {
        numeral_at(s, Base::Oct, p)
    } else if has_prefix(s, 0x62, p) {
        numeral_at(s, Base::Bin, p)
    } else {
        numeral_at(s, Base::Dec, p)
    }
}

/// Combines a head and the operations that follow it: the head alone when there are none.
pub fn binop(first: Expression, operations: Vec<BinaryOperation>) -> (r: Expression)
    ensures
        r@ == fold(first@, ops_view(operations@)),
{
    if operations.len() == 0 {
        first
    } else {
        let ghost ops = operations;
        let ghost h = first;
        let r = Expression::BinaryOperation(Box::new(first), operations);
        proof {
            assert(r@->Chain_1 =~= ops_view(ops@));
        }
        r
    }
}

fn make_op(op: Op, e: Expression) -> (r: BinaryOperation)
    ensures
        r@ == (op, e@),
{
    match op {
        Op::Add => BinaryOperation::Add(e),
        Op::Subtract => BinaryOperation::Subtract(e),
        Op::Multiply => BinaryOperation::Multiply(e),
        Op::Divide => BinaryOperation::Divide(e),
    }
}

fn op_for(lv: Level, b: u8) -> (r: Option<Op>)
    ensures
        r == op_at(lv, b),
{
    match lv {
        Level::Additive => if b == 0x2b {
            Some(Op::Add)
        } else if b == 0x2d {
            Some(Op::Subtract)
        } else {
            None
        },
        Level::Multiplicative => if b == 0x2a {
            Some(Op::Multiply)
        } else if b == 0x2f {
            Some(Op::Divide)
        } else {
            None
        },
    }
}

fn atom_at(s: &[u8], p: usize) -> (r: Result<(usize, Expression), ParseError>)
    requires
        p <= s.len(),
    ensures
        agrees(r, atom(s@, p as int)),
        r is Ok ==> p < r->Ok_0.0 <= s.len(),
    decreases s.len() - p, 1int,
{
    let q = skip_spaces(s, p);
    match any_numeral_at(s, q) {
        Ok((e, t)) => {
            let f = skip_spaces(s, e);
            return Ok((f, t));
        },
        Err(_) => {},
    }
    if q < s.len() && s[q] == 0x28 {
        match level_at(s, q + 1, Level::Additive) {
            Ok((e, t)) => {
                if e >= s.len() {
                    Err(ParseError::Incomplete(1))
                } else if s[e] == 0x29 {
                    let f = skip_spaces(s, e + 1);
                    Ok((f, t))
                } else if (s[e] == 0x2b || s[e] == 0x2d || s[e] == 0x2a || s[e] == 0x2f)
                    && skip_spaces(s, e + 1) >= s.len() {
                    Err(ParseError::Incomplete(1))
                } else {
                    Err(ParseError::Error(q, ErrorKind::Alt))
                }
            },
            Err(ParseError::Error(_, _)) => {
                if skip_spaces(s, q + 1) >= s.len() {
                    Err(ParseError::Incomplete(1))
                } else {
                    Err(ParseError::Error(q, ErrorKind::Alt))
                }
            },
            Err(ParseError::Incomplete(n)) => Err(ParseError::Incomplete(n)),
        }
    } else {
        Err(ParseError::Error(q, ErrorKind::Alt))
    }
}

fn operand_at(s: &[u8], p: usize, lv: Level) -> (r: Result<(usize, Expression), ParseError>)
    requires
        p <= s.len(),
    ensures
        agrees(r, operand(s@, p as int, lv)),
        r is Ok ==> p < r->Ok_0.0 <= s.len(),
    decreases s.len() - p, level_rank(lv) - 1,
{
    match lv {
        Level::Additive => level_at(s, p, Level::Multiplicative),
        Level::Multiplicative => atom_at(s, p),
    }
}

fn level_at(s: &[u8], p: usize, lv: Level) -> (r: Result<(usize, Expression), ParseError>)
    requires
        p <= s.len(),
    ensures
        agrees(r, level(s@, p as int, lv)),
        r is Ok ==> p < r->Ok_0.0 <= s.len(),
    decreases s.len() - p, level_rank(lv),
{
    let (e0, head) = match operand_at(s, p, lv) {
        Ok(found) => found,
        Err(err) => {
            return Err(err);
        },
    };
    let mut ops: Vec<BinaryOperation> = Vec::new();
    let mut i: usize = e0;
    proof {
        assert(ops_view(ops@) + Seq::<(Op, Term)>::empty() =~= Seq::<(Op, Term)>::empty());
        assert(extend(ops_view(ops@), chain(s@, i as int, lv)) == chain(s@, i as int, lv)) by {
            match chain(s@, i as int, lv) {
                Steps::Ended(f, rest) => {
                    assert(ops_view(ops@) + rest =~= rest);
                },
                Steps::Incomplete(n) => {},
            }
        }
    }
    loop
        invariant
            p < e0 <= i <= s.len(),
            operand(s@, p as int, lv) == Outcome::Done(e0 as int, head@),
            chain(s@, e0 as int, lv) == extend(ops_view(ops@), chain(s@, i as int, lv)),
        ensures
            p < e0 <= i <= s.len(),
            chain(s@, e0 as int, lv) == Steps::Ended(i as int, ops_view(ops@)),
        decreases s.len() - i,
    {
        if i >= s.len() {
            proof {
                assert(ops_view(ops@) + Seq::<(Op, Term)>::empty() =~= ops_view(ops@));
            }
            break;
        }
        let op = match op_for(lv, s[i]) {
            Some(op) => op,
            None => {
                proof {
                    assert(ops_view(ops@) + Seq::<(Op, Term)>::empty() =~= ops_view(ops@));
                }
                break;
            },
        };
        match operand_at(s, i + 1, lv) {
            Ok((e, t)) => {
                let ghost pre = ops_view(ops@);
                let ghost tv = t@;
                ops.push(make_op(op, t));
                proof {
                    assert(ops_view(ops@) =~= pre.push((op, tv)));
                    match chain(s@, e as int, lv) {
                        Steps::Ended(f, rest) => {
                            assert(pre + (seq![(op, tv)] + rest) =~= pre.push((op, tv)) + rest);
                        },
                        Steps::Incomplete(n) => {},
                    }
                }
                i = e;
            },
            Err(ParseError::Error(_, _)) => {
                proof {
                    assert(ops_view(ops@) + Seq::<(Op, Term)>::empty() =~= ops_view(ops@));
                }
                break;
            },
            Err(ParseError::Incomplete(n)) => {
                assert(chain(s@, i as int, lv) == Steps::Incomplete(n as nat));
                return Err(ParseError::Incomplete(n));
            },
        }
    }
    Ok((i, binop(head, ops)))
}

/// Parses an expression, with the whitespace around it, at the start of `input`.
pub fn expression(input: &[u8]) -> (r: Result<(&[u8], Expression), ParseError>)
    ensures
        reports(input@, r, level(input@, 0, Level::Additive)),
{
    to_public(input, level_at(input, 0, Level::Additive))
}

} // verus!
