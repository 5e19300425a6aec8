use vstd::prelude::*;

verus! {

/// The numeric base of a numeral.
#[derive(Clone, Copy, Debug, PartialEq, Eq, Structural)]
pub enum Base {
    Dec,
    Hex,
    Oct,
    Bin,
}

/// The operator of one link of a chain.
#[derive(Clone, Copy, Debug, PartialEq, Eq, Structural)]
pub enum Op {
    Add,
    Subtract,
    Multiply,
    Divide,
}

/// The mathematical model of an expression tree.
pub enum Term {
    Number(Base, Seq<char>, Seq<char>),
    Chain(Box<Term>, Seq<(Op, Term)>),
}

/// A parsed expression.
#[derive(Debug, PartialEq)]
pub enum Expression {
    DecNumber(Vec<char>, Vec<char>),
    HexNumber(Vec<char>, Vec<char>),
    OctNumber(Vec<char>, Vec<char>),
    BinNumber(Vec<char>, Vec<char>),
    BinaryOperation(Box<Expression>, Vec<BinaryOperation>),
}

/// One operation of a chain, owning its right-hand operand.
#[derive(Debug, PartialEq)]
pub enum BinaryOperation {
    Add(Expression),
    Subtract(Expression),
    Multiply(Expression),
    Divide(Expression),
}

impl Expression {
    pub open spec fn view(&self) -> Term
        decreases self,
    {
        match self {
            Expression::DecNumber(i, f) => Term::Number(Base::Dec, i@, f@),
            Expression::HexNumber(i, f) => Term::Number(Base::Hex, i@, f@),
            Expression::OctNumber(i, f) => Term::Number(Base::Oct, i@, f@),
            Expression::BinNumber(i, f) => Term::Number(Base::Bin, i@, f@),
            Expression::BinaryOperation(h, ops) => Term::Chain(
                Box::new(h.view()),
                Seq::new(
                    ops.len() as nat,
                    |k: int|
                        if 0 <= k < ops.len() {
                            ops[k].view()
                        } else {
                            (Op::Add, h.view())
                        },
                ),
            ),
        }
    }
}

impl BinaryOperation {
    pub open spec fn view(&self) -> (Op, Term)
        decreases self,
    {
        match self {
            BinaryOperation::Add(e) => (Op::Add, e.view()),
            BinaryOperation::Subtract(e) => (Op::Subtract, e.view()),
            BinaryOperation::Multiply(e) => (Op::Multiply, e.view()),
            BinaryOperation::Divide(e) => (Op::Divide, e.view()),
        }
    }
}

/// What kind of rule failed to match.
#[derive(Clone, Copy, Debug, PartialEq, Eq, Structural)]
pub enum ErrorKind {
    /// A literal prefix such as `0x` was not there.
    Tag,
    /// A byte of a required class was not there.
    OneOf,
    /// None of the alternatives of a choice matched.
    Alt,
}

/// Why a parse did not succeed.
#[derive(Clone, Copy, Debug, PartialEq, Eq, Structural)]
pub enum ParseError {
    /// The rule of the given kind did not match at the given byte offset.
    Error(usize, ErrorKind),
    /// The input ended inside a construct; at least this many more bytes are needed.
    Incomplete(usize),
}

/// The mathematical outcome of a rule applied at a position of the input.
pub enum Outcome {
    /// Matched, ending at the position, with the tree.
    Done(int, Term),
    /// Failed at the position.
    Fail(int, ErrorKind),
    /// Ran out of input.
    Incomplete(nat),
}

/// An internal result, with absolute positions, agrees with an outcome.
pub open spec fn agrees(r: Result<(usize, Expression), ParseError>, o: Outcome) -> bool {
    match r {
        Ok((q, e)) => o == Outcome::Done(q as int, e@),
        Err(ParseError::Error(q, k)) => o == Outcome::Fail(q as int, k),
        Err(ParseError::Incomplete(n)) => o == Outcome::Incomplete(n as nat),
    }
}

/// A public result, which hands back the unconsumed rest of `s`, reports an outcome.
pub open spec fn reports(s: Seq<u8>, r: Result<(&[u8], Expression), ParseError>, o: Outcome) -> bool {
    match r {
        Ok((rest, e)) => o == Outcome::Done(s.len() - rest@.len(), e@) && rest@ == s.subrange(
            s.len() - rest@.len(),
            s.len() as int,
        ),
        Err(ParseError::Error(q, k)) => o == Outcome::Fail(q as int, k),
        Err(ParseError::Incomplete(n)) => o == Outcome::Incomplete(n as nat),
    }
}

/// Hands a result at absolute positions back as one over the rest of the input.
pub fn to_public<'a>(input: &'a [u8], r: Result<(usize, Expression), ParseError>) -> (out: Result<
    (&'a [u8], Expression),
    ParseError,
>)
    requires
        r is Ok ==> r->Ok_0.0 <= input@.len(),
    ensures
        forall|o: Outcome| agrees(r, o) ==> reports(input@, out, o),
{
    match r {
        Ok((q, e)) => {
            let rest = vstd::slice::slice_subrange(input, q, input.len());
            Ok((rest, e))
        },
        Err(err) => Err(err),
    }
}

} // verus!
