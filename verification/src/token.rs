use vstd::prelude::*;

verus! {

/// An exact rational number: numerator `n` over a positive denominator `d`.
///
/// Number literals and all intermediate results of the evaluator are kept in
/// this form, so every operation of the pipeline is exact; when a value or an
/// intermediate product leaves the 64-bit range, the evaluator reports an
/// overflow instead of losing precision.
#[derive(Clone, Copy, PartialEq, Eq, Structural, Debug)]
pub struct Rat {
    pub n: i64,
    pub d: i64,
}

impl Rat {
    /// Well-formed: the denominator is positive.
    pub open spec fn wf(self) -> bool {
        self.d > 0
    }

    /// `self` and `other` denote the same number (cross multiplication).
    pub open spec fn same_value(self, other: Rat) -> bool {
        self.n * other.d == other.n * self.d
    }

    /// The rational `n / 1`.
    pub fn from_int(n: i64) -> (r: Rat)
        ensures
            r == (Rat { n, d: 1 }),
            r.wf(),
    {
        Rat { n, d: 1 }
    }

    /// The rational `n / d` for a positive denominator `d`.
    pub fn new(n: i64, d: i64) -> (r: Rat)
        requires
            d > 0,
        ensures
            r == (Rat { n, d }),
            r.wf(),
    {
        Rat { n, d }
    }
}

/// One lexical unit of an expression: a number literal, a binary operator,
/// or a parenthesis.
#[derive(Clone, Copy, PartialEq, Eq, Structural, Debug)]
pub enum Token {
    Number(Rat),
    AddOp,
    SubOp,
    MulOp,
    DivOp,
    OpenParen,
    CloseParen,
    Power,
}

impl Token {
    /// A binary operator: not a number and not a parenthesis.
    pub open spec fn spec_is_operator(self) -> bool {
        match self {
            Token::AddOp | Token::SubOp | Token::MulOp | Token::DivOp | Token::Power => true,
            _ => false,
        }
    }

    /// Runtime test for `spec_is_operator`.
    pub fn is_operator(&self) -> (b: bool)
        ensures
            b == self.spec_is_operator(),
    {
        match self {
            Token::AddOp | Token::SubOp | Token::MulOp | Token::DivOp | Token::Power => true,
            _ => false,
        }
    }

    /// Every number payload carried by the token is well-formed.
    pub open spec fn wf(self) -> bool {
        match self {
            Token::Number(r) => r.wf(),
            _ => true,
        }
    }
}

/// All number payloads in the sequence are well-formed.
pub open spec fn tokens_wf(toks: Seq<Token>) -> bool {
    forall|i: int| 0 <= i < toks.len() ==> (#[trigger] toks[i]).wf()
}

} // verus!
