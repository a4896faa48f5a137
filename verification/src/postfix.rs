use vstd::prelude::*;

use crate::errors::CalcError;
use crate::token::Token;
use crate::token::tokens_wf;

verus! {

/// Resolution of a close parenthesis: pop operators from the stack onto the
/// output until an open parenthesis is popped (and discarded). A stack that
/// runs out first means the close parenthesis had no match.
pub open spec fn spec_close_paren(
    out: Seq<Token>,
    ops: Seq<Token>,
) -> Result<(Seq<Token>, Seq<Token>), CalcError>
    decreases ops.len(),
{
    if ops.len() == 0 {
        Err(CalcError::UnbalancedParenthesis)
    } else if ops.last() is OpenParen {
        Ok((out, ops.drop_last()))
    } else {
        spec_close_paren(out.push(ops.last()), ops.drop_last())
    }
}

/// End-of-input drain: pop every remaining operator onto the output, in
/// stack order. An open parenthesis still on the stack was never closed.
pub open spec fn spec_drain(out: Seq<Token>, ops: Seq<Token>) -> Result<Seq<Token>, CalcError>
    decreases ops.len(),
{
    if ops.len() == 0 {
        Ok(out)
    } else if ops.last() is OpenParen {
        Err(CalcError::UnbalancedParenthesis)
    } else {
        spec_drain(out.push(ops.last()), ops.drop_last())
    }
}

/// The precedence-free Shunting-Yard step, from token `i` with the output
/// built and the operator stack held so far. A number goes to the output
/// and then pulls at most one pending operator after it — this flattens
/// same-level chains into left-to-right order without any precedence
/// comparison. An open parenthesis opens a group on the stack; a close
/// parenthesis resolves one; operators wait on the stack.
pub open spec fn spec_to_postfix_from(
    toks: Seq<Token>,
    i: int,
    out: Seq<Token>,
    ops: Seq<Token>,
) -> Result<Seq<Token>, CalcError>
    decreases toks.len() - i,
{
    if i >= toks.len() {
        spec_drain(out, ops)
    } else {
        match toks[i] {
            Token::Number(r) => {
                let out1 = out.push(toks[i]);
                if ops.len() > 0 && ops.last().spec_is_operator() {
                    spec_to_postfix_from(toks, i + 1, out1.push(ops.last()), ops.drop_last())
                } else {
                    spec_to_postfix_from(toks, i + 1, out1, ops)
                }
            },
            Token::OpenParen => spec_to_postfix_from(toks, i + 1, out, ops.push(toks[i])),
            Token::CloseParen => match spec_close_paren(out, ops) {
                Ok((out1, ops1)) => spec_to_postfix_from(toks, i + 1, out1, ops1),
                Err(e) => Err(e),
            },
            _ => spec_to_postfix_from(toks, i + 1, out, ops.push(toks[i])),
        }
    }
}

/// The postfix (reverse Polish) form of a token sequence.
pub open spec fn spec_to_postfix(toks: Seq<Token>) -> Result<Seq<Token>, CalcError> {
    spec_to_postfix_from(toks, 0, Seq::<Token>::empty(), Seq::<Token>::empty())
}

/// Pop operators onto the output until the matching open parenthesis is
/// found and discarded; follows `spec_close_paren` step for step.
fn resolve_close_paren(output: Vec<Token>, operations: Vec<Token>) -> (r: Result<
    (Vec<Token>, Vec<Token>),
    CalcError,
>)
    ensures
        r matches Ok(p) ==> spec_close_paren(output@, operations@) == Ok::<
            (Seq<Token>, Seq<Token>),
            CalcError,
        >((p.0@, p.1@)),
        r matches Err(e) ==> spec_close_paren(output@, operations@) == Err::<
            (Seq<Token>, Seq<Token>),
            CalcError,
        >(e),
        r matches Ok(p) ==> (tokens_wf(output@) && tokens_wf(operations@) ==> tokens_wf(p.0@)
            && tokens_wf(p.1@)),
{
    let mut out = output;
    let mut ops = operations;
    loop
        invariant
            spec_close_paren(output@, operations@) == spec_close_paren(out@, ops@),
            tokens_wf(output@) && tokens_wf(operations@) ==> tokens_wf(out@) && tokens_wf(ops@),
        decreases ops.len(),
    {
        if ops.len() == 0 {
            return Err(CalcError::UnbalancedParenthesis);
        }
        let top = ops.pop().unwrap();
        match top {
            Token::OpenParen => {
                return Ok((out, ops));
            },
            _ => {
                out.push(top);
            },
        }
    }
}

/// Convert an infix token sequence to postfix order; follows
/// `spec_to_postfix` step for step. Grouping comes from parentheses alone;
/// operators on one level apply left to right, by design.
#[verifier::loop_isolation(false)]
pub fn to_postfix_tokens(tokens: &Vec<Token>) -> (r: Result<Vec<Token>, CalcError>)
    ensures
        r matches Ok(v) ==> spec_to_postfix(tokens@) == Ok::<Seq<Token>, CalcError>(v@),
        r matches Err(e) ==> spec_to_postfix(tokens@) == Err::<Seq<Token>, CalcError>(e),
        r matches Ok(v) ==> (tokens_wf(tokens@) ==> tokens_wf(v@)),
{
    let mut output: Vec<Token> = Vec::new();
    let mut operations: Vec<Token> = Vec::new();
    let mut i: usize = 0;
    while i < tokens.len()
        invariant
            0 <= i <= tokens.len(),
            spec_to_postfix(tokens@) == spec_to_postfix_from(
                tokens@,
                i as int,
                output@,
                operations@,
            ),
            tokens_wf(tokens@) ==> tokens_wf(output@) && tokens_wf(operations@),
        decreases tokens.len() - i,
    {
        let token = tokens[i];
        match token {
            Token::Number(_) => {
                output.push(token);
                if operations.len() > 0 {
                    let top = operations[operations.len() - 1];
                    if top.is_operator() {
                        let popped = operations.pop().unwrap();
                        output.push(popped);
                    }
                }
            },
            Token::CloseParen => {
                match resolve_close_paren(output, operations) {
                    Ok(p) => {
                        output = p.0;
                        operations = p.1;
                    },
                    Err(e) => {
                        return Err(e);
                    },
                }
            },
            _ => {
                operations.push(token);
            },
        }
        i = i + 1;
    }
    while operations.len() > 0
        invariant
            spec_to_postfix(tokens@) == spec_drain(output@, operations@),
            tokens_wf(tokens@) ==> tokens_wf(output@) && tokens_wf(operations@),
        decreases operations.len(),
    {
        let top = operations.pop().unwrap();
        match top {
            Token::OpenParen => {
                return Err(CalcError::UnbalancedParenthesis);
            },
            _ => {
                output.push(top);
            },
        }
    }
    Ok(output)
}

} // verus!
