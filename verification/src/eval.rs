use vstd::prelude::*;

use crate::errors::CalcError;
use crate::rational::spec_add;
use crate::rational::spec_div;
use crate::rational::spec_mul;
use crate::rational::spec_pow;
use crate::rational::spec_sub;
use crate::rational::rat_add;
use crate::rational::rat_div;
use crate::rational::rat_mul;
use crate::rational::rat_pow;
use crate::rational::rat_sub;
use crate::token::Rat;
use crate::token::Token;
use crate::token::tokens_wf;

verus! {

/// The exact result of one binary operator on two operands.
pub open spec fn spec_apply(t: Token, lhs: Rat, rhs: Rat) -> Result<Rat, CalcError>
    recommends
        t.spec_is_operator(),
{
    match t {
        Token::AddOp => spec_add(lhs, rhs),
        Token::SubOp => spec_sub(lhs, rhs),
        Token::MulOp => spec_mul(lhs, rhs),
        Token::DivOp => spec_div(lhs, rhs),
        Token::Power => spec_pow(lhs, rhs),
        _ => Err(CalcError::UnbalancedOperands),
    }
}

/// Runtime dispatch of one binary operator; follows `spec_apply`.
fn apply_operator(t: Token, lhs: Rat, rhs: Rat) -> (r: Result<Rat, CalcError>)
    requires
        t.spec_is_operator(),
        lhs.wf(),
        rhs.wf(),
    ensures
        r == spec_apply(t, lhs, rhs),
        r matches Ok(v) ==> v.wf(),
{
    match t {
        Token::AddOp => rat_add(lhs, rhs),
        Token::SubOp => rat_sub(lhs, rhs),
        Token::MulOp => rat_mul(lhs, rhs),
        Token::DivOp => rat_div(lhs, rhs),
        Token::Power => rat_pow(lhs, rhs),
        _ => {
            proof {
                assert(false);
            }
            Err(CalcError::UnbalancedOperands)
        },
    }
}

/// Pop the right-hand and then the left-hand operand off the stack, in that
/// order; fewer than two values on the stack is an unbalanced-operands
/// error.
pub fn retrieve_operands(num_stack: &mut Vec<Rat>) -> (r: Result<(Rat, Rat), CalcError>)
    ensures
        old(num_stack)@.len() >= 2 ==> r == Ok::<(Rat, Rat), CalcError>(
            (old(num_stack)@.last(), old(num_stack)@[old(num_stack)@.len() - 2]),
        ) && final(num_stack)@ == old(num_stack)@.drop_last().drop_last(),
        old(num_stack)@.len() < 2 ==> r == Err::<(Rat, Rat), CalcError>(
            CalcError::UnbalancedOperands,
        ) && final(num_stack)@.len() == 0,
{
    let rhs = match num_stack.pop() {
        Some(val) => val,
        None => {
            return Err(CalcError::UnbalancedOperands);
        },
    };
    let lhs = match num_stack.pop() {
        Some(val) => val,
        None => {
            return Err(CalcError::UnbalancedOperands);
        },
    };
    Ok((rhs, lhs))
}

/// The stack machine's run from token `i` with the operand stack so far:
/// numbers are pushed, parentheses (which never reach a well-formed postfix
/// sequence) are ignored, and an operator replaces the two topmost values
/// by its result — the value pushed earlier is the left operand. At the
/// end, exactly one value must remain: none is an empty result, several are
/// a malformed one.
pub open spec fn spec_eval_from(toks: Seq<Token>, i: int, stack: Seq<Rat>) -> Result<
    Rat,
    CalcError,
>
    decreases toks.len() - i,
{
    if i >= toks.len() {
        if stack.len() == 1 {
            Ok(stack[0])
        } else if stack.len() == 0 {
            Err(CalcError::EmptyResult)
        } else {
            Err(CalcError::MalformedResult)
        }
    } else {
        match toks[i] {
            Token::Number(v) => spec_eval_from(toks, i + 1, stack.push(v)),
            Token::OpenParen => spec_eval_from(toks, i + 1, stack),
            Token::CloseParen => spec_eval_from(toks, i + 1, stack),
            _ => {
                if stack.len() < 2 {
                    Err(CalcError::UnbalancedOperands)
                } else {
                    match spec_apply(toks[i], stack[stack.len() - 2], stack.last()) {
                        Ok(v) => spec_eval_from(
                            toks,
                            i + 1,
                            stack.drop_last().drop_last().push(v),
                        ),
                        Err(e) => Err(e),
                    }
                }
            },
        }
    }
}

/// The value of a postfix token sequence.
pub open spec fn spec_evaluate(toks: Seq<Token>) -> Result<Rat, CalcError> {
    spec_eval_from(toks, 0, Seq::<Rat>::empty())
}

/// Run the stack machine over a postfix token sequence; follows
/// `spec_evaluate` step for step.
#[verifier::loop_isolation(false)]
pub fn evaluate(tokens: Vec<Token>) -> (r: Result<Rat, CalcError>)
    requires
        tokens_wf(tokens@),
    ensures
        r == spec_evaluate(tokens@),
        r matches Ok(v) ==> v.wf(),
{
    let mut num_stack: Vec<Rat> = Vec::new();
    let mut i: usize = 0;
    while i < tokens.len()
        invariant
            0 <= i <= tokens.len(),
            spec_evaluate(tokens@) == spec_eval_from(tokens@, i as int, num_stack@),
            forall|j: int| 0 <= j < num_stack@.len() ==> (#[trigger] num_stack@[j]).wf(),
        decreases tokens.len() - i,
    {
        let token = tokens[i];
        match token {
            Token::Number(v) => {
                num_stack.push(v);
            },
            Token::OpenParen => {},
            Token::CloseParen => {},
            _ => {
                let operands = match retrieve_operands(&mut num_stack) {
                    Ok(p) => p,
                    Err(e) => {
                        return Err(e);
                    },
                };
                let rhs = operands.0;
                let lhs = operands.1;
                let v = match apply_operator(token, lhs, rhs) {
                    Ok(v) => v,
                    Err(e) => {
                        return Err(e);
                    },
                };
                num_stack.push(v);
            },
        }
        i = i + 1;
    }
    if num_stack.len() == 0 {
        return Err(CalcError::EmptyResult);
    }
    let v = num_stack.pop().unwrap();
    if num_stack.len() > 0 {
        return Err(CalcError::MalformedResult);
    }
    Ok(v)
}

} // verus!
