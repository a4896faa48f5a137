//! Command-line calculator core, built on a Shunting-Yard variant.
//!
//! The pipeline has three stages: a tokenizer, an infix-to-postfix converter
//! and a stack evaluator. It deliberately implements no operator precedence:
//! operators at the same parenthesis level apply strictly left to right, and
//! grouping is expressed with parentheses alone.
//!
//! Numbers are exact rationals; a result that leaves the 64-bit range is
//! reported as an overflow rather than rounded.

use vstd::prelude::*;

mod errors;
mod eval;
mod laws;
mod postfix;
mod rational;
mod render;
mod token;
mod tokenizer;

pub use errors::CalcError;
pub use errors::spec_message;
pub use eval::evaluate;
pub use eval::retrieve_operands;
pub use eval::spec_apply;
pub use eval::spec_eval_from;
pub use eval::spec_evaluate;
pub use laws::ParenExpr;
pub use laws::is_chain;
pub use laws::lemma_chain_round_trip;
pub use laws::lemma_paren_round_trip;
pub use laws::lemma_tokenize_single_literal;
pub use laws::paren_expr_postfix;
pub use laws::paren_expr_tokens;
pub use laws::paren_expr_value;
pub use laws::spec_chain_eval;
pub use laws::spec_chain_eval_from;
pub use laws::spec_chain_postfix_tail;
pub use laws::wf_paren_expr;
pub use postfix::spec_close_paren;
pub use postfix::spec_drain;
pub use postfix::spec_to_postfix;
pub use postfix::spec_to_postfix_from;
pub use postfix::to_postfix_tokens;
pub use rational::fits_i64;
pub use rational::rat_add;
pub use rational::rat_div;
pub use rational::rat_mul;
pub use rational::rat_pow;
pub use rational::rat_sub;
pub use rational::spec_add;
pub use rational::spec_div;
pub use rational::spec_mul;
pub use rational::spec_pow;
pub use rational::spec_pow_acc;
pub use rational::spec_sub;
pub use render::render;
pub use render::spec_dec_digits;
pub use render::spec_digit_char;
pub use render::spec_frac_digits;
pub use render::spec_render;
pub use token::Rat;
pub use token::Token;
pub use token::tokens_wf;
pub use tokenizer::is_floating_point_digit;
pub use tokenizer::parse_literal;
pub use tokenizer::spec_digit_val;
pub use tokenizer::spec_flush;
pub use tokenizer::spec_is_digit;
pub use tokenizer::spec_is_fpd;
pub use tokenizer::spec_minus_is_sub;
pub use tokenizer::spec_parse_literal;
pub use tokenizer::spec_scan_literal;
pub use tokenizer::spec_tokenize;
pub use tokenizer::spec_tokenize_from;
pub use tokenizer::tokenize;

verus! {

/// The text that `calculate` answers for an input: the rendering of the
/// expression's value, or the message of the first error the pipeline
/// meets. A function of the input alone — two calls on equal inputs answer
/// equally.
pub open spec fn spec_calculate(s: Seq<char>) -> Seq<char> {
    match spec_tokenize(s) {
        Err(e) => spec_message(e),
        Ok(toks) => if toks.len() == 0 {
            spec_message(CalcError::EmptyInput)
        } else {
            match spec_to_postfix(toks) {
                Err(e) => spec_message(e),
                Ok(pf) => match spec_evaluate(pf) {
                    Err(e) => spec_message(e),
                    Ok(v) => spec_render(v),
                },
            }
        },
    }
}

/// Evaluate one expression: tokenize, convert to postfix, run the stack
/// machine, and render the value — or the first error — as text. Never
/// panics, whatever the input.
pub fn calculate(input: &str) -> (r: String)
    ensures
        r@ == spec_calculate(input@),
{
    let tokens = match tokenize(input) {
        Ok(t) => t,
        Err(e) => {
            return e.message();
        },
    };
    if tokens.len() == 0 {
        return CalcError::EmptyInput.message();
    }
    let postfix_tokens = match to_postfix_tokens(&tokens) {
        Ok(p) => p,
        Err(e) => {
            return e.message();
        },
    };
    match evaluate(postfix_tokens) {
        Ok(v) => render(v),
        Err(e) => e.message(),
    }
}

} // verus!
