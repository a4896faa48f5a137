use vstd::prelude::*;

use crate::errors::CalcError;
use crate::eval::spec_apply;
use crate::eval::spec_eval_from;
use crate::eval::spec_evaluate;
use crate::postfix::spec_close_paren;
use crate::postfix::spec_to_postfix;
use crate::postfix::spec_to_postfix_from;
use crate::token::Rat;
use crate::token::Token;
use crate::tokenizer::spec_is_fpd;
use crate::tokenizer::spec_parse_literal;
use crate::tokenizer::spec_flush;
use crate::tokenizer::spec_tokenize;
use crate::tokenizer::spec_tokenize_from;

verus! {

/// While every remaining character can be part of a literal, the scan only
/// grows the buffer, and the whole rest of the input joins it.
proof fn lemma_tokenize_all_literal_chars(s: Seq<char>, i: int, buf: Seq<char>, toks: Seq<Token>)
    requires
        0 <= i <= s.len(),
        forall|j: int| i <= j < s.len() ==> spec_is_fpd(#[trigger] s[j]),
    ensures
        spec_tokenize_from(s, i, buf, toks) == spec_flush(buf + s.skip(i), toks),
    decreases s.len() - i,
{
    if i >= s.len() {
        assert(buf + s.skip(i) =~= buf);
    } else {
        lemma_tokenize_all_literal_chars(s, i + 1, buf.push(s[i]), toks);
        assert(buf.push(s[i]) + s.skip(i + 1) =~= buf + s.skip(i));
    }
}

/// Law: a non-empty string made of digits and decimal points alone
/// tokenizes to exactly one `Number` token, and that token holds the
/// parsed literal; where the literal itself is rejected (say, two decimal
/// points), tokenizing reports exactly that rejection.
pub proof fn lemma_tokenize_single_literal(s: Seq<char>)
    requires
        s.len() > 0,
        forall|i: int| 0 <= i < s.len() ==> spec_is_fpd(#[trigger] s[i]),
    ensures
        spec_tokenize(s) == (match spec_parse_literal(s) {
            Ok(r) => Ok::<Seq<Token>, CalcError>(seq![Token::Number(r)]),
            Err(e) => Err::<Seq<Token>, CalcError>(e),
        }),
{
    lemma_tokenize_all_literal_chars(s, 0, Seq::<char>::empty(), Seq::<Token>::empty());
    assert(Seq::<char>::empty() + s.skip(0) =~= s);
    match spec_parse_literal(s) {
        Ok(r) => {
            assert(Seq::<Token>::empty().push(Token::Number(r)) =~= seq![Token::Number(r)]);
        },
        Err(e) => {},
    }
}

/// An unparenthesized left-to-right chain: a literal, then operator-literal
/// pairs — `n0 op1 n1 op2 n2 ...`.
pub open spec fn is_chain(toks: Seq<Token>) -> bool {
    &&& toks.len() % 2 == 1
    &&& forall|i: int| 0 <= i < toks.len() && i % 2 == 0 ==> (#[trigger] toks[i]) is Number
    &&& forall|i: int|
        0 <= i < toks.len() && i % 2 == 1 ==> (#[trigger] toks[i]).spec_is_operator()
}

/// The left-to-right value of the rest of a chain: the accumulator so far,
/// combined with each remaining operator-literal pair in source order.
pub open spec fn spec_chain_eval_from(toks: Seq<Token>, acc: Rat, i: int) -> Result<Rat, CalcError>
    decreases toks.len() - i,
{
    if i >= toks.len() {
        Ok(acc)
    } else if i + 1 >= toks.len() {
        Err(CalcError::UnbalancedOperands)
    } else {
        match spec_apply(toks[i], acc, toks[i + 1]->Number_0) {
            Ok(v) => spec_chain_eval_from(toks, v, i + 2),
            Err(e) => Err(e),
        }
    }
}

/// The left-to-right value of a whole chain.
pub open spec fn spec_chain_eval(toks: Seq<Token>) -> Result<Rat, CalcError>
    recommends
        is_chain(toks),
{
    if toks.len() == 0 {
        Err(CalcError::EmptyResult)
    } else {
        spec_chain_eval_from(toks, toks[0]->Number_0, 1)
    }
}

/// The postfix form of the rest of a chain: each operator-literal pair
/// `op n` becomes `n op`.
pub open spec fn spec_chain_postfix_tail(toks: Seq<Token>, i: int) -> Seq<Token>
    decreases toks.len() - i,
{
    if i + 1 >= toks.len() {
        Seq::<Token>::empty()
    } else {
        seq![toks[i + 1], toks[i]] + spec_chain_postfix_tail(toks, i + 2)
    }
}

/// On the rest of a chain, the converter — whose operator stack empties
/// after every literal — appends exactly `spec_chain_postfix_tail`.
proof fn lemma_chain_postfix_from(toks: Seq<Token>, i: int, out: Seq<Token>)
    requires
        is_chain(toks),
        i % 2 == 1,
        1 <= i <= toks.len(),
    ensures
        spec_to_postfix_from(toks, i, out, Seq::<Token>::empty()) == Ok::<Seq<Token>, CalcError>(
            out + spec_chain_postfix_tail(toks, i),
        ),
    decreases toks.len() - i,
{
    if i >= toks.len() {
        assert(out + spec_chain_postfix_tail(toks, i) =~= out);
    } else {
        assert(toks[i].spec_is_operator());
        assert(i + 1 < toks.len());
        assert(toks[i + 1] is Number);
        let ops1 = Seq::<Token>::empty().push(toks[i]);
        assert(ops1.last() == toks[i]);
        assert(ops1.drop_last() =~= Seq::<Token>::empty());
        assert(spec_to_postfix_from(toks, i, out, Seq::<Token>::empty()) == spec_to_postfix_from(
            toks,
            i + 1,
            out,
            ops1,
        ));
        assert(spec_to_postfix_from(toks, i + 1, out, ops1) == spec_to_postfix_from(
            toks,
            i + 2,
            out.push(toks[i + 1]).push(toks[i]),
            Seq::<Token>::empty(),
        ));
        lemma_chain_postfix_from(toks, i + 2, out.push(toks[i + 1]).push(toks[i]));
        assert(spec_chain_postfix_tail(toks, i) == seq![toks[i + 1], toks[i]]
            + spec_chain_postfix_tail(toks, i + 2));
        assert(out.push(toks[i + 1]).push(toks[i]) + spec_chain_postfix_tail(toks, i + 2)
            =~= out + spec_chain_postfix_tail(toks, i));
    }
}

/// Running the stack machine over the postfix form of the rest of a chain
/// computes exactly the chain's left-to-right value.
proof fn lemma_chain_eval_from(toks: Seq<Token>, i: int, pf: Seq<Token>, j: int, acc: Rat)
    requires
        is_chain(toks),
        i % 2 == 1,
        1 <= i <= toks.len(),
        0 <= j <= pf.len(),
        pf.skip(j) == spec_chain_postfix_tail(toks, i),
    ensures
        spec_eval_from(pf, j, seq![acc]) == spec_chain_eval_from(toks, acc, i),
    decreases toks.len() - i,
{
    if i >= toks.len() {
        assert(pf.skip(j).len() == 0);
        assert(j >= pf.len());
    } else {
        assert(i + 1 < toks.len());
        assert(spec_chain_postfix_tail(toks, i) == seq![toks[i + 1], toks[i]]
            + spec_chain_postfix_tail(toks, i + 2));
        assert(pf.len() - j >= 2) by {
            assert(pf.skip(j).len() == pf.len() - j);
        }
        assert(pf.skip(j)[0] == pf[j]);
        assert(pf.skip(j)[1] == pf[j + 1]);
        assert(pf[j] == toks[i + 1]);
        assert(pf[j + 1] == toks[i]);
        assert(toks[i + 1] is Number);
        assert(toks[i].spec_is_operator());
        let n = toks[i + 1]->Number_0;
        let stack1 = seq![acc].push(n);
        assert(stack1.len() == 2);
        assert(stack1[0] == acc);
        assert(stack1.last() == n);
        assert(seq![acc].push(n) == stack1);
        assert(spec_eval_from(pf, j, seq![acc]) == spec_eval_from(pf, j + 1, stack1));
        match spec_apply(toks[i], acc, n) {
            Ok(v) => {
                assert(pf.skip(j).skip(2) =~= pf.skip(j + 2));
                assert(pf.skip(j).skip(2) =~= spec_chain_postfix_tail(toks, i + 2));
                assert(stack1.drop_last().drop_last().push(v) =~= seq![v]);
                lemma_chain_eval_from(toks, i + 2, pf, j + 2, v);
            },
            Err(e) => {},
        }
    }
}

/// Law (round trip through the pipeline's two back stages): for any
/// unparenthesized chain `n0 op1 n1 op2 n2 ...`, converting to postfix
/// succeeds and evaluating the postfix form gives exactly the chain's
/// left-to-right value — `(...((n0 op1 n1) op2 n2) ...)`, each step with
/// the exact rational arithmetic of `spec_apply`.
pub proof fn lemma_chain_round_trip(toks: Seq<Token>)
    requires
        is_chain(toks),
    ensures
        spec_to_postfix(toks) is Ok,
        spec_evaluate(spec_to_postfix(toks)->Ok_0) == spec_chain_eval(toks),
{
    assert(toks.len() >= 1);
    assert(toks[0] is Number);
    lemma_chain_postfix_from(toks, 1, seq![toks[0]]);
    assert(Seq::<Token>::empty().push(toks[0]) =~= seq![toks[0]]);
    let pf = spec_to_postfix(toks)->Ok_0;
    assert(pf == seq![toks[0]] + spec_chain_postfix_tail(toks, 1));
    assert(pf[0] == toks[0]);
    assert(pf.skip(1) =~= spec_chain_postfix_tail(toks, 1));
    assert(Seq::<Rat>::empty().push(toks[0]->Number_0) =~= seq![toks[0]->Number_0]);
    lemma_chain_eval_from(toks, 1, pf, 1, toks[0]->Number_0);
}

/// A fully parenthesized expression: a literal, or a parenthesized
/// application of one binary operator to two fully parenthesized
/// expressions.
pub enum ParenExpr {
    Lit(Rat),
    Node(Box<ParenExpr>, Token, Box<ParenExpr>),
}

/// Every operator of the expression is a binary operator token.
pub open spec fn wf_paren_expr(e: ParenExpr) -> bool
    decreases e,
{
    match e {
        ParenExpr::Lit(r) => true,
        ParenExpr::Node(l, op, r) => op.spec_is_operator() && wf_paren_expr(*l) && wf_paren_expr(
            *r,
        ),
    }
}

/// The written form of a fully parenthesized expression.
pub open spec fn paren_expr_tokens(e: ParenExpr) -> Seq<Token>
    decreases e,
{
    match e {
        ParenExpr::Lit(r) => seq![Token::Number(r)],
        ParenExpr::Node(l, op, r) => seq![Token::OpenParen] + paren_expr_tokens(*l) + seq![op]
            + paren_expr_tokens(*r) + seq![Token::CloseParen],
    }
}

/// The postfix form of a fully parenthesized expression: left operand,
/// right operand, operator.
pub open spec fn paren_expr_postfix(e: ParenExpr) -> Seq<Token>
    decreases e,
{
    match e {
        ParenExpr::Lit(r) => seq![Token::Number(r)],
        ParenExpr::Node(l, op, r) => paren_expr_postfix(*l) + paren_expr_postfix(*r) + seq![op],
    }
}

/// The value of a fully parenthesized expression: each operator applied to
/// the values of its bracketed operands, left operand first, with the exact
/// rational arithmetic of `spec_apply`.
pub open spec fn paren_expr_value(e: ParenExpr) -> Result<Rat, CalcError>
    decreases e,
{
    match e {
        ParenExpr::Lit(r) => Ok(r),
        ParenExpr::Node(l, op, r) => match paren_expr_value(*l) {
            Err(el) => Err(el),
            Ok(vl) => match paren_expr_value(*r) {
                Err(er) => Err(er),
                Ok(vr) => spec_apply(op, vl, vr),
            },
        },
    }
}

/// The converter's walk over the written form of one fully parenthesized
/// expression appends exactly its postfix form to the output. A literal
/// standing where an operator waits on top of the stack also pulls that
/// operator after it; a parenthesized node leaves the stack as it found it,
/// whatever is on it.
proof fn lemma_paren_expr_postfix(
    toks: Seq<Token>,
    i: int,
    out: Seq<Token>,
    ops: Seq<Token>,
    e: ParenExpr,
)
    requires
        wf_paren_expr(e),
        0 <= i,
        i + paren_expr_tokens(e).len() <= toks.len(),
        toks.subrange(i, i + paren_expr_tokens(e).len()) == paren_expr_tokens(e),
    ensures
        (e is Lit && ops.len() > 0 && ops.last().spec_is_operator()) ==> spec_to_postfix_from(
            toks,
            i,
            out,
            ops,
        ) == spec_to_postfix_from(
            toks,
            i + paren_expr_tokens(e).len(),
            out + paren_expr_postfix(e) + seq![ops.last()],
            ops.drop_last(),
        ),
        (e is Node || ops.len() == 0 || !ops.last().spec_is_operator()) ==> spec_to_postfix_from(
            toks,
            i,
            out,
            ops,
        ) == spec_to_postfix_from(
            toks,
            i + paren_expr_tokens(e).len(),
            out + paren_expr_postfix(e),
            ops,
        ),
    decreases e,
{
    match e {
        ParenExpr::Lit(r) => {
            assert(toks.subrange(i, i + 1)[0] == toks[i]);
            assert(toks[i] == Token::Number(r));
            if ops.len() > 0 && ops.last().spec_is_operator() {
                assert(out.push(toks[i]).push(ops.last()) =~= out + paren_expr_postfix(e) + seq![
                    ops.last(),
                ]);
            } else {
                assert(out.push(toks[i]) =~= out + paren_expr_postfix(e));
            }
        },
        ParenExpr::Node(l, op, r) => {
            let tl = paren_expr_tokens(*l);
            let tr = paren_expr_tokens(*r);
            let te = paren_expr_tokens(e);
            let ll = tl.len() as int;
            let lr = tr.len() as int;
            let le = te.len() as int;
            assert(le == 1 + ll + 1 + lr + 1);
            assert(forall|k: int| 0 <= k < le ==> toks[i + k] == #[trigger] te[k]);
            // the pieces of the written form, by index
            assert(te[0] == Token::OpenParen);
            assert(forall|k: int| 0 <= k < ll ==> #[trigger] tl[k] == te[1 + k]);
            assert(te[1 + ll] == op);
            assert(forall|k: int| 0 <= k < lr ==> #[trigger] tr[k] == te[1 + ll + 1 + k]);
            assert(te[le - 1] == Token::CloseParen);
            // step 1: the open parenthesis goes onto the stack
            assert(toks[i] == Token::OpenParen);
            let ops1 = ops.push(Token::OpenParen);
            assert(spec_to_postfix_from(toks, i, out, ops) == spec_to_postfix_from(
                toks,
                i + 1,
                out,
                ops1,
            ));
            // step 2: the left operand, protected by the open parenthesis
            assert(toks.subrange(i + 1, i + 1 + ll) =~= tl);
            assert(!ops1.last().spec_is_operator());
            lemma_paren_expr_postfix(toks, i + 1, out, ops1, *l);
            let out1 = out + paren_expr_postfix(*l);
            // step 3: the operator goes onto the stack
            assert(toks[i + 1 + ll] == op);
            let ops2 = ops1.push(op);
            assert(spec_to_postfix_from(toks, i + 1 + ll, out1, ops1) == spec_to_postfix_from(
                toks,
                i + 1 + ll + 1,
                out1,
                ops2,
            ));
            // step 4: the right operand, with the operator waiting on top
            assert(toks.subrange(i + 2 + ll, i + 2 + ll + lr) =~= tr);
            assert(ops2.last() == op);
            assert(ops2.drop_last() =~= ops1);
            lemma_paren_expr_postfix(toks, i + 2 + ll, out1, ops2, *r);
            // step 5: the close parenthesis discards the open one; a
            // parenthesized right operand leaves the operator for the close
            // parenthesis to pop first
            assert(toks[i + le - 1] == Token::CloseParen);
            let out2 = out1 + paren_expr_postfix(*r) + seq![op];
            if (*r) is Lit {
                assert(spec_close_paren(out2, ops1) == Ok::<(Seq<Token>, Seq<Token>), CalcError>(
                    (out2, ops),
                )) by {
                    assert(ops1.last() is OpenParen);
                    assert(ops1.drop_last() =~= ops);
                }
            } else {
                let out2b = out1 + paren_expr_postfix(*r);
                assert(spec_close_paren(out2b, ops2) == spec_close_paren(out2b.push(op), ops1))
                    by {
                    assert(ops2.last() == op);
                    assert(!(op is OpenParen));
                }
                assert(out2b.push(op) =~= out2);
                assert(spec_close_paren(out2, ops1) == Ok::<(Seq<Token>, Seq<Token>), CalcError>(
                    (out2, ops),
                )) by {
                    assert(ops1.last() is OpenParen);
                    assert(ops1.drop_last() =~= ops);
                }
            }
            assert(out2 =~= out + paren_expr_postfix(e));
        },
    }
}

/// Running the stack machine over the postfix form of a fully parenthesized
/// expression pushes exactly its value — or stops with exactly the error
/// its value meets first.
proof fn lemma_paren_expr_eval(pf: Seq<Token>, j: int, stack: Seq<Rat>, e: ParenExpr)
    requires
        wf_paren_expr(e),
        0 <= j,
        j + paren_expr_postfix(e).len() <= pf.len(),
        pf.subrange(j, j + paren_expr_postfix(e).len()) == paren_expr_postfix(e),
    ensures
        paren_expr_value(e) matches Ok(v) ==> spec_eval_from(pf, j, stack) == spec_eval_from(
            pf,
            j + paren_expr_postfix(e).len(),
            stack.push(v),
        ),
        paren_expr_value(e) matches Err(er) ==> spec_eval_from(pf, j, stack) == Err::<
            Rat,
            CalcError,
        >(er),
    decreases e,
{
    match e {
        ParenExpr::Lit(r) => {
            assert(pf.subrange(j, j + 1)[0] == pf[j]);
            assert(pf[j] == Token::Number(r));
        },
        ParenExpr::Node(l, op, r) => {
            let pl = paren_expr_postfix(*l);
            let pr = paren_expr_postfix(*r);
            let pe = paren_expr_postfix(e);
            let ll = pl.len() as int;
            let lr = pr.len() as int;
            let le = pe.len() as int;
            assert(le == ll + lr + 1);
            assert(forall|k: int| 0 <= k < le ==> pf[j + k] == #[trigger] pe[k]);
            assert(forall|k: int| 0 <= k < ll ==> #[trigger] pl[k] == pe[k]);
            assert(forall|k: int| 0 <= k < lr ==> #[trigger] pr[k] == pe[ll + k]);
            assert(pe[le - 1] == op);
            assert(pf.subrange(j, j + ll) =~= pl);
            lemma_paren_expr_eval(pf, j, stack, *l);
            match paren_expr_value(*l) {
                Err(el) => {},
                Ok(vl) => {
                    assert(pf.subrange(j + ll, j + ll + lr) =~= pr);
                    lemma_paren_expr_eval(pf, j + ll, stack.push(vl), *r);
                    match paren_expr_value(*r) {
                        Err(er) => {},
                        Ok(vr) => {
                            let stack2 = stack.push(vl).push(vr);
                            assert(pf[j + ll + lr] == op);
                            assert(stack2.len() >= 2);
                            assert(stack2[stack2.len() - 2] == vl);
                            assert(stack2.last() == vr);
                            match spec_apply(op, vl, vr) {
                                Ok(v) => {
                                    assert(stack2.drop_last().drop_last().push(v) =~= stack.push(
                                        v,
                                    ));
                                },
                                Err(ea) => {},
                            }
                        },
                    }
                },
            }
        },
    }
}

/// Law (round trip, nested case): a fully parenthesized expression —
/// every operator application bracketed — converts to exactly its postfix
/// form, and evaluating that gives exactly the expression's value, each
/// operator applied to its bracketed operands in source order. Chains of
/// several operators on one parenthesis level are the flat case
/// (`lemma_chain_round_trip`); a parenthesized group standing between two
/// operators of one level is regrouped by the converter and is covered by
/// neither law.
pub proof fn lemma_paren_round_trip(e: ParenExpr)
    requires
        wf_paren_expr(e),
    ensures
        spec_to_postfix(paren_expr_tokens(e)) == Ok::<Seq<Token>, CalcError>(
            paren_expr_postfix(e),
        ),
        spec_evaluate(paren_expr_postfix(e)) == paren_expr_value(e),
{
    let te = paren_expr_tokens(e);
    let pe = paren_expr_postfix(e);
    assert(te.subrange(0, te.len() as int) =~= te);
    lemma_paren_expr_postfix(te, 0, Seq::<Token>::empty(), Seq::<Token>::empty(), e);
    assert(Seq::<Token>::empty() + pe =~= pe);
    assert(spec_to_postfix_from(te, te.len() as int, pe, Seq::<Token>::empty()) == Ok::<
        Seq<Token>,
        CalcError,
    >(pe));
    assert(pe.subrange(0, pe.len() as int) =~= pe);
    lemma_paren_expr_eval(pe, 0, Seq::<Rat>::empty(), e);
    match paren_expr_value(e) {
        Ok(v) => {
            assert(Seq::<Rat>::empty().push(v).len() == 1);
        },
        Err(er) => {},
    }
}

} // verus!
