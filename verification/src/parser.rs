//! The parser stub: a stand-in collaborator that consumes the token stream.
//!
//! No grammar is settled yet, so parsing reduces a token sequence to the
//! value of its last meaningful token. The contract pins that behaviour
//! exactly, so the stub can later be replaced by a real parser with a
//! richer one.

use vstd::prelude::*;

use crate::token::{tokens_view, Token, TokenContext, TokenContextModel, TokenModel};
use crate::{FellowError, FellowValue, FellowValueModel};

verus! {

/// The interface a parsed expression presents to the evaluator. The
/// grammar is not settled, so the trait has no operations yet; the values
/// the stub parser produces implement it.
pub trait Expr {

}

impl Expr for FellowValue {

}

/// The value a single token carries, as the stub parser reads one: boolean
/// and literal tokens become their values, everything else is nil.
pub open spec fn parse_token_model(t: TokenModel) -> FellowValueModel {
    match t {
        TokenModel::True => FellowValueModel::Boolean(true),
        TokenModel::False => FellowValueModel::Boolean(false),
        TokenModel::StringLit(s) => FellowValueModel::Str(s),
        TokenModel::Integer(i) => FellowValueModel::Int(i),
        _ => FellowValueModel::Nil,
    }
}

/// The last token of a sequence that is not whitespace; the end-of-file
/// token counts as whitespace here, so an all-whitespace input has none.
pub open spec fn last_meaningful(toks: Seq<TokenContextModel>) -> Option<TokenContextModel>
    decreases toks.len(),
{
    if toks.len() == 0 {
        None
    } else if !toks.last().token.is_whitespace() {
        Some(toks.last())
    } else {
        last_meaningful(toks.drop_last())
    }
}

fn parse_token(token_context: &TokenContext) -> (r: FellowValue)
    ensures
        r@ == parse_token_model(token_context@.token),
{
    match &token_context.token {
        Token::True => FellowValue::Boolean(true),
        Token::False => FellowValue::Boolean(false),
        Token::StringLit(s) => FellowValue::Str(s.clone()),
        Token::Integer(i) => FellowValue::Int(*i),
        _ => FellowValue::Nil,
    }
}

/// Reduce a token sequence to the value of its last meaningful token; a
/// sequence with none (only whitespace and end-of-file) cannot be parsed.
pub fn parse(tokens: Vec<TokenContext>) -> (r: Result<FellowValue, FellowError>)
    ensures
        match last_meaningful(tokens_view(tokens@)) {
            Some(m) => r matches Ok(v) && v@ == parse_token_model(m.token),
            None => r matches Err(e) && e is InterpreterError,
        },
{
    let ghost all = tokens_view(tokens@);
    let mut i: usize = tokens.len();
    proof {
        assert(all.take(i as int) =~= all);
    }
    while i > 0
        invariant
            0 <= i <= tokens.len(),
            all == tokens_view(tokens@),
            last_meaningful(all) == last_meaningful(all.take(i as int)),
        decreases i,
    {
        if !tokens[i - 1].token.is_whitespace() {
            proof {
                assert(all[i as int - 1] == tokens@[i as int - 1]@);
                assert(all.take(i as int).last() == all[i as int - 1]);
                assert(last_meaningful(all) == Some(all[i as int - 1]));
            }
            return Ok(parse_token(&tokens[i - 1]));
        }
        proof {
            assert(all.take(i as int).drop_last() =~= all.take(i as int - 1));
        }
        i = i - 1;
    }
    proof {
        assert(all.take(0) =~= Seq::<TokenContextModel>::empty());
    }
    Err(FellowError::InterpreterError)
}

} // verus!
