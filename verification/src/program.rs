//! A program: the statements of a token sequence, one behind the other.

use vstd::prelude::*;
use crate::ast::Ast;
use crate::grammar::{statement, ParseErrorModel};
use crate::progress::lemma_statement_advances;
use crate::token::TokenModel;

verus! {

/// The statements from `cursor` to the end of the tokens, behind the
/// statements `read`.
#[verifier::opaque]
pub open spec fn program_tail(tokens: Seq<TokenModel>, cursor: int, read: Seq<Ast>) -> Result<
    Seq<Ast>,
    ParseErrorModel,
>
    decreases tokens.len() - cursor,
{
    if 0 <= cursor < tokens.len() {
        match statement(tokens, cursor) {
            Err(e) => Err(e),
            Ok(next) => {
                proof {
                    lemma_statement_advances(tokens, cursor);
                }
                program_tail(tokens, next.cursor, read.push(next.expr))
            },
        }
    } else {
        Ok(read)
    }
}

/// Every statement of `tokens`, in order.
pub open spec fn program(tokens: Seq<TokenModel>) -> Result<Seq<Ast>, ParseErrorModel> {
    program_tail(tokens, 0, Seq::empty())
}

/// A program has as many statements as were read, and at most as many as
/// there are tokens: every statement takes a token at least.
pub proof fn lemma_program_is_bounded(tokens: Seq<TokenModel>, cursor: int, read: Seq<Ast>)
    requires
        0 <= cursor <= tokens.len(),
    ensures
        program_tail(tokens, cursor, read) matches Ok(statements) ==> read.len()
            <= statements.len() <= read.len() + tokens.len() - cursor,
    decreases tokens.len() - cursor,
{
    reveal(program_tail);
    if cursor < tokens.len() {
        lemma_statement_advances(tokens, cursor);
        if let Ok(next) = statement(tokens, cursor) {
            lemma_program_is_bounded(tokens, next.cursor, read.push(next.expr));
        }
    }
}

} // verus!
