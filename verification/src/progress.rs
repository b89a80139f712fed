//! Every parse moves on: what the grammar reads at a cursor ends behind that
//! cursor and inside the tokens. The grammar asks this of each part before
//! it goes on behind it; here it is shown to hold of every part, so that
//! the question is never answered with no.

use vstd::prelude::*;
use crate::ast::Ast;
use crate::grammar::{
    additive, additive_tail, arguments, binding, block, block_tail, call, closing, definition,
    ends_after, expect, function_level, identifier_at, lemma_parameters_hold, logarithm,
    multiplicative, multiplicative_tail, operation_at, parameters, parenthesis, power, power_tail,
    prefixed, primary, reference, statement, ParseErrorModel, ParseList, Parsed,
};
use crate::token::{Operations, TokenModel};

verus! {

/// Whether `r`, if it is a parse, ends behind `cursor` and inside the
/// tokens.
pub open spec fn advances(tokens: Seq<TokenModel>, cursor: int, r: Parsed) -> bool {
    r matches Ok(p) ==> cursor < p.cursor <= tokens.len()
}

/// Whether `r`, if it is a parse, ends at `cursor` or behind it, and inside
/// the tokens.
pub open spec fn holds(tokens: Seq<TokenModel>, cursor: int, r: Parsed) -> bool {
    r matches Ok(p) ==> cursor <= p.cursor <= tokens.len()
}

/// Whether `r`, if it is a list, ends at `cursor` or behind it, and inside
/// the tokens.
pub open spec fn list_holds<T>(
    tokens: Seq<TokenModel>,
    cursor: int,
    r: Result<ParseList<T>, ParseErrorModel>,
) -> bool {
    r matches Ok(list) ==> cursor <= list.cursor <= tokens.len()
}

/// A statement moves on.
pub proof fn lemma_statement_advances(tokens: Seq<TokenModel>, cursor: int)
    requires
        0 <= cursor,
    ensures
        advances(tokens, cursor, statement(tokens, cursor)),
    decreases tokens.len() - cursor, 12nat,
{
    reveal(statement);
    reveal(additive);
    lemma_additive_advances(tokens, cursor);
}

/// A sum moves on.
pub proof fn lemma_additive_advances(tokens: Seq<TokenModel>, cursor: int)
    requires
        0 <= cursor,
    ensures
        advances(tokens, cursor, additive(tokens, cursor)),
    decreases tokens.len() - cursor, 11nat,
{
    reveal(additive);
    reveal(multiplicative);
    reveal(additive_tail);
    lemma_multiplicative_advances(tokens, cursor);
    if let Ok(left) = multiplicative(tokens, cursor) {
        lemma_additive_tail_holds(tokens, left.cursor, left.expr);
    }
}

/// The rest of a sum does not move back.
pub proof fn lemma_additive_tail_holds(tokens: Seq<TokenModel>, cursor: int, left: Ast)
    requires
        0 <= cursor <= tokens.len(),
    ensures
        holds(tokens, cursor, additive_tail(tokens, cursor, left)),
    decreases tokens.len() - cursor, 10nat,
{
    reveal(additive_tail);
    reveal(multiplicative);
    if let Some(op) = operation_at(tokens, cursor) {
        if op == Operations::ADD || op == Operations::MINUS {
            lemma_multiplicative_advances(tokens, cursor + 1);
            if let Ok(right) = multiplicative(tokens, cursor + 1) {
                lemma_additive_tail_holds(
                    tokens,
                    right.cursor,
                    Ast::BinaryOp(Box::new(left), op, Box::new(right.expr)),
                );
            }
        }
    }
}

/// A product moves on.
pub proof fn lemma_multiplicative_advances(tokens: Seq<TokenModel>, cursor: int)
    requires
        0 <= cursor,
    ensures
        advances(tokens, cursor, multiplicative(tokens, cursor)),
    decreases tokens.len() - cursor, 9nat,
{
    reveal(multiplicative);
    reveal(power);
    reveal(multiplicative_tail);
    lemma_power_advances(tokens, cursor);
    if let Ok(left) = power(tokens, cursor) {
        lemma_multiplicative_tail_holds(tokens, left.cursor, left.expr);
    }
}

/// The rest of a product does not move back.
pub proof fn lemma_multiplicative_tail_holds(tokens: Seq<TokenModel>, cursor: int, left: Ast)
    requires
        0 <= cursor <= tokens.len(),
    ensures
        holds(tokens, cursor, multiplicative_tail(tokens, cursor, left)),
    decreases tokens.len() - cursor, 8nat,
{
    reveal(multiplicative_tail);
    reveal(power);
    if let Some(op) = operation_at(tokens, cursor) {
        if op == Operations::MULTIPLY || op == Operations::DIVIDE {
            lemma_power_advances(tokens, cursor + 1);
            if let Ok(right) = power(tokens, cursor + 1) {
                lemma_multiplicative_tail_holds(
                    tokens,
                    right.cursor,
                    Ast::BinaryOp(Box::new(left), op, Box::new(right.expr)),
                );
            }
        }
    }
}

/// A power moves on.
pub proof fn lemma_power_advances(tokens: Seq<TokenModel>, cursor: int)
    requires
        0 <= cursor,
    ensures
        advances(tokens, cursor, power(tokens, cursor)),
    decreases tokens.len() - cursor, 7nat,
{
    reveal(power);
    reveal(function_level);
    reveal(power_tail);
    lemma_function_level_advances(tokens, cursor);
    if let Ok(left) = function_level(tokens, cursor) {
        lemma_power_tail_holds(tokens, left.cursor, left.expr);
    }
}

/// The rest of a power does not move back.
pub proof fn lemma_power_tail_holds(tokens: Seq<TokenModel>, cursor: int, left: Ast)
    requires
        0 <= cursor <= tokens.len(),
    ensures
        holds(tokens, cursor, power_tail(tokens, cursor, left)),
    decreases tokens.len() - cursor, 6nat,
{
    reveal(power_tail);
    reveal(function_level);
    if operation_at(tokens, cursor) == Some(Operations::POWER) {
        lemma_function_level_advances(tokens, cursor + 1);
        if let Ok(right) = function_level(tokens, cursor + 1) {
            lemma_power_tail_holds(
                tokens,
                right.cursor,
                Ast::BinaryOp(Box::new(left), Operations::POWER, Box::new(right.expr)),
            );
        }
    }
}

/// The function level moves on.
pub proof fn lemma_function_level_advances(tokens: Seq<TokenModel>, cursor: int)
    requires
        0 <= cursor,
    ensures
        advances(tokens, cursor, function_level(tokens, cursor)),
    decreases tokens.len() - cursor, 5nat,
{
    reveal(function_level);
    reveal(prefixed);
    reveal(logarithm);
    reveal(primary);
    if let Some(op) = operation_at(tokens, cursor) {
        lemma_prefixed_advances(tokens, cursor, op);
    }
    lemma_logarithm_advances(tokens, cursor);
    lemma_primary_advances(tokens, cursor);
    if let Ok(first) = primary(tokens, cursor) {
        if operation_at(tokens, first.cursor) == Some(Operations::FNMOD) {
            lemma_primary_advances(tokens, first.cursor + 1);
        }
    }
}

/// A logarithm moves on.
pub proof fn lemma_logarithm_advances(tokens: Seq<TokenModel>, cursor: int)
    requires
        0 <= cursor,
    ensures
        advances(tokens, cursor, logarithm(tokens, cursor)),
    decreases tokens.len() - cursor, 4nat,
{
    reveal(logarithm);
    reveal(additive);
    if let Ok(inside) = expect(tokens, cursor + 1, Operations::LPAREN) {
        lemma_additive_advances(tokens, inside);
        if let Ok(argument) = additive(tokens, inside) {
            if operation_at(tokens, argument.cursor) == Some(Operations::COMMA) {
                lemma_additive_advances(tokens, argument.cursor + 1);
            }
        }
    }
}

/// An operator with its operand moves on.
pub proof fn lemma_prefixed_advances(tokens: Seq<TokenModel>, cursor: int, op: Operations)
    requires
        0 <= cursor,
    ensures
        advances(tokens, cursor, prefixed(tokens, cursor, op)),
    decreases tokens.len() - cursor, 2nat,
{
    reveal(prefixed);
    reveal(primary);
    if cursor < tokens.len() {
        lemma_primary_advances(tokens, cursor + 1);
    }
}

/// A name that is read or assigned to moves on.
pub proof fn lemma_reference_advances(tokens: Seq<TokenModel>, cursor: int, name: Seq<char>)
    requires
        0 <= cursor < tokens.len(),
    ensures
        advances(tokens, cursor, reference(tokens, cursor, name)),
    decreases tokens.len() - cursor, 2nat,
{
    reveal(reference);
    reveal(additive);
    if operation_at(tokens, cursor + 1) == Some(Operations::VARASSIGN) {
        lemma_additive_advances(tokens, cursor + 2);
    }
}

/// A call moves on.
pub proof fn lemma_call_advances(tokens: Seq<TokenModel>, cursor: int, name: Seq<char>)
    requires
        0 <= cursor,
    ensures
        advances(tokens, cursor, call(tokens, cursor, name)),
    decreases tokens.len() - cursor, 2nat,
{
    reveal(call);
    reveal(arguments);
    if cursor < tokens.len() {
        lemma_arguments_hold(tokens, cursor + 1, Seq::empty());
    }
}

/// A parenthesis moves on.
pub proof fn lemma_parenthesis_advances(tokens: Seq<TokenModel>, cursor: int)
    requires
        0 <= cursor,
    ensures
        advances(tokens, cursor, parenthesis(tokens, cursor)),
    decreases tokens.len() - cursor, 2nat,
{
    reveal(parenthesis);
    reveal(additive);
    if cursor < tokens.len() {
        lemma_additive_advances(tokens, cursor + 1);
    }
}

/// A primary moves on.
pub proof fn lemma_primary_advances(tokens: Seq<TokenModel>, cursor: int)
    requires
        0 <= cursor,
    ensures
        advances(tokens, cursor, primary(tokens, cursor)),
    decreases tokens.len() - cursor, 3nat,
{
    reveal(primary);
    reveal(definition);
    reveal(reference);
    reveal(call);
    reveal(block);
    reveal(binding);
    reveal(prefixed);
    reveal(parenthesis);
    if operation_at(tokens, cursor) == Some(Operations::FNDEFINE) {
        lemma_definition_advances(tokens, cursor);
    } else if let Some(name) = identifier_at(tokens, cursor) {
        lemma_reference_advances(tokens, cursor, name);
        lemma_call_advances(tokens, cursor + 1, name);
    } else {
        lemma_block_advances(tokens, cursor);
        lemma_binding_advances(tokens, cursor);
        lemma_prefixed_advances(tokens, cursor, Operations::MINUS);
        lemma_prefixed_advances(tokens, cursor, Operations::NOT);
        lemma_parenthesis_advances(tokens, cursor);
    }
}

/// A block moves on.
pub proof fn lemma_block_advances(tokens: Seq<TokenModel>, cursor: int)
    requires
        0 <= cursor,
    ensures
        advances(tokens, cursor, block(tokens, cursor)),
    decreases tokens.len() - cursor, 2nat,
{
    reveal(block);
    reveal(block_tail);
    if let Ok(inside) = expect(tokens, cursor, Operations::LBRACE) {
        lemma_block_tail_holds(tokens, inside, Seq::empty());
    }
}

/// The rest of a block moves on: it reads the closing brace at least.
pub proof fn lemma_block_tail_holds(tokens: Seq<TokenModel>, cursor: int, body: Seq<Ast>)
    requires
        0 <= cursor <= tokens.len(),
    ensures
        advances(tokens, cursor, block_tail(tokens, cursor, body)),
    decreases tokens.len() - cursor, 13nat,
{
    reveal(block_tail);
    reveal(statement);
    if cursor < tokens.len() && operation_at(tokens, cursor) != Some(Operations::RBRACE) {
        lemma_statement_advances(tokens, cursor);
        if let Ok(next) = statement(tokens, cursor) {
            lemma_block_tail_holds(tokens, next.cursor, body.push(next.expr));
        }
    }
}

/// A `let` moves on.
pub proof fn lemma_binding_advances(tokens: Seq<TokenModel>, cursor: int)
    requires
        0 <= cursor,
    ensures
        advances(tokens, cursor, binding(tokens, cursor)),
    decreases tokens.len() - cursor, 2nat,
{
    reveal(binding);
    reveal(additive);
    if let Ok(behind) = expect(tokens, cursor + 2, Operations::VARASSIGN) {
        lemma_additive_advances(tokens, behind);
    }
}

/// A declaration moves on.
pub proof fn lemma_definition_advances(tokens: Seq<TokenModel>, cursor: int)
    requires
        0 <= cursor,
    ensures
        advances(tokens, cursor, definition(tokens, cursor)),
    decreases tokens.len() - cursor, 2nat,
{
    reveal(definition);
    reveal(parameters);
    reveal(block);
    if let Ok(inside) = expect(tokens, cursor + 2, Operations::LPAREN) {
        lemma_parameters_hold(tokens, inside, Seq::empty());
        if let Ok(list) = parameters(tokens, inside, Seq::empty()) {
            lemma_block_advances(tokens, list.cursor);
        }
    }
}

/// An argument list does not move back.
pub proof fn lemma_arguments_hold(tokens: Seq<TokenModel>, cursor: int, list: Seq<Ast>)
    requires
        0 <= cursor <= tokens.len(),
    ensures
        list_holds(tokens, cursor, arguments(tokens, cursor, list)),
    decreases tokens.len() - cursor, 13nat,
{
    reveal(arguments);
    reveal(additive);
    if cursor < tokens.len() && operation_at(tokens, cursor) != Some(Operations::RPAREN) {
        lemma_additive_advances(tokens, cursor);
        if let Ok(argument) = additive(tokens, cursor) {
            if operation_at(tokens, argument.cursor) == Some(Operations::COMMA) {
                lemma_arguments_hold(tokens, argument.cursor + 1, list.push(argument.expr));
            } else {
                lemma_arguments_hold(tokens, argument.cursor, list.push(argument.expr));
            }
        }
    }
}

/// Wherever the grammar asks of a part that it has read at `start` whether
/// it ends behind `from`, a place at `start` or before it, the answer is
/// yes: the parts that it asks this of are statements, sums, products,
/// powers, the function level and primaries.
pub proof fn lemma_parts_end_behind_their_start(tokens: Seq<TokenModel>, from: int, start: int)
    requires
        0 <= from <= start,
    ensures
        statement(tokens, start) matches Ok(p) ==> ends_after(tokens, from, p),
        additive(tokens, start) matches Ok(p) ==> ends_after(tokens, from, p),
        multiplicative(tokens, start) matches Ok(p) ==> ends_after(tokens, from, p),
        power(tokens, start) matches Ok(p) ==> ends_after(tokens, from, p),
        function_level(tokens, start) matches Ok(p) ==> ends_after(tokens, from, p),
        primary(tokens, start) matches Ok(p) ==> ends_after(tokens, from, p),
{
    lemma_statement_advances(tokens, start);
    lemma_additive_advances(tokens, start);
    lemma_multiplicative_advances(tokens, start);
    lemma_power_advances(tokens, start);
    lemma_function_level_advances(tokens, start);
    lemma_primary_advances(tokens, start);
}

} // verus!
