//! The grammar, as functions from a token sequence and a cursor to the tree
//! that is read there and the cursor behind it.
//!
//! Precedence, from loosest to tightest: addition and subtraction;
//! multiplication and division; power; the function level (named functions,
//! modulo, factorial); primaries. Operators of one level associate to the
//! left.
//!
//! A statement is an expression at the loosest level, and ends where that
//! expression ends: behind its last operand, at the first token that is no
//! operator of a level that is open. No token separates statements, and the
//! lines that the tokens stand on play no part.

use vstd::prelude::*;
use crate::ast::Ast;
use crate::text::{decimal_text, operation_text};
use crate::token::{NumeralModel, Operations, TokenModel, ValueModel};

verus! {

/// Why a token sequence could not be parsed. `cursor` is where the parser
/// stood when it gave up.
pub enum ParseErrorModel {
    /// A token was needed and the sequence had ended.
    EmptyInput { cursor: int },
    /// The token `expected` was needed and another one was read.
    Unexpected { expected: Operations, found: Option<Operations>, cursor: int },
    /// A `(` without its `)`.
    MissingParenthesis { cursor: int },
    /// `let` was not followed by a name.
    ExpectedIdentifier { cursor: int },
    /// `fn` was not followed by a name.
    ExpectedFunctionName { cursor: int },
    /// A parameter list held something that is not a name.
    ExpectedParameter { cursor: int },
    /// A value was needed and the token read is none.
    ExpectedNumber { cursor: int },
}

impl ParseErrorModel {
    /// Where the parser stood when it gave up.
    pub open spec fn cursor(self) -> int {
        match self {
            ParseErrorModel::EmptyInput { cursor } => cursor,
            ParseErrorModel::Unexpected { cursor, .. } => cursor,
            ParseErrorModel::MissingParenthesis { cursor } => cursor,
            ParseErrorModel::ExpectedIdentifier { cursor } => cursor,
            ParseErrorModel::ExpectedFunctionName { cursor } => cursor,
            ParseErrorModel::ExpectedParameter { cursor } => cursor,
            ParseErrorModel::ExpectedNumber { cursor } => cursor,
        }
    }
}

impl ParseErrorModel {
    /// The error in words, without the cursor.
    pub open spec fn kind_text(self) -> Seq<char> {
        match self {
            ParseErrorModel::EmptyInput { .. } => "Empty input"@,
            ParseErrorModel::Unexpected { expected, found, .. } => "Expected "@ + operation_text(
                expected,
            ) + " got "@ + match found {
                Some(op) => operation_text(op),
                None => "a value"@,
            },
            ParseErrorModel::MissingParenthesis { .. } => "Missing ')'"@,
            ParseErrorModel::ExpectedIdentifier { .. } => "Expected identifier after let"@,
            ParseErrorModel::ExpectedFunctionName { .. } => "Expected function name"@,
            ParseErrorModel::ExpectedParameter { .. } => "Expected alphanumeric parameter"@,
            ParseErrorModel::ExpectedNumber { .. } => "Expected number"@,
        }
    }

    /// The error in words: its kind, and the cursor behind `@`.
    pub open spec fn text(self) -> Seq<char> {
        self.kind_text() + " @ "@ + decimal_text(self.cursor() as nat)
    }
}

/// A tree, and the cursor behind the tokens it was read from.
pub struct Parse {
    pub expr: Ast,
    pub cursor: int,
}

/// A list of names or of trees, and the cursor behind the tokens it was read
/// from.
pub struct ParseList<T> {
    pub items: Seq<T>,
    pub cursor: int,
}

pub type Parsed = Result<Parse, ParseErrorModel>;

/// The operator of the token at `cursor`, if there is a token and it has one.
pub open spec fn operation_at(tokens: Seq<TokenModel>, cursor: int) -> Option<Operations> {
    if 0 <= cursor < tokens.len() {
        tokens[cursor].operation
    } else {
        None
    }
}

/// The name that the token at `cursor` holds, if there is a token and it
/// holds one.
pub open spec fn identifier_at(tokens: Seq<TokenModel>, cursor: int) -> Option<Seq<char>> {
    if 0 <= cursor < tokens.len() {
        match tokens[cursor].value {
            Some(ValueModel::Identifier(name)) => Some(name),
            _ => None,
        }
    } else {
        None
    }
}

/// The literal that the token at `cursor` holds, if there is a token and it
/// holds one.
pub open spec fn number_at(tokens: Seq<TokenModel>, cursor: int) -> Option<NumeralModel> {
    if 0 <= cursor < tokens.len() {
        match tokens[cursor].value {
            Some(ValueModel::Number(numeral)) => Some(numeral),
            _ => None,
        }
    } else {
        None
    }
}

/// Reads one token at `cursor`, which has to be the operator `op`: the
/// cursor behind it, or the error. The token is consumed before it is
/// looked at, so a mismatch is reported from behind it.
pub open spec fn expect(tokens: Seq<TokenModel>, cursor: int, op: Operations) -> Result<
    int,
    ParseErrorModel,
> {
    if cursor >= tokens.len() {
        Err(ParseErrorModel::EmptyInput { cursor })
    } else if operation_at(tokens, cursor) == Some(op) {
        Ok(cursor + 1)
    } else {
        Err(
            ParseErrorModel::Unexpected {
                expected: op,
                found: operation_at(tokens, cursor),
                cursor: cursor + 1,
            },
        )
    }
}

/// Reads the `)` that closes a parenthesis at `cursor`: the cursor behind
/// it, or the error.
pub open spec fn closing(tokens: Seq<TokenModel>, cursor: int) -> Result<int, ParseErrorModel> {
    if operation_at(tokens, cursor) == Some(Operations::RPAREN) {
        Ok(cursor + 1)
    } else if cursor >= tokens.len() {
        Err(ParseErrorModel::MissingParenthesis { cursor })
    } else {
        Err(ParseErrorModel::MissingParenthesis { cursor: cursor + 1 })
    }
}

/// Whether `p` ends behind `from` and inside the tokens. The grammar asks
/// this of a part before it goes on behind it, which shows that it
/// terminates; [`crate::progress`] shows that the answer is always yes.
pub open spec fn ends_after(tokens: Seq<TokenModel>, from: int, p: Parse) -> bool {
    from < p.cursor <= tokens.len()
}

/// Whether `op` is a named function of one argument, or the factorial mark.
pub open spec fn is_prefix_function(op: Operations) -> bool {
    op == Operations::FNCOS || op == Operations::FNSIN || op == Operations::FNTAN || op
        == Operations::FNABS || op == Operations::FNSQRT || op == Operations::FNEXP || op
        == Operations::FNASIN || op == Operations::FNACOS || op == Operations::FNATAN || op
        == Operations::FNSINH || op == Operations::FNCOSH || op == Operations::FNTANH || op
        == Operations::FNFLOOR || op == Operations::FNCEIL || op == Operations::FNROUND || op
        == Operations::FNFACT
}

/// The base of a logarithm that names none.
pub open spec fn default_base() -> Ast {
    Ast::Number(NumeralModel::Decimal("10"@))
}

/// One statement: an expression at the loosest level.
#[verifier::opaque]
pub open spec fn statement(tokens: Seq<TokenModel>, cursor: int) -> Parsed
    decreases tokens.len() - cursor, 12nat,
{
    additive(tokens, cursor)
}

/// `a + b - c ...`
#[verifier::opaque]
pub open spec fn additive(tokens: Seq<TokenModel>, cursor: int) -> Parsed
    decreases tokens.len() - cursor, 11nat,
{
    match multiplicative(tokens, cursor) {
        Ok(left) if ends_after(tokens, cursor, left) => additive_tail(
            tokens,
            left.cursor,
            left.expr,
        ),
        other => other,
    }
}

/// What follows the operand `left` of a sum, with the cursor behind it.
#[verifier::opaque]
pub open spec fn additive_tail(tokens: Seq<TokenModel>, cursor: int, left: Ast) -> Parsed
    decreases tokens.len() - cursor, 10nat,
{
    match operation_at(tokens, cursor) {
        Some(op) if op == Operations::ADD || op == Operations::MINUS => match multiplicative(
            tokens,
            cursor + 1,
        ) {
            Ok(right) if ends_after(tokens, cursor, right) => additive_tail(
                tokens,
                right.cursor,
                Ast::BinaryOp(Box::new(left), op, Box::new(right.expr)),
            ),
            other => other,
        },
        _ => Ok(Parse { expr: left, cursor }),
    }
}

/// `a * b / c ...`
#[verifier::opaque]
pub open spec fn multiplicative(tokens: Seq<TokenModel>, cursor: int) -> Parsed
    decreases tokens.len() - cursor, 9nat,
{
    match power(tokens, cursor) {
        Ok(left) if ends_after(tokens, cursor, left) => multiplicative_tail(
            tokens,
            left.cursor,
            left.expr,
        ),
        other => other,
    }
}

/// What follows the operand `left` of a product, with the cursor behind it.
#[verifier::opaque]
pub open spec fn multiplicative_tail(tokens: Seq<TokenModel>, cursor: int, left: Ast) -> Parsed
    decreases tokens.len() - cursor, 8nat,
{
    match operation_at(tokens, cursor) {
        Some(op) if op == Operations::MULTIPLY || op == Operations::DIVIDE => match power(
            tokens,
            cursor + 1,
        ) {
            Ok(right) if ends_after(tokens, cursor, right) => multiplicative_tail(
                tokens,
                right.cursor,
                Ast::BinaryOp(Box::new(left), op, Box::new(right.expr)),
            ),
            other => other,
        },
        _ => Ok(Parse { expr: left, cursor }),
    }
}

/// `a ^ b ^ c ...`
#[verifier::opaque]
pub open spec fn power(tokens: Seq<TokenModel>, cursor: int) -> Parsed
    decreases tokens.len() - cursor, 7nat,
{
    match function_level(tokens, cursor) {
        Ok(left) if ends_after(tokens, cursor, left) => power_tail(
            tokens,
            left.cursor,
            left.expr,
        ),
        other => other,
    }
}

/// What follows the operand `left` of a power, with the cursor behind it.
#[verifier::opaque]
pub open spec fn power_tail(tokens: Seq<TokenModel>, cursor: int, left: Ast) -> Parsed
    decreases tokens.len() - cursor, 6nat,
{
    if operation_at(tokens, cursor) == Some(Operations::POWER) {
        match function_level(tokens, cursor + 1) {
            Ok(right) if ends_after(tokens, cursor, right) => power_tail(
                tokens,
                right.cursor,
                Ast::BinaryOp(Box::new(left), Operations::POWER, Box::new(right.expr)),
            ),
            other => other,
        }
    } else {
        Ok(Parse { expr: left, cursor })
    }
}

/// A named function applied to a primary, a logarithm, or a primary with an
/// optional modulo and an optional factorial behind it.
#[verifier::opaque]
pub open spec fn function_level(tokens: Seq<TokenModel>, cursor: int) -> Parsed
    decreases tokens.len() - cursor, 5nat,
{
    match operation_at(tokens, cursor) {
        Some(op) if is_prefix_function(op) => prefixed(tokens, cursor, op),
        Some(Operations::FNLOG) => logarithm(tokens, cursor),
        _ => match primary(tokens, cursor) {
            Ok(first) if ends_after(tokens, cursor, first) => {
                let reduced = if operation_at(tokens, first.cursor) == Some(Operations::FNMOD) {
                    match primary(tokens, first.cursor + 1) {
                        Ok(right) => Ok(
                            Parse {
                                expr: Ast::BinaryOp(
                                    Box::new(first.expr),
                                    Operations::FNMOD,
                                    Box::new(right.expr),
                                ),
                                cursor: right.cursor,
                            },
                        ),
                        Err(e) => Err(e),
                    }
                } else {
                    Ok(first)
                };
                match reduced {
                    Ok(p) if operation_at(tokens, p.cursor) == Some(Operations::FNFACT) => Ok(
                        Parse {
                            expr: Ast::UnaryOp(Box::new(p.expr), Operations::FNFACT),
                            cursor: p.cursor + 1,
                        },
                    ),
                    other => other,
                }
            },
            other => other,
        },
    }
}

/// `log(a)` or `log(a, b)`, with the cursor on `log`. Without `b` the base
/// is ten.
#[verifier::opaque]
pub open spec fn logarithm(tokens: Seq<TokenModel>, cursor: int) -> Parsed
    decreases tokens.len() - cursor, 4nat,
{
    match expect(tokens, cursor + 1, Operations::LPAREN) {
        Err(e) => Err(e),
        Ok(inside) => match additive(tokens, inside) {
            Ok(argument) if ends_after(tokens, cursor, argument) => {
                let base = if operation_at(tokens, argument.cursor) == Some(Operations::COMMA) {
                    additive(tokens, argument.cursor + 1)
                } else {
                    Ok(Parse { expr: default_base(), cursor: argument.cursor })
                };
                match base {
                    Err(e) => Err(e),
                    Ok(base) => match closing(tokens, base.cursor) {
                        Err(e) => Err(e),
                        Ok(behind) => Ok(
                            Parse {
                                expr: Ast::BinaryOp(
                                    Box::new(argument.expr),
                                    Operations::FNLOG,
                                    Box::new(base.expr),
                                ),
                                cursor: behind,
                            },
                        ),
                    },
                }
            },
            other => other,
        },
    }
}

/// The operator `op`, which stands at `cursor`, applied to the primary
/// behind it.
#[verifier::opaque]
pub open spec fn prefixed(tokens: Seq<TokenModel>, cursor: int, op: Operations) -> Parsed
    decreases tokens.len() - cursor, 2nat,
{
    if 0 <= cursor < tokens.len() {
        match primary(tokens, cursor + 1) {
            Ok(operand) => Ok(
                Parse { expr: Ast::UnaryOp(Box::new(operand.expr), op), cursor: operand.cursor },
            ),
            Err(e) => Err(e),
        }
    } else {
        Err(ParseErrorModel::EmptyInput { cursor })
    }
}

/// The name `name`, which stands at `cursor`: assigned to where `=` follows
/// it, read otherwise.
#[verifier::opaque]
pub open spec fn reference(tokens: Seq<TokenModel>, cursor: int, name: Seq<char>) -> Parsed
    decreases tokens.len() - cursor, 2nat,
{
    if operation_at(tokens, cursor + 1) == Some(Operations::VARASSIGN) {
        match additive(tokens, cursor + 2) {
            Ok(value) => Ok(
                Parse { expr: Ast::Assignment(Box::new(value.expr), name), cursor: value.cursor },
            ),
            Err(e) => Err(e),
        }
    } else {
        Ok(Parse { expr: Ast::Variable(name), cursor: cursor + 1 })
    }
}

/// The call of `name`, with the cursor on the `(` behind the name.
#[verifier::opaque]
pub open spec fn call(tokens: Seq<TokenModel>, cursor: int, name: Seq<char>) -> Parsed
    decreases tokens.len() - cursor, 2nat,
{
    if 0 <= cursor < tokens.len() {
        match arguments(tokens, cursor + 1, Seq::empty()) {
            Ok(list) => Ok(
                Parse { expr: Ast::FunctionCall(name, list.items), cursor: list.cursor },
            ),
            Err(e) => Err(e),
        }
    } else {
        Err(ParseErrorModel::EmptyInput { cursor })
    }
}

/// A parenthesis, with the cursor on `(`.
#[verifier::opaque]
pub open spec fn parenthesis(tokens: Seq<TokenModel>, cursor: int) -> Parsed
    decreases tokens.len() - cursor, 2nat,
{
    if 0 <= cursor < tokens.len() {
        match additive(tokens, cursor + 1) {
            Ok(inner) => match closing(tokens, inner.cursor) {
                Ok(behind) => Ok(Parse { expr: inner.expr, cursor: behind }),
                Err(e) => Err(e),
            },
            Err(e) => Err(e),
        }
    } else {
        Err(ParseErrorModel::EmptyInput { cursor })
    }
}

/// A function declaration; a name, alone, assigned to or called; a block; a
/// `let`; a sign; a parenthesis; a literal.
#[verifier::opaque]
pub open spec fn primary(tokens: Seq<TokenModel>, cursor: int) -> Parsed
    decreases tokens.len() - cursor, 3nat,
{
    if operation_at(tokens, cursor) == Some(Operations::FNDEFINE) {
        definition(tokens, cursor)
    } else if let Some(name) = identifier_at(tokens, cursor) {
        match reference(tokens, cursor, name) {
            Ok(p) if p.expr is Variable && operation_at(tokens, cursor + 1) == Some(
                Operations::LPAREN,
            ) => call(tokens, cursor + 1, name),
            other => other,
        }
    } else {
        match operation_at(tokens, cursor) {
            Some(Operations::LBRACE) => block(tokens, cursor),
            Some(Operations::VARLET) => binding(tokens, cursor),
            Some(Operations::MINUS) => prefixed(tokens, cursor, Operations::MINUS),
            Some(Operations::NOT) => prefixed(tokens, cursor, Operations::NOT),
            Some(Operations::LPAREN) => parenthesis(tokens, cursor),
            _ => if cursor >= tokens.len() {
                Err(ParseErrorModel::EmptyInput { cursor })
            } else {
                match number_at(tokens, cursor) {
                    Some(numeral) => Ok(Parse { expr: Ast::Number(numeral), cursor: cursor + 1 }),
                    None => Err(ParseErrorModel::ExpectedNumber { cursor: cursor + 1 }),
                }
            },
        }
    }
}

/// `{ statement ... }`, with the cursor on `{`.
#[verifier::opaque]
pub open spec fn block(tokens: Seq<TokenModel>, cursor: int) -> Parsed
    decreases tokens.len() - cursor, 2nat,
{
    match expect(tokens, cursor, Operations::LBRACE) {
        Err(e) => Err(e),
        Ok(inside) => block_tail(tokens, inside, Seq::empty()),
    }
}

/// The rest of a block behind the statements `body`: statements up to the
/// closing `}`.
#[verifier::opaque]
pub open spec fn block_tail(tokens: Seq<TokenModel>, cursor: int, body: Seq<Ast>) -> Parsed
    decreases tokens.len() - cursor, 13nat,
{
    if 0 <= cursor < tokens.len() && operation_at(tokens, cursor) != Some(Operations::RBRACE) {
        match statement(tokens, cursor) {
            Ok(next) if ends_after(tokens, cursor, next) => block_tail(
                tokens,
                next.cursor,
                body.push(next.expr),
            ),
            other => other,
        }
    } else {
        match expect(tokens, cursor, Operations::RBRACE) {
            Err(e) => Err(e),
            Ok(behind) => Ok(Parse { expr: Ast::ScopeExp(body), cursor: behind }),
        }
    }
}

/// `let name = value`, with the cursor on `let`.
#[verifier::opaque]
pub open spec fn binding(tokens: Seq<TokenModel>, cursor: int) -> Parsed
    decreases tokens.len() - cursor, 2nat,
{
    if cursor + 1 >= tokens.len() {
        Err(ParseErrorModel::EmptyInput { cursor: cursor + 1 })
    } else {
        match identifier_at(tokens, cursor + 1) {
            None => Err(ParseErrorModel::ExpectedIdentifier { cursor: cursor + 2 }),
            Some(name) => match expect(tokens, cursor + 2, Operations::VARASSIGN) {
                Err(e) => Err(e),
                Ok(behind) => match additive(tokens, behind) {
                    Ok(value) => Ok(
                        Parse {
                            expr: Ast::Assignment(Box::new(value.expr), name),
                            cursor: value.cursor,
                        },
                    ),
                    Err(e) => Err(e),
                },
            },
        }
    }
}

/// The parameter names of a declaration behind the names `names`, up to and
/// with the closing `)`. A comma behind a name is skipped; the end of the
/// tokens ends the list too.
#[verifier::opaque]
pub open spec fn parameters(tokens: Seq<TokenModel>, cursor: int, names: Seq<Seq<char>>) -> Result<
    ParseList<Seq<char>>,
    ParseErrorModel,
>
    decreases tokens.len() - cursor,
{
    if cursor < 0 || cursor >= tokens.len() {
        Ok(ParseList { items: names, cursor })
    } else if operation_at(tokens, cursor) == Some(Operations::RPAREN) {
        Ok(ParseList { items: names, cursor: cursor + 1 })
    } else {
        match identifier_at(tokens, cursor) {
            Some(name) => if operation_at(tokens, cursor + 1) == Some(Operations::COMMA) {
                parameters(tokens, cursor + 2, names.push(name))
            } else {
                parameters(tokens, cursor + 1, names.push(name))
            },
            None => Err(ParseErrorModel::ExpectedParameter { cursor }),
        }
    }
}

/// A parameter list ends at its start or behind it, and inside the tokens.
pub proof fn lemma_parameters_hold(tokens: Seq<TokenModel>, cursor: int, names: Seq<Seq<char>>)
    requires
        0 <= cursor <= tokens.len(),
    ensures
        parameters(tokens, cursor, names) matches Ok(list) ==> cursor <= list.cursor
            <= tokens.len(),
    decreases tokens.len() - cursor,
{
    reveal(parameters);
    if cursor < tokens.len() && operation_at(tokens, cursor) != Some(Operations::RPAREN) {
        if let Some(name) = identifier_at(tokens, cursor) {
            if operation_at(tokens, cursor + 1) == Some(Operations::COMMA) {
                lemma_parameters_hold(tokens, cursor + 2, names.push(name));
            } else {
                lemma_parameters_hold(tokens, cursor + 1, names.push(name));
            }
        }
    }
}

/// `fn name(parameters) { body }`, with the cursor on `fn`.
#[verifier::opaque]
pub open spec fn definition(tokens: Seq<TokenModel>, cursor: int) -> Parsed
    decreases tokens.len() - cursor, 2nat,
{
    if cursor + 1 >= tokens.len() {
        Err(ParseErrorModel::EmptyInput { cursor: cursor + 1 })
    } else {
        match identifier_at(tokens, cursor + 1) {
            None => Err(ParseErrorModel::ExpectedFunctionName { cursor: cursor + 2 }),
            Some(name) => match expect(tokens, cursor + 2, Operations::LPAREN) {
                Err(e) => Err(e),
                Ok(inside) => match parameters(tokens, inside, Seq::empty()) {
                    Err(e) => Err(e),
                    Ok(list) => {
                        proof {
                            lemma_parameters_hold(tokens, inside, Seq::empty());
                        }
                        match block(tokens, list.cursor) {
                            Ok(body) => Ok(
                                Parse {
                                    expr: Ast::Function(name, list.items, Box::new(body.expr)),
                                    cursor: body.cursor,
                                },
                            ),
                            Err(e) => Err(e),
                        }
                    },
                },
            },
        }
    }
}

/// The arguments of a call behind the arguments `list`, up to and with the
/// closing `)`. A comma behind an argument is skipped; the end of the tokens
/// ends the list too.
#[verifier::opaque]
pub open spec fn arguments(tokens: Seq<TokenModel>, cursor: int, list: Seq<Ast>) -> Result<
    ParseList<Ast>,
    ParseErrorModel,
>
    decreases tokens.len() - cursor, 13nat,
{
    if cursor < 0 || cursor >= tokens.len() {
        Ok(ParseList { items: list, cursor })
    } else if operation_at(tokens, cursor) == Some(Operations::RPAREN) {
        Ok(ParseList { items: list, cursor: cursor + 1 })
    } else {
        match additive(tokens, cursor) {
            Err(e) => Err(e),
            Ok(argument) => if ends_after(tokens, cursor, argument) {
                if operation_at(tokens, argument.cursor) == Some(Operations::COMMA) {
                    arguments(tokens, argument.cursor + 1, list.push(argument.expr))
                } else {
                    arguments(tokens, argument.cursor, list.push(argument.expr))
                }
            } else {
                Ok(ParseList { items: list.push(argument.expr), cursor: argument.cursor })
            },
        }
    }
}

} // verus!
