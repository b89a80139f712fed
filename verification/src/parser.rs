//! The parser: tokens to expression trees, by recursive descent.

use vstd::prelude::*;
use crate::ast::{boxed_trees_of, call_node, names_of, scope_node, trees_of, Ast, Expr};
use crate::grammar::{
    additive, additive_tail, arguments, binding, block, block_tail, call, closing, default_base,
    definition, expect, function_level, identifier_at, is_prefix_function, logarithm,
    multiplicative, multiplicative_tail, operation_at, parameters, parenthesis, power, power_tail,
    prefixed, primary, reference, statement, Parse, ParseErrorModel, ParseList, Parsed,
};
use crate::program::{program, program_tail};
use crate::evaluator::{Action, Evaluator};
use crate::machine::Machine;
use crate::text::{decimal, operation_name};
use crate::token::{Numeral, Operations, Token, TokenModel, TokenStream, ValueType};

verus! {

/// Why a token stream could not be parsed. `cursor` is where the parser
/// stood when it gave up.
#[derive(Debug, Clone, Copy, PartialEq, Eq)]
pub enum ParseError {
    /// A token was needed and the stream had ended.
    EmptyInput { cursor: usize },
    /// The token `expected` was needed and another one was read.
    Unexpected { expected: Operations, found: Option<Operations>, cursor: usize },
    /// A `(` without its `)`.
    MissingParenthesis { cursor: usize },
    /// `let` was not followed by a name.
    ExpectedIdentifier { cursor: usize },
    /// `fn` was not followed by a name.
    ExpectedFunctionName { cursor: usize },
    /// A parameter list held something that is not a name.
    ExpectedParameter { cursor: usize },
    /// A value was needed and the token read is none.
    ExpectedNumber { cursor: usize },
}

impl View for ParseError {
    type V = ParseErrorModel;

    open spec fn view(&self) -> ParseErrorModel {
        match self {
            ParseError::EmptyInput { cursor } => ParseErrorModel::EmptyInput {
                cursor: *cursor as int,
            },
            ParseError::Unexpected { expected, found, cursor } => ParseErrorModel::Unexpected {
                expected: *expected,
                found: *found,
                cursor: *cursor as int,
            },
            ParseError::MissingParenthesis { cursor } => ParseErrorModel::MissingParenthesis {
                cursor: *cursor as int,
            },
            ParseError::ExpectedIdentifier { cursor } => ParseErrorModel::ExpectedIdentifier {
                cursor: *cursor as int,
            },
            ParseError::ExpectedFunctionName { cursor } => ParseErrorModel::ExpectedFunctionName {
                cursor: *cursor as int,
            },
            ParseError::ExpectedParameter { cursor } => ParseErrorModel::ExpectedParameter {
                cursor: *cursor as int,
            },
            ParseError::ExpectedNumber { cursor } => ParseErrorModel::ExpectedNumber {
                cursor: *cursor as int,
            },
        }
    }
}

impl ParseError {
    /// Where the parser stood when it gave up.
    pub fn cursor(&self) -> (cursor: usize)
        ensures
            cursor == self@.cursor(),
    {
        match self {
            ParseError::EmptyInput { cursor } => *cursor,
            ParseError::Unexpected { cursor, .. } => *cursor,
            ParseError::MissingParenthesis { cursor } => *cursor,
            ParseError::ExpectedIdentifier { cursor } => *cursor,
            ParseError::ExpectedFunctionName { cursor } => *cursor,
            ParseError::ExpectedParameter { cursor } => *cursor,
            ParseError::ExpectedNumber { cursor } => *cursor,
        }
    }

    /// The error in words: what was wrong, and the cursor behind `@`.
    pub fn message(&self) -> (text: String)
        ensures
            text@ == self@.text(),
    {
        let kind = match self {
            ParseError::EmptyInput { .. } => "Empty input".to_owned(),
            ParseError::Unexpected { expected, found, .. } => {
                let mut kind = "Expected ".to_owned();
                kind.append(operation_name(*expected));
                kind.append(" got ");
                match found {
                    Some(op) => kind.append(operation_name(*op)),
                    None => kind.append("a value"),
                }
                kind
            },
            ParseError::MissingParenthesis { .. } => "Missing ')'".to_owned(),
            ParseError::ExpectedIdentifier { .. } => "Expected identifier after let".to_owned(),
            ParseError::ExpectedFunctionName { .. } => "Expected function name".to_owned(),
            ParseError::ExpectedParameter { .. } => "Expected alphanumeric parameter".to_owned(),
            ParseError::ExpectedNumber { .. } => "Expected number".to_owned(),
        };
        let mut text = kind;
        text.append(" @ ");
        text.append(decimal(self.cursor()).as_str());
        text
    }
}

/// A sequence of statements, in source order.
pub type ExprStream = Vec<Expr>;

/// A cursor over a token stream, and the evaluator for the trees that are
/// read from it.
pub struct Parser {
    tokens: TokenStream,
    cursor: usize,
    line: usize,
    evaluator: Evaluator,
}

impl Parser {
    /// The tokens that are parsed.
    pub closed spec fn tokens(&self) -> Seq<TokenModel> {
        self.tokens.deep_view()
    }

    /// The number of tokens consumed.
    pub closed spec fn cursor(&self) -> int {
        self.cursor as int
    }

    /// The line of the last token consumed; 1 before the first.
    pub closed spec fn line(&self) -> nat {
        self.line as nat
    }

    /// The state of the evaluator.
    pub closed spec fn machine(&self) -> Machine {
        self.evaluator@
    }

    /// The cursor lies inside the tokens or at their end, the line is that
    /// of the last token consumed, and the evaluator is well formed.
    pub closed spec fn wf(&self) -> bool {
        &&& self.evaluator.wf()
        &&& self.cursor <= self.tokens.len()
        &&& self.line == if self.cursor == 0 {
            1
        } else {
            self.tokens[self.cursor - 1].line_number
        }
    }

    /// How a parsing step that began at `before` and gave `r` agrees with
    /// what the grammar reads there: the tokens and the evaluator are the
    /// same; on success the
    /// tree is the grammar's and the cursor stands behind it, past where it
    /// stood; on failure the error is the grammar's and the cursor stands
    /// where the error says.
    pub open spec fn agrees(
        &self,
        before: &Parser,
        r: Result<Expr, ParseError>,
        expected: Parsed,
    ) -> bool {
        &&& self.wf()
        &&& self.tokens() == before.tokens()
        &&& self.machine() == before.machine()
        &&& match r {
            Ok(expr) => {
                &&& expected == Ok::<Parse, ParseErrorModel>(
                    Parse { expr: expr@, cursor: self.cursor() },
                )
                &&& before.cursor() < self.cursor()
            },
            Err(e) => {
                &&& expected == Err::<Parse, ParseErrorModel>(e@)
                &&& self.cursor() == e@.cursor()
            },
        }
    }

    /// A parser at the start of `inp_tokens`.
    pub fn new(inp_tokens: TokenStream) -> (parser: Self)
        ensures
            parser.wf(),
            parser.tokens() == inp_tokens.deep_view(),
            parser.cursor() == 0,
            parser.line() == 1,
            parser.machine() == Machine::initial(),
    {
        Self { tokens: inp_tokens, cursor: 0, line: 1, evaluator: Evaluator::new() }
    }

    /// The number of tokens consumed.
    pub fn position(&self) -> (cursor: usize)
        ensures
            cursor == self.cursor(),
    {
        self.cursor
    }

    /// The line of the last token consumed; 1 before the first.
    pub fn current_line(&self) -> (line: usize)
        ensures
            line == self.line(),
    {
        self.line
    }

    /// The next token, without consuming it.
    fn peek(&self) -> (r: Option<&Token>)
        requires
            self.wf(),
        ensures
            match r {
                Some(token) => self.cursor() < self.tokens().len() && token@
                    == self.tokens()[self.cursor()],
                None => self.cursor() >= self.tokens().len(),
            },
    {
        if self.cursor < self.tokens.len() {
            Some(&self.tokens[self.cursor])
        } else {
            None
        }
    }

    /// The operator of the next token, if there is a token and it has one.
    fn peek_operation(&self) -> (r: Option<Operations>)
        requires
            self.wf(),
        ensures
            r == operation_at(self.tokens(), self.cursor()),
    {
        match self.peek() {
            Some(token) => token.operation,
            None => None,
        }
    }

    /// Whether the next token is the operator `op`.
    fn next_is(&self, op: Operations) -> (r: bool)
        requires
            self.wf(),
        ensures
            r == (operation_at(self.tokens(), self.cursor()) == Some(op)),
    {
        match self.peek_operation() {
            Some(found) => found == op,
            None => false,
        }
    }

    /// The name that the next token holds, if there is a token and it holds
    /// one.
    fn peek_identifier(&self) -> (r: Option<String>)
        requires
            self.wf(),
        ensures
            match r {
                Some(name) => identifier_at(self.tokens(), self.cursor()) == Some(name@),
                None => identifier_at(self.tokens(), self.cursor()) is None,
            },
    {
        match self.peek() {
            Some(token) => match &token.value {
                Some(ValueType::Identifier(name)) => Some(name.clone()),
                _ => None,
            },
            None => None,
        }
    }

    /// Consumes the next token.
    fn advance(&mut self) -> (r: Result<Token, ParseError>)
        requires
            old(self).wf(),
        ensures
            final(self).wf(),
            final(self).tokens() == old(self).tokens(),
            final(self).machine() == old(self).machine(),
            match r {
                Ok(token) => {
                    &&& old(self).cursor() < old(self).tokens().len()
                    &&& token@ == old(self).tokens()[old(self).cursor()]
                    &&& final(self).cursor() == old(self).cursor() + 1
                },
                Err(e) => {
                    &&& old(self).cursor() >= old(self).tokens().len()
                    &&& e@ == ParseErrorModel::EmptyInput { cursor: old(self).cursor() }
                    &&& final(self).cursor() == old(self).cursor()
                },
            },
    {
        if self.cursor >= self.tokens.len() {
            return Err(ParseError::EmptyInput { cursor: self.cursor });
        }
        let token = self.tokens[self.cursor].clone();
        self.cursor += 1;
        self.line = token.line_number;
        Ok(token)
    }

    /// Consumes the next token, which has to be the operator `op`.
    fn expect(&mut self, op: Operations) -> (r: Result<Token, ParseError>)
        requires
            old(self).wf(),
        ensures
            final(self).wf(),
            final(self).tokens() == old(self).tokens(),
            final(self).machine() == old(self).machine(),
            match r {
                Ok(token) => {
                    &&& expect(old(self).tokens(), old(self).cursor(), op) == Ok::<
                        int,
                        ParseErrorModel,
                    >(final(self).cursor())
                    &&& token@ == old(self).tokens()[old(self).cursor()]
                    &&& final(self).cursor() == old(self).cursor() + 1
                },
                Err(e) => {
                    &&& expect(old(self).tokens(), old(self).cursor(), op) == Err::<
                        int,
                        ParseErrorModel,
                    >(e@)
                    &&& final(self).cursor() == e@.cursor()
                },
            },
    {
        let tok = self.advance()?;
        match tok.operation {
            Some(found) if found == op => Ok(tok),
            found => Err(ParseError::Unexpected { expected: op, found, cursor: self.cursor }),
        }
    }

    /// Consumes the `)` that closes a parenthesis.
    fn expect_closing(&mut self) -> (r: Result<(), ParseError>)
        requires
            old(self).wf(),
        ensures
            final(self).wf(),
            final(self).tokens() == old(self).tokens(),
            final(self).machine() == old(self).machine(),
            match r {
                Ok(_) => {
                    &&& closing(old(self).tokens(), old(self).cursor()) == Ok::<
                        int,
                        ParseErrorModel,
                    >(final(self).cursor())
                    &&& final(self).cursor() == old(self).cursor() + 1
                },
                Err(e) => {
                    &&& closing(old(self).tokens(), old(self).cursor()) == Err::<
                        int,
                        ParseErrorModel,
                    >(e@)
                    &&& final(self).cursor() == e@.cursor()
                },
            },
    {
        match self.expect(Operations::RPAREN) {
            Ok(_) => Ok(()),
            Err(_) => Err(ParseError::MissingParenthesis { cursor: self.cursor }),
        }
    }
}

/// The call of `name` whose arguments `list` have been read, with the
/// cursor behind them.
pub open spec fn call_from(tokens: Seq<TokenModel>, cursor: int, name: Seq<char>, list: Seq<Ast>) -> Parsed {
    match arguments(tokens, cursor, list) {
        Ok(l) => Ok(Parse { expr: Ast::FunctionCall(name, l.items), cursor: l.cursor }),
        Err(e) => Err(e),
    }
}

/// Whether `op` is a named function of one argument, or the factorial mark.
pub fn prefix_function(op: Operations) -> (r: bool)
    ensures
        r == is_prefix_function(op),
{
    match op {
        Operations::FNCOS
        | Operations::FNSIN
        | Operations::FNTAN
        | Operations::FNABS
        | Operations::FNSQRT
        | Operations::FNEXP
        | Operations::FNASIN
        | Operations::FNACOS
        | Operations::FNATAN
        | Operations::FNSINH
        | Operations::FNCOSH
        | Operations::FNTANH
        | Operations::FNFLOOR
        | Operations::FNCEIL
        | Operations::FNROUND
        | Operations::FNFACT => true,
        _ => false,
    }
}

impl Parser {
    /// Parses every statement from the cursor to the end of the tokens.
    pub fn parse_lines(&mut self) -> (r: Result<Vec<Expr>, ParseError>)
        requires
            old(self).wf(),
        ensures
            final(self).wf(),
            final(self).tokens() == old(self).tokens(),
            final(self).machine() == old(self).machine(),
            match r {
                Ok(exprs) => {
                    &&& program_tail(old(self).tokens(), old(self).cursor(), Seq::empty()) == Ok::<
                        Seq<Ast>,
                        ParseErrorModel,
                    >(trees_of(exprs@))
                    &&& final(self).cursor() == old(self).tokens().len()
                },
                Err(e) => {
                    &&& program_tail(old(self).tokens(), old(self).cursor(), Seq::empty()) == Err::<
                        Seq<Ast>,
                        ParseErrorModel,
                    >(e@)
                    &&& final(self).cursor() == e@.cursor()
                },
            },
    {
        proof {
            reveal(program_tail);
        }
        let ghost tokens = self.tokens();
        let ghost start = self.cursor();
        let mut ret: Vec<Expr> = Vec::new();
        assert(trees_of(ret@) =~= Seq::<Ast>::empty());
        while self.cursor < self.tokens.len()
            invariant
                self.wf(),
                self.tokens() == tokens,
                self.machine() == old(self).machine(),
                tokens == old(self).tokens(),
                start == old(self).cursor(),
                program_tail(tokens, start, Seq::empty()) == program_tail(
                    tokens,
                    self.cursor(),
                    trees_of(ret@),
                ),
            decreases tokens.len() - self.cursor(),
        {
            proof {
                reveal(program_tail);
                reveal(statement);
            }
            let ghost read = trees_of(ret@);
            let next = self.parse_tokens()?;
            ret.push(next);
            assert(trees_of(ret@) =~= read.push(next@));
        }
        Ok(ret)
    }

    /// Parses one statement.
    pub fn parse_tokens(&mut self) -> (r: Result<Expr, ParseError>)
        requires
            old(self).wf(),
        ensures
            final(self).agrees(old(self), r, statement(old(self).tokens(), old(self).cursor())),
        decreases old(self).tokens().len() - old(self).cursor(), 12nat,
    {
        proof {
            reveal(statement);
            reveal(additive);
        }
        self.parse_addition_and_subtraction()
    }

    /// Parses a sum.
    fn parse_addition_and_subtraction(&mut self) -> (r: Result<Expr, ParseError>)
        requires
            old(self).wf(),
        ensures
            final(self).agrees(old(self), r, additive(old(self).tokens(), old(self).cursor())),
        decreases old(self).tokens().len() - old(self).cursor(), 11nat,
    {
        proof {
            reveal(additive);
            reveal(additive_tail);
            reveal(multiplicative);
        }
        let ghost tokens = self.tokens();
        let ghost start = self.cursor();
        let mut left = self.parse_multiplication_and_division()?;
        loop
            invariant
                self.wf(),
                self.tokens() == tokens,
                self.machine() == old(self).machine(),
                tokens == old(self).tokens(),
                start == old(self).cursor(),
                start < self.cursor() <= tokens.len(),
                additive(tokens, start) == additive_tail(tokens, self.cursor(), left@),
            decreases tokens.len() - self.cursor(),
        {
            proof {
                reveal(additive_tail);
                reveal(multiplicative);
            }
            let op = match self.peek_operation() {
                Some(Operations::ADD) => Operations::ADD,
                Some(Operations::MINUS) => Operations::MINUS,
                _ => {
                    return Ok(left);
                },
            };
            self.advance()?;
            let right = self.parse_multiplication_and_division()?;
            left = Expr::BinaryOp(Box::new(left), op, Box::new(right));
        }
    }

    /// Parses a product.
    fn parse_multiplication_and_division(&mut self) -> (r: Result<Expr, ParseError>)
        requires
            old(self).wf(),
        ensures
            final(self).agrees(
                old(self),
                r,
                multiplicative(old(self).tokens(), old(self).cursor()),
            ),
        decreases old(self).tokens().len() - old(self).cursor(), 9nat,
    {
        proof {
            reveal(multiplicative);
            reveal(multiplicative_tail);
            reveal(power);
        }
        let ghost tokens = self.tokens();
        let ghost start = self.cursor();
        let mut left = self.parse_power()?;
        loop
            invariant
                self.wf(),
                self.tokens() == tokens,
                self.machine() == old(self).machine(),
                tokens == old(self).tokens(),
                start == old(self).cursor(),
                start < self.cursor() <= tokens.len(),
                multiplicative(tokens, start) == multiplicative_tail(
                    tokens,
                    self.cursor(),
                    left@,
                ),
            decreases tokens.len() - self.cursor(),
        {
            proof {
                reveal(multiplicative_tail);
                reveal(power);
            }
            let op = match self.peek_operation() {
                Some(Operations::MULTIPLY) => Operations::MULTIPLY,
                Some(Operations::DIVIDE) => Operations::DIVIDE,
                _ => {
                    return Ok(left);
                },
            };
            self.advance()?;
            let right = self.parse_power()?;
            left = Expr::BinaryOp(Box::new(left), op, Box::new(right));
        }
    }

    /// Parses a power.
    fn parse_power(&mut self) -> (r: Result<Expr, ParseError>)
        requires
            old(self).wf(),
        ensures
            final(self).agrees(old(self), r, power(old(self).tokens(), old(self).cursor())),
        decreases old(self).tokens().len() - old(self).cursor(), 7nat,
    {
        proof {
            reveal(power);
            reveal(power_tail);
            reveal(function_level);
        }
        let ghost tokens = self.tokens();
        let ghost start = self.cursor();
        let mut left = self.parse_fn()?;
        loop
            invariant
                self.wf(),
                self.tokens() == tokens,
                self.machine() == old(self).machine(),
                tokens == old(self).tokens(),
                start == old(self).cursor(),
                start < self.cursor() <= tokens.len(),
                power(tokens, start) == power_tail(tokens, self.cursor(), left@),
            decreases tokens.len() - self.cursor(),
        {
            proof {
                reveal(power_tail);
                reveal(function_level);
            }
            if !self.next_is(Operations::POWER) {
                return Ok(left);
            }
            self.advance()?;
            let right = self.parse_fn()?;
            left = Expr::BinaryOp(Box::new(left), Operations::POWER, Box::new(right));
        }
    }

    /// Parses a named function with its argument, a logarithm, or a primary
    /// with an optional modulo and an optional factorial behind it.
    fn parse_fn(&mut self) -> (r: Result<Expr, ParseError>)
        requires
            old(self).wf(),
        ensures
            final(self).agrees(
                old(self),
                r,
                function_level(old(self).tokens(), old(self).cursor()),
            ),
        decreases old(self).tokens().len() - old(self).cursor(), 5nat,
    {
        proof {
            reveal(function_level);
            reveal(prefixed);
            reveal(logarithm);
            reveal(primary);
        }
        match self.peek_operation() {
            Some(op) => {
                if prefix_function(op) {
                    return self.parse_unary(op);
                }
                if op == Operations::FNLOG {
                    return self.parse_logarithm();
                }
            },
            None => {},
        }
        let mut expr = self.parse_primary()?;
        if self.next_is(Operations::FNMOD) {
            self.advance()?;
            let right_expr = self.parse_primary()?;
            let ghost left = expr@;
            let ghost right = right_expr@;
            expr = Expr::BinaryOp(Box::new(expr), Operations::FNMOD, Box::new(right_expr));
            assert(expr@ == Ast::BinaryOp(Box::new(left), Operations::FNMOD, Box::new(right)));
        }
        if self.next_is(Operations::FNFACT) {
            self.advance()?;
            expr = Expr::UnaryOp(Box::new(expr), Operations::FNFACT);
        }
        Ok(expr)
    }

    /// Parses `log(a)` or `log(a, b)`, with the cursor on `log`.
    fn parse_logarithm(&mut self) -> (r: Result<Expr, ParseError>)
        requires
            old(self).wf(),
            old(self).cursor() < old(self).tokens().len(),
        ensures
            final(self).agrees(old(self), r, logarithm(old(self).tokens(), old(self).cursor())),
        decreases old(self).tokens().len() - old(self).cursor(), 4nat,
    {
        proof {
            reveal(logarithm);
            reveal(additive);
        }
        self.advance()?;
        self.expect(Operations::LPAREN)?;
        let argument = self.parse_addition_and_subtraction()?;
        let base = if self.next_is(Operations::COMMA) {
            self.advance()?;
            self.parse_addition_and_subtraction()?
        } else {
            let ten = Expr::Number(Numeral::Decimal("10".to_owned()));
            assert(ten@ == default_base());
            ten
        };
        self.expect_closing()?;
        Ok(Expr::BinaryOp(Box::new(argument), Operations::FNLOG, Box::new(base)))
    }

    /// Parses the operator `op`, which is the next token, and the primary
    /// that it applies to.
    fn parse_unary(&mut self, op: Operations) -> (r: Result<Expr, ParseError>)
        requires
            old(self).wf(),
        ensures
            final(self).agrees(old(self), r, prefixed(old(self).tokens(), old(self).cursor(), op)),
        decreases old(self).tokens().len() - old(self).cursor(), 2nat,
    {
        proof {
            reveal(prefixed);
            reveal(primary);
        }
        self.advance()?;
        let parsed_exp = self.parse_primary()?;
        Ok(Expr::UnaryOp(Box::new(parsed_exp), op))
    }

    /// Parses a name that is assigned to or read, if the next token is a
    /// name.
    fn parse_get_or_set(&mut self) -> (r: Result<Option<Expr>, ParseError>)
        requires
            old(self).wf(),
        ensures
            match identifier_at(old(self).tokens(), old(self).cursor()) {
                None => r == Ok::<Option<Expr>, ParseError>(None) && *final(self) == *old(self),
                Some(name) => match r {
                    Ok(None) => false,
                    Ok(Some(expr)) => final(self).agrees(
                        old(self),
                        Ok(expr),
                        reference(old(self).tokens(), old(self).cursor(), name),
                    ),
                    Err(e) => final(self).agrees(
                        old(self),
                        Err(e),
                        reference(old(self).tokens(), old(self).cursor(), name),
                    ),
                },
            },
        decreases old(self).tokens().len() - old(self).cursor(), 2nat,
    {
        proof {
            reveal(reference);
            reveal(additive);
        }
        match self.peek_identifier() {
            None => Ok(None),
            Some(id) => {
                self.advance()?;
                if self.next_is(Operations::VARASSIGN) {
                    self.advance()?;
                    let expr = self.parse_addition_and_subtraction()?;
                    Ok(Some(Expr::Assignment(Box::new(expr), id)))
                } else {
                    Ok(Some(Expr::Variable(id)))
                }
            },
        }
    }

    /// Parses `{ statement ... }`.
    fn parse_scope(&mut self) -> (r: Result<Expr, ParseError>)
        requires
            old(self).wf(),
        ensures
            final(self).agrees(old(self), r, block(old(self).tokens(), old(self).cursor())),
        decreases old(self).tokens().len() - old(self).cursor(), 2nat,
    {
        proof {
            reveal(block);
            reveal(block_tail);
            reveal(statement);
        }
        let ghost tokens = self.tokens();
        let ghost start = self.cursor();
        self.expect(Operations::LBRACE)?;
        let mut exprs: Vec<Expr> = Vec::new();
        assert(trees_of(exprs@) =~= Seq::<Ast>::empty());
        loop
            invariant
                self.wf(),
                self.tokens() == tokens,
                self.machine() == old(self).machine(),
                tokens == old(self).tokens(),
                start == old(self).cursor(),
                start < self.cursor() <= tokens.len(),
                block(tokens, start) == block_tail(tokens, self.cursor(), trees_of(exprs@)),
            decreases tokens.len() - self.cursor(),
        {
            proof {
                reveal(block_tail);
                reveal(statement);
            }
            if self.cursor < self.tokens.len() && !self.next_is(Operations::RBRACE) {
                let ghost body = trees_of(exprs@);
                let next = self.parse_tokens()?;
                exprs.push(next);
                assert(trees_of(exprs@) =~= body.push(next@));
            } else {
                self.expect(Operations::RBRACE)?;
                return Ok(scope_node(exprs));
            }
        }
    }

    /// Parses `let name = value`, with the cursor on `let`.
    fn parse_assignment(&mut self) -> (r: Result<Expr, ParseError>)
        requires
            old(self).wf(),
            old(self).cursor() < old(self).tokens().len(),
        ensures
            final(self).agrees(old(self), r, binding(old(self).tokens(), old(self).cursor())),
        decreases old(self).tokens().len() - old(self).cursor(), 2nat,
    {
        proof {
            reveal(binding);
            reveal(additive);
        }
        self.advance()?;
        let identifier = match self.advance()?.value {
            Some(ValueType::Identifier(id)) => id,
            _ => {
                return Err(ParseError::ExpectedIdentifier { cursor: self.cursor });
            },
        };
        self.expect(Operations::VARASSIGN)?;
        let expr = self.parse_addition_and_subtraction()?;
        Ok(Expr::Assignment(Box::new(expr), identifier))
    }

    /// Parses the parameter names of a declaration, up to and with the
    /// closing `)`.
    fn parse_parameters(&mut self) -> (r: Result<Vec<String>, ParseError>)
        requires
            old(self).wf(),
        ensures
            final(self).wf(),
            final(self).tokens() == old(self).tokens(),
            final(self).machine() == old(self).machine(),
            old(self).cursor() <= final(self).cursor(),
            match r {
                Ok(names) => parameters(old(self).tokens(), old(self).cursor(), Seq::empty())
                    == Ok::<ParseList<Seq<char>>, ParseErrorModel>(
                    ParseList { items: names_of(names@), cursor: final(self).cursor() },
                ),
                Err(e) => {
                    &&& parameters(old(self).tokens(), old(self).cursor(), Seq::empty()) == Err::<
                        ParseList<Seq<char>>,
                        ParseErrorModel,
                    >(e@)
                    &&& final(self).cursor() == e@.cursor()
                },
            },
    {
        proof {
            reveal(parameters);
        }
        let ghost tokens = self.tokens();
        let ghost start = self.cursor();
        let mut param_vec: Vec<String> = Vec::new();
        assert(names_of(param_vec@) =~= Seq::<Seq<char>>::empty());
        while self.cursor < self.tokens.len()
            invariant
                self.wf(),
                self.tokens() == tokens,
                self.machine() == old(self).machine(),
                tokens == old(self).tokens(),
                start == old(self).cursor(),
                start <= self.cursor() <= tokens.len(),
                parameters(tokens, start, Seq::empty()) == parameters(
                    tokens,
                    self.cursor(),
                    names_of(param_vec@),
                ),
            decreases tokens.len() - self.cursor(),
        {
            proof {
                reveal(parameters);
            }
            if self.next_is(Operations::RPAREN) {
                self.advance()?;
                return Ok(param_vec);
            }
            match self.peek_identifier() {
                Some(param) => {
                    let ghost names = names_of(param_vec@);
                    param_vec.push(param);
                    assert(names_of(param_vec@) =~= names.push(param@));
                    self.advance()?;
                    if self.next_is(Operations::COMMA) {
                        self.advance()?;
                    }
                },
                None => {
                    return Err(ParseError::ExpectedParameter { cursor: self.cursor });
                },
            }
        }
        Ok(param_vec)
    }

    /// Parses `fn name(parameters) { body }`, with the cursor on `fn`.
    fn parse_custom_function(&mut self) -> (r: Result<Expr, ParseError>)
        requires
            old(self).wf(),
            old(self).cursor() < old(self).tokens().len(),
        ensures
            final(self).agrees(old(self), r, definition(old(self).tokens(), old(self).cursor())),
        decreases old(self).tokens().len() - old(self).cursor(), 2nat,
    {
        proof {
            reveal(definition);
            reveal(block);
        }
        self.advance()?;
        let fn_name = match self.advance()?.value {
            Some(ValueType::Identifier(id)) => id,
            _ => {
                return Err(ParseError::ExpectedFunctionName { cursor: self.cursor });
            },
        };
        self.expect(Operations::LPAREN)?;
        let param_vec = self.parse_parameters()?;
        let fn_body = self.parse_scope()?;
        Ok(Expr::Function(fn_name, param_vec, Box::new(fn_body)))
    }

    /// Parses the call of `id`, with the cursor on the `(` behind the name.
    fn parse_custom_function_call(&mut self, id: String) -> (r: Result<Expr, ParseError>)
        requires
            old(self).wf(),
            old(self).cursor() < old(self).tokens().len(),
        ensures
            final(self).agrees(old(self), r, call(old(self).tokens(), old(self).cursor(), id@)),
        decreases old(self).tokens().len() - old(self).cursor(), 2nat,
    {
        proof {
            reveal(call);
            reveal(arguments);
            reveal(additive);
        }
        let ghost tokens = self.tokens();
        let ghost start = self.cursor();
        self.advance()?;
        let mut param_vec: Vec<Box<Expr>> = Vec::new();
        assert(boxed_trees_of(param_vec@) =~= Seq::<Ast>::empty());
        loop
            invariant
                self.wf(),
                self.tokens() == tokens,
                self.machine() == old(self).machine(),
                tokens == old(self).tokens(),
                start == old(self).cursor(),
                start < self.cursor() <= tokens.len(),
                call(tokens, start, id@) == call_from(
                    tokens,
                    self.cursor(),
                    id@,
                    boxed_trees_of(param_vec@),
                ),
            decreases tokens.len() - self.cursor(),
        {
            proof {
                reveal(call);
                reveal(arguments);
                reveal(additive);
            }
            if self.cursor >= self.tokens.len() {
                return Ok(call_node(id, param_vec));
            }
            if self.next_is(Operations::RPAREN) {
                self.advance()?;
                return Ok(call_node(id, param_vec));
            }
            let ghost list = boxed_trees_of(param_vec@);
            let argument = self.parse_addition_and_subtraction()?;
            param_vec.push(Box::new(argument));
            assert(boxed_trees_of(param_vec@) =~= list.push(argument@));
            if self.next_is(Operations::COMMA) {
                self.advance()?;
            }
        }
    }

    /// Parses a primary.
    fn parse_primary(&mut self) -> (r: Result<Expr, ParseError>)
        requires
            old(self).wf(),
        ensures
            final(self).agrees(old(self), r, primary(old(self).tokens(), old(self).cursor())),
        decreases old(self).tokens().len() - old(self).cursor(), 3nat,
    {
        proof {
            reveal(primary);
            reveal(definition);
            reveal(reference);
            reveal(call);
            reveal(block);
            reveal(binding);
            reveal(prefixed);
            reveal(parenthesis);
            reveal(additive);
        }
        if self.next_is(Operations::FNDEFINE) {
            return self.parse_custom_function();
        }
        match self.parse_get_or_set()? {
            Some(expr) => {
                let callee = match &expr {
                    Expr::Variable(fn_name) => Some(fn_name.clone()),
                    _ => None,
                };
                match callee {
                    Some(fn_name) => {
                        if self.next_is(Operations::LPAREN) {
                            return self.parse_custom_function_call(fn_name);
                        }
                    },
                    None => {},
                }
                return Ok(expr);
            },
            None => {},
        }
        match self.peek_operation() {
            Some(Operations::LBRACE) => {
                return self.parse_scope();
            },
            Some(Operations::VARLET) => {
                return self.parse_assignment();
            },
            Some(Operations::MINUS) => {
                return self.parse_unary(Operations::MINUS);
            },
            Some(Operations::NOT) => {
                return self.parse_unary(Operations::NOT);
            },
            Some(Operations::LPAREN) => {
                self.advance()?;
                let parsed_exp = self.parse_addition_and_subtraction()?;
                self.expect_closing()?;
                return Ok(parsed_exp);
            },
            _ => {},
        }
        let curr_token = self.advance()?;
        match curr_token.value {
            Some(ValueType::Number(val)) => Ok(Expr::Number(val)),
            _ => Err(ParseError::ExpectedNumber { cursor: self.cursor }),
        }
    }
}

impl Parser {
    /// Sets the evaluator to evaluate the statements `exprs`, in order.
    /// Whatever it was doing is dropped and every scope but the outermost is
    /// left; the bindings of the outermost scope and the functions stay.
    pub fn evaluate(&mut self, exprs: &[Expr])
        requires
            old(self).wf(),
        ensures
            final(self).wf(),
            final(self).tokens() == old(self).tokens(),
            final(self).cursor() == old(self).cursor(),
            final(self).machine() == old(self).machine().load(trees_of(exprs@)),
    {
        self.evaluator.evaluate(exprs)
    }

    /// Takes one reduction of the node `expr`, in place of whatever the
    /// evaluator was about to do.
    pub fn eval(&mut self, expr: &Expr) -> (action: Action)
        requires
            old(self).wf(),
        ensures
            final(self).wf(),
            final(self).tokens() == old(self).tokens(),
            final(self).cursor() == old(self).cursor(),
            final(self).machine() == old(self).machine().reduce(expr@).0,
            action@ == old(self).machine().reduce(expr@).1,
    {
        self.evaluator.eval(expr)
    }

    /// Takes one step of the evaluation. `reply` is the result of the
    /// request that the step before made, if it made one.
    pub fn step(&mut self, reply: Option<u64>) -> (action: Action)
        requires
            old(self).wf(),
        ensures
            final(self).wf(),
            final(self).tokens() == old(self).tokens(),
            final(self).cursor() == old(self).cursor(),
            final(self).machine() == old(self).machine().step(reply).0,
            action@ == old(self).machine().step(reply).1,
    {
        self.evaluator.step(reply)
    }
}

/// Parses every statement of `tokens`.
pub fn parse(tokens: TokenStream) -> (r: Result<ExprStream, ParseError>)
    ensures
        match r {
            Ok(exprs) => program(tokens.deep_view()) == Ok::<Seq<Ast>, ParseErrorModel>(
                trees_of(exprs@),
            ),
            Err(e) => program(tokens.deep_view()) == Err::<Seq<Ast>, ParseErrorModel>(e@),
        },
{
    let mut parser = Parser::new(tokens);
    parser.parse_lines()
}

} // verus!
