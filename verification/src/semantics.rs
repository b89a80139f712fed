//! What an expression is worth: the meaning of the language, stated over
//! whole trees.
//!
//! Arithmetic is a parameter: a function from requests to values, which
//! stands for whoever answers the evaluator. A function may call itself
//! without end, so the meaning is stated up to a depth of calls; a tree
//! whose worth is not reached within that depth is unfinished.

use vstd::prelude::*;
use crate::ast::Ast;
use crate::machine::{
    bind, bind_all, enter, is_binary, is_unary, is_zero, leave, lookup, EvalErrorModel,
    FunctionModel, RequestModel, ZERO,
};
use crate::token::Operations;

verus! {

/// Arithmetic: the result of every request.
pub type Arithmetic = spec_fn(RequestModel) -> u64;

/// What evaluation reads and changes: the scopes, innermost last, and the
/// functions declared.
#[verifier::ext_equal]
pub struct Store {
    pub scopes: Seq<Map<Seq<char>, u64>>,
    pub functions: Map<Seq<char>, FunctionModel>,
}

/// How the evaluation of a tree ends.
pub enum Outcome {
    /// With a value, and the store as the evaluation leaves it.
    Value(u64, Store),
    /// With a failure.
    Failure(EvalErrorModel),
    /// Not within the depth of calls that was allowed.
    Unfinished,
}

/// How the evaluation of a list of arguments ends.
pub enum Outcomes {
    /// With the values of the arguments, in order, and the store as the
    /// evaluation leaves it.
    Values(Seq<u64>, Store),
    /// With a failure.
    Failure(EvalErrorModel),
    /// Not within the depth of calls that was allowed.
    Unfinished,
}

/// The worth of `expr` in `store`, with calls nested at most `depth` deep.
///
/// - A literal is worth what arithmetic makes of it.
/// - A name is worth the value of its innermost binding; without one it
///   fails.
/// - An operator evaluates its operands, the left one first, and is worth
///   what arithmetic makes of their values. A division by a zero fails. An
///   operator that the evaluator does not know is worth zero.
/// - An assignment evaluates its value, binds the name in the innermost
///   scope and is worth zero.
/// - A block evaluates its statements in a scope of its own and is worth
///   the value of the last one; an empty block is worth zero.
/// - A declaration enters the function in the table and is worth zero.
/// - A call of an unknown function fails, and so does one with the wrong
///   number of arguments. Otherwise the arguments are evaluated in order in
///   the caller's scopes, and the call is worth the body of the function as
///   it was declared when the call began, evaluated in a new scope that
///   binds the parameters, on top of the caller's scopes.
pub open spec fn value_of(expr: Ast, store: Store, arithmetic: Arithmetic, depth: nat) -> Outcome
    decreases depth, expr,
{
    match expr {
        Ast::Number(numeral) => Outcome::Value(arithmetic(RequestModel::Literal(numeral)), store),
        Ast::Variable(name) => match lookup(store.scopes, name) {
            Some(value) => Outcome::Value(value, store),
            None => Outcome::Failure(EvalErrorModel::UndeclaredVariable(name)),
        },
        Ast::BinaryOp(left, op, right) => match value_of(*left, store, arithmetic, depth) {
            Outcome::Value(a, after_left) => match value_of(
                *right,
                after_left,
                arithmetic,
                depth,
            ) {
                Outcome::Value(b, after_right) => if !is_binary(op) {
                    Outcome::Value(ZERO, after_right)
                } else if op == Operations::DIVIDE && is_zero(b) {
                    Outcome::Failure(EvalErrorModel::DivisionByZero)
                } else {
                    Outcome::Value(arithmetic(RequestModel::Binary(op, a, b)), after_right)
                },
                other => other,
            },
            other => other,
        },
        Ast::UnaryOp(operand, op) => match value_of(*operand, store, arithmetic, depth) {
            Outcome::Value(a, after) => if is_unary(op) {
                Outcome::Value(arithmetic(RequestModel::Unary(op, a)), after)
            } else {
                Outcome::Value(ZERO, after)
            },
            other => other,
        },
        Ast::Assignment(value, name) => match value_of(*value, store, arithmetic, depth) {
            Outcome::Value(a, after) => Outcome::Value(
                ZERO,
                Store { scopes: bind(after.scopes, name, a), ..after },
            ),
            other => other,
        },
        Ast::ScopeExp(body) => if body.len() == 0 {
            Outcome::Value(ZERO, store)
        } else {
            match block_value(
                body,
                Store { scopes: enter(store.scopes), ..store },
                arithmetic,
                depth,
            ) {
                Outcome::Value(last, after) => Outcome::Value(
                    last,
                    Store { scopes: leave(after.scopes), ..after },
                ),
                other => other,
            }
        },
        Ast::Function(name, params, body) => Outcome::Value(
            ZERO,
            Store {
                functions: store.functions.insert(name, FunctionModel { params, body: *body }),
                ..store
            },
        ),
        Ast::FunctionCall(name, args) => if !store.functions.contains_key(name) {
            Outcome::Failure(EvalErrorModel::UndefinedFunction(name))
        } else {
            let function = store.functions[name];
            if function.params.len() != args.len() {
                Outcome::Failure(
                    EvalErrorModel::ArityMismatch {
                        name,
                        expected: function.params.len(),
                        found: args.len(),
                    },
                )
            } else {
                match argument_values(args, Seq::empty(), store, arithmetic, depth) {
                    Outcomes::Values(values, after) => if depth == 0 {
                        Outcome::Unfinished
                    } else {
                        match value_of(
                            function.body,
                            Store {
                                scopes: after.scopes.push(bind_all(function.params, values)),
                                ..after
                            },
                            arithmetic,
                            (depth - 1) as nat,
                        ) {
                            Outcome::Value(result, behind) => Outcome::Value(
                                result,
                                Store { scopes: leave(behind.scopes), ..behind },
                            ),
                            other => other,
                        }
                    },
                    Outcomes::Failure(error) => Outcome::Failure(error),
                    Outcomes::Unfinished => Outcome::Unfinished,
                }
            }
        },
    }
}

/// The worth of the statements `body`, of which there is at least one,
/// evaluated in order in `store`: the value of the last one.
pub open spec fn block_value(
    body: Seq<Ast>,
    store: Store,
    arithmetic: Arithmetic,
    depth: nat,
) -> Outcome
    decreases depth, body,
{
    if body.len() == 0 {
        Outcome::Value(ZERO, store)
    } else {
        match value_of(body[0], store, arithmetic, depth) {
            Outcome::Value(value, after) => if body.len() == 1 {
                Outcome::Value(value, after)
            } else {
                block_value(body.drop_first(), after, arithmetic, depth)
            },
            other => other,
        }
    }
}

/// The values of the arguments `args`, evaluated in order in `store`,
/// behind the values `values` of the arguments before them.
pub open spec fn argument_values(
    args: Seq<Ast>,
    values: Seq<u64>,
    store: Store,
    arithmetic: Arithmetic,
    depth: nat,
) -> Outcomes
    decreases depth, args,
{
    if args.len() == 0 {
        Outcomes::Values(values, store)
    } else {
        match value_of(args[0], store, arithmetic, depth) {
            Outcome::Value(value, after) => argument_values(
                args.drop_first(),
                values.push(value),
                after,
                arithmetic,
                depth,
            ),
            Outcome::Failure(error) => Outcomes::Failure(error),
            Outcome::Unfinished => Outcomes::Unfinished,
        }
    }
}

/// The worth of the statements `program`, evaluated in order in `store`:
/// the value of the last statement whose value is no zero, or `last` if
/// there is none.
pub open spec fn program_value(
    program: Seq<Ast>,
    last: u64,
    store: Store,
    arithmetic: Arithmetic,
    depth: nat,
) -> Outcome
    decreases program.len(),
{
    if program.len() == 0 {
        Outcome::Value(last, store)
    } else {
        match value_of(program[0], store, arithmetic, depth) {
            Outcome::Value(value, after) => program_value(
                program.drop_first(),
                if is_zero(value) {
                    last
                } else {
                    value
                },
                after,
                arithmetic,
                depth,
            ),
            other => other,
        }
    }
}

/// The worth of a program with one more statement at its end: the value of
/// that statement, unless it is a zero; then the worth of the program
/// before it.
pub proof fn lemma_program_appended(
    program: Seq<Ast>,
    statement: Ast,
    last: u64,
    store: Store,
    arithmetic: Arithmetic,
    depth: nat,
)
    ensures
        program_value(program.push(statement), last, store, arithmetic, depth) == match program_value(
            program,
            last,
            store,
            arithmetic,
            depth,
        ) {
            Outcome::Value(before, after) => match value_of(statement, after, arithmetic, depth) {
                Outcome::Value(value, behind) => Outcome::Value(
                    if is_zero(value) {
                        before
                    } else {
                        value
                    },
                    behind,
                ),
                other => other,
            },
            other => other,
        },
    decreases program.len(),
{
    let longer = program.push(statement);
    if program.len() == 0 {
        assert(longer.drop_first() =~= Seq::<Ast>::empty());
        assert(longer[0] == statement);
        match value_of(statement, store, arithmetic, depth) {
            Outcome::Value(value, behind) => {
                let kept = if is_zero(value) {
                    last
                } else {
                    value
                };
                assert(program_value(Seq::<Ast>::empty(), kept, behind, arithmetic, depth)
                    == Outcome::Value(kept, behind));
            },
            _ => {},
        }
    } else {
        assert(longer[0] == program[0]);
        assert(longer.drop_first() =~= program.drop_first().push(statement));
        match value_of(program[0], store, arithmetic, depth) {
            Outcome::Value(value, after) => {
                lemma_program_appended(
                    program.drop_first(),
                    statement,
                    if is_zero(value) {
                        last
                    } else {
                        value
                    },
                    after,
                    arithmetic,
                    depth,
                );
            },
            _ => {},
        }
    }
}

/// A declaration or an assignment at the end of a program does not change
/// what the program is worth, so long as the assignment finds its value.
pub proof fn lemma_trailing_declaration_keeps_the_result(
    program: Seq<Ast>,
    statement: Ast,
    last: u64,
    store: Store,
    arithmetic: Arithmetic,
    depth: nat,
)
    requires
        statement is Function || statement is Assignment,
        program_value(program, last, store, arithmetic, depth) is Value,
        value_of(
            statement,
            program_value(program, last, store, arithmetic, depth)->Value_1,
            arithmetic,
            depth,
        ) is Value,
    ensures
        program_value(program.push(statement), last, store, arithmetic, depth) is Value,
        program_value(program.push(statement), last, store, arithmetic, depth)->Value_0
            == program_value(program, last, store, arithmetic, depth)->Value_0,
{
    lemma_program_appended(program, statement, last, store, arithmetic, depth);
}

/// What a tree is worth does not depend on the depth that was allowed, once
/// that is deep enough for the evaluation to end.
pub proof fn lemma_value_is_settled(
    expr: Ast,
    store: Store,
    arithmetic: Arithmetic,
    depth: nat,
    deeper: nat,
)
    requires
        depth <= deeper,
        !(value_of(expr, store, arithmetic, depth) is Unfinished),
    ensures
        value_of(expr, store, arithmetic, deeper) == value_of(expr, store, arithmetic, depth),
    decreases depth, expr,
{
    match expr {
        Ast::BinaryOp(left, op, right) => {
            lemma_value_is_settled(*left, store, arithmetic, depth, deeper);
            if let Outcome::Value(_, after_left) = value_of(*left, store, arithmetic, depth) {
                lemma_value_is_settled(*right, after_left, arithmetic, depth, deeper);
            }
        },
        Ast::UnaryOp(operand, op) => {
            lemma_value_is_settled(*operand, store, arithmetic, depth, deeper);
        },
        Ast::Assignment(value, name) => {
            lemma_value_is_settled(*value, store, arithmetic, depth, deeper);
        },
        Ast::ScopeExp(body) => {
            if body.len() > 0 {
                lemma_block_is_settled(
                    body,
                    Store { scopes: enter(store.scopes), ..store },
                    arithmetic,
                    depth,
                    deeper,
                );
            }
        },
        Ast::FunctionCall(name, args) => {
            if store.functions.contains_key(name) {
                let function = store.functions[name];
                if function.params.len() == args.len() {
                    lemma_arguments_are_settled(
                        args,
                        Seq::empty(),
                        store,
                        arithmetic,
                        depth,
                        deeper,
                    );
                    if let Outcomes::Values(values, after) = argument_values(
                        args,
                        Seq::empty(),
                        store,
                        arithmetic,
                        depth,
                    ) {
                        lemma_value_is_settled(
                            function.body,
                            Store {
                                scopes: after.scopes.push(bind_all(function.params, values)),
                                ..after
                            },
                            arithmetic,
                            (depth - 1) as nat,
                            (deeper - 1) as nat,
                        );
                    }
                }
            }
        },
        _ => {},
    }
}

/// What a block is worth does not depend on the depth that was allowed,
/// once that is deep enough for the evaluation to end.
pub proof fn lemma_block_is_settled(
    body: Seq<Ast>,
    store: Store,
    arithmetic: Arithmetic,
    depth: nat,
    deeper: nat,
)
    requires
        depth <= deeper,
        !(block_value(body, store, arithmetic, depth) is Unfinished),
    ensures
        block_value(body, store, arithmetic, deeper) == block_value(body, store, arithmetic, depth),
    decreases depth, body,
{
    if body.len() > 0 {
        lemma_value_is_settled(body[0], store, arithmetic, depth, deeper);
        if let Outcome::Value(_, after) = value_of(body[0], store, arithmetic, depth) {
            if body.len() > 1 {
                lemma_block_is_settled(body.drop_first(), after, arithmetic, depth, deeper);
            }
        }
    }
}

/// What the arguments of a call are worth does not depend on the depth that
/// was allowed, once that is deep enough for the evaluation to end.
pub proof fn lemma_arguments_are_settled(
    args: Seq<Ast>,
    values: Seq<u64>,
    store: Store,
    arithmetic: Arithmetic,
    depth: nat,
    deeper: nat,
)
    requires
        depth <= deeper,
        !(argument_values(args, values, store, arithmetic, depth) is Unfinished),
    ensures
        argument_values(args, values, store, arithmetic, deeper) == argument_values(
            args,
            values,
            store,
            arithmetic,
            depth,
        ),
    decreases depth, args,
{
    if args.len() > 0 {
        lemma_value_is_settled(args[0], store, arithmetic, depth, deeper);
        if let Outcome::Value(value, after) = value_of(args[0], store, arithmetic, depth) {
            lemma_arguments_are_settled(
                args.drop_first(),
                values.push(value),
                after,
                arithmetic,
                depth,
                deeper,
            );
        }
    }
}

/// What a program is worth does not depend on the depth that was allowed,
/// once that is deep enough for the evaluation to end.
pub proof fn lemma_program_is_settled(
    program: Seq<Ast>,
    last: u64,
    store: Store,
    arithmetic: Arithmetic,
    depth: nat,
    deeper: nat,
)
    requires
        depth <= deeper,
        !(program_value(program, last, store, arithmetic, depth) is Unfinished),
    ensures
        program_value(program, last, store, arithmetic, deeper) == program_value(
            program,
            last,
            store,
            arithmetic,
            depth,
        ),
    decreases program.len(),
{
    if program.len() > 0 {
        lemma_value_is_settled(program[0], store, arithmetic, depth, deeper);
        if let Outcome::Value(value, after) = value_of(program[0], store, arithmetic, depth) {
            lemma_program_is_settled(
                program.drop_first(),
                if is_zero(value) {
                    last
                } else {
                    value
                },
                after,
                arithmetic,
                depth,
                deeper,
            );
        }
    }
}

} // verus!
