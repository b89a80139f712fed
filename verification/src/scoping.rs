//! Laws of scoping: what binding, entering and leaving do to what a name is
//! worth, and what the evaluation of a tree can change.

use vstd::prelude::*;
use crate::ast::Ast;
use crate::machine::{bind, bind_all, enter, leave, lookup};
use crate::semantics::{
    argument_values, block_value, value_of, Arithmetic, Outcome, Outcomes, Store,
};

verus! {

/// A name is worth what it was last bound to.
pub proof fn lemma_bound_name_is_found(
    scopes: Seq<Map<Seq<char>, u64>>,
    name: Seq<char>,
    value: u64,
)
    requires
        scopes.len() >= 1,
    ensures
        lookup(bind(scopes, name, value), name) == Some(value),
{
}

/// Binding a name changes the worth of no other name.
pub proof fn lemma_binding_is_local(
    scopes: Seq<Map<Seq<char>, u64>>,
    name: Seq<char>,
    value: u64,
    other: Seq<char>,
)
    requires
        other != name,
    ensures
        lookup(bind(scopes, name, value), other) == lookup(scopes, other),
{
    if scopes.len() >= 1 {
        assert(bind(scopes, name, value).drop_last() =~= scopes.drop_last());
    }
}

/// A new scope hides nothing: every name is worth in it what it was worth
/// outside.
pub proof fn lemma_inner_scope_sees_outer(scopes: Seq<Map<Seq<char>, u64>>, name: Seq<char>)
    ensures
        lookup(enter(scopes), name) == lookup(scopes, name),
{
    assert(enter(scopes).drop_last() =~= scopes);
}

/// A binding made in an inner scope shadows the outer one while the scope
/// lasts, and is gone when the scope is left: every name is then worth what
/// it was worth before the scope was entered.
pub proof fn lemma_shadow_ends_with_its_scope(
    scopes: Seq<Map<Seq<char>, u64>>,
    name: Seq<char>,
    value: u64,
)
    requires
        scopes.len() >= 1,
    ensures
        lookup(bind(enter(scopes), name, value), name) == Some(value),
        leave(bind(enter(scopes), name, value)) == scopes,
{
    assert(leave(bind(enter(scopes), name, value)) =~= scopes);
}

/// Whether `after` has as many scopes as `before`, and the same ones but
/// for the innermost.
pub open spec fn innermost_alone_differs(
    before: Seq<Map<Seq<char>, u64>>,
    after: Seq<Map<Seq<char>, u64>>,
) -> bool {
    &&& after.len() == before.len()
    &&& after.drop_last() == before.drop_last()
}

/// The evaluation of a tree changes bindings in the innermost scope alone,
/// and that of a block changes none: behind a block every name is worth
/// what it was worth before it.
pub proof fn lemma_value_keeps_outer_scopes(
    expr: Ast,
    store: Store,
    arithmetic: Arithmetic,
    depth: nat,
)
    requires
        store.scopes.len() >= 1,
    ensures
        value_of(expr, store, arithmetic, depth) matches Outcome::Value(_, after) ==> {
            &&& innermost_alone_differs(store.scopes, after.scopes)
            &&& expr is ScopeExp ==> after.scopes == store.scopes
        },
    decreases depth, expr,
{
    match expr {
        Ast::BinaryOp(left, op, right) => {
            lemma_value_keeps_outer_scopes(*left, store, arithmetic, depth);
            if let Outcome::Value(_, after_left) = value_of(*left, store, arithmetic, depth) {
                lemma_value_keeps_outer_scopes(*right, after_left, arithmetic, depth);
            }
        },
        Ast::UnaryOp(operand, op) => {
            lemma_value_keeps_outer_scopes(*operand, store, arithmetic, depth);
        },
        Ast::Assignment(value, name) => {
            lemma_value_keeps_outer_scopes(*value, store, arithmetic, depth);
            if let Outcome::Value(a, after) = value_of(*value, store, arithmetic, depth) {
                assert(bind(after.scopes, name, a).drop_last() =~= after.scopes.drop_last());
            }
        },
        Ast::ScopeExp(body) => {
            if body.len() > 0 {
                let inside = Store { scopes: enter(store.scopes), ..store };
                lemma_block_keeps_outer_scopes(body, inside, arithmetic, depth);
                assert(inside.scopes.drop_last() =~= store.scopes);
            }
        },
        Ast::FunctionCall(name, args) => {
            if store.functions.contains_key(name) {
                let function = store.functions[name];
                lemma_arguments_keep_outer_scopes(args, Seq::empty(), store, arithmetic, depth);
                if let Outcomes::Values(values, after) = argument_values(
                    args,
                    Seq::empty(),
                    store,
                    arithmetic,
                    depth,
                ) {
                    if depth > 0 {
                        let inside = Store {
                            scopes: after.scopes.push(bind_all(function.params, values)),
                            ..after
                        };
                        lemma_value_keeps_outer_scopes(
                            function.body,
                            inside,
                            arithmetic,
                            (depth - 1) as nat,
                        );
                        assert(inside.scopes.drop_last() =~= after.scopes);
                    }
                }
            }
        },
        _ => {},
    }
}

/// The statements of a block change bindings in the innermost scope alone.
pub proof fn lemma_block_keeps_outer_scopes(
    body: Seq<Ast>,
    store: Store,
    arithmetic: Arithmetic,
    depth: nat,
)
    requires
        store.scopes.len() >= 1,
    ensures
        block_value(body, store, arithmetic, depth) matches Outcome::Value(_, after)
            ==> innermost_alone_differs(store.scopes, after.scopes),
    decreases depth, body,
{
    if body.len() > 0 {
        lemma_value_keeps_outer_scopes(body[0], store, arithmetic, depth);
        if let Outcome::Value(_, after) = value_of(body[0], store, arithmetic, depth) {
            if body.len() > 1 {
                lemma_block_keeps_outer_scopes(body.drop_first(), after, arithmetic, depth);
            }
        }
    }
}

/// The arguments of a call change bindings in the innermost scope alone.
pub proof fn lemma_arguments_keep_outer_scopes(
    args: Seq<Ast>,
    values: Seq<u64>,
    store: Store,
    arithmetic: Arithmetic,
    depth: nat,
)
    requires
        store.scopes.len() >= 1,
    ensures
        argument_values(args, values, store, arithmetic, depth) matches Outcomes::Values(_, after)
            ==> innermost_alone_differs(store.scopes, after.scopes),
    decreases depth, args,
{
    if args.len() > 0 {
        lemma_value_keeps_outer_scopes(args[0], store, arithmetic, depth);
        if let Outcome::Value(value, after) = value_of(args[0], store, arithmetic, depth) {
            lemma_arguments_keep_outer_scopes(
                args.drop_first(),
                values.push(value),
                after,
                arithmetic,
                depth,
            );
        }
    }
}

} // verus!
