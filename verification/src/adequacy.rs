//! The machine computes what the language means: run with some arithmetic,
//! it takes a tree to the worth that [`crate::semantics`] gives it.

use vstd::prelude::*;
use crate::ast::Ast;
use crate::machine::{
    bind, bind_all, enter, is_binary, is_unary, is_zero, leave, ActionModel, FrameModel, Machine,
    ModeModel, RequestModel, ZERO,
};
use crate::semantics::{
    argument_values, block_value, program_value, value_of, Arithmetic, Outcome, Outcomes, Store,
};
use crate::token::Operations;

verus! {

/// What the machine reads and changes of the store.
pub open spec fn store_of(m: Machine) -> Store {
    Store { scopes: m.scopes, functions: m.functions }
}

/// The reply that `arithmetic` gives the machine: the result of the request
/// that it waits for, if it waits for one.
pub open spec fn reply_to(m: Machine, arithmetic: Arithmetic) -> Option<u64> {
    match m.mode {
        ModeModel::Await(request) => Some(arithmetic(request)),
        _ => None,
    }
}

/// The machine one step on, answered by `arithmetic`.
pub open spec fn next(m: Machine, arithmetic: Arithmetic) -> Machine {
    m.step(reply_to(m, arithmetic)).0
}

/// The machine `n` steps on, answered by `arithmetic`.
pub open spec fn run(m: Machine, arithmetic: Arithmetic, n: nat) -> Machine
    decreases n,
{
    if n == 0 {
        m
    } else {
        run(next(m, arithmetic), arithmetic, (n - 1) as nat)
    }
}

/// `m` about to hand on `value`, with the store `store`.
pub open spec fn returned(m: Machine, value: u64, store: Store) -> Machine {
    Machine {
        scopes: store.scopes,
        functions: store.functions,
        mode: ModeModel::Return(value),
        ..m
    }
}

/// Whether `end` is where `outcome` says the machine is once the tree that
/// `m` was about to reduce has been evaluated: about to hand on the value,
/// with the frames of `m` and the store of the outcome; or stopped by the
/// failure.
pub open spec fn reaches(m: Machine, end: Machine, outcome: Outcome) -> bool {
    match outcome {
        Outcome::Value(value, store) => end == returned(m, value, store),
        Outcome::Failure(error) => end.mode == ModeModel::Failed(error),
        Outcome::Unfinished => true,
    }
}

/// Running `a` steps and then `b` steps is running `a + b` steps.
pub proof fn lemma_run_add(m: Machine, arithmetic: Arithmetic, a: nat, b: nat)
    ensures
        run(m, arithmetic, a + b) == run(run(m, arithmetic, a), arithmetic, b),
    decreases a,
{
    if a > 0 {
        lemma_run_add(next(m, arithmetic), arithmetic, (a - 1) as nat, b);
        assert(run(m, arithmetic, a + b) == run(
            next(m, arithmetic),
            arithmetic,
            (a + b - 1) as nat,
        ));
    }
}

/// One more step behind `n` steps.
proof fn lemma_one_more(m: Machine, arithmetic: Arithmetic, n: nat)
    ensures
        run(m, arithmetic, n + 1) == next(run(m, arithmetic, n), arithmetic),
{
    lemma_run_add(m, arithmetic, n, 1);
    let at = run(m, arithmetic, n);
    assert(run(at, arithmetic, 1) == run(next(at, arithmetic), arithmetic, 0));
}

/// A machine that is about to reduce `expr` comes, after some number of
/// steps, to hand on the worth of `expr`, with its frames as they were and
/// the store as the evaluation leaves it; or it stops with the failure that
/// the evaluation ends in. The number of steps is returned.
pub proof fn lemma_value_reached(
    m: Machine,
    expr: Ast,
    arithmetic: Arithmetic,
    depth: nat,
) -> (n: nat)
    requires
        m.mode == ModeModel::Eval(expr),
    ensures
        reaches(m, run(m, arithmetic, n), value_of(expr, store_of(m), arithmetic, depth)),
    decreases depth, expr,
{
    let store = store_of(m);
    let m1 = next(m, arithmetic);
    lemma_one_more(m, arithmetic, 0);
    match expr {
        Ast::Number(numeral) => {
            lemma_one_more(m, arithmetic, 1);
            assert(next(m1, arithmetic) =~= returned(
                m,
                arithmetic(RequestModel::Literal(numeral)),
                store,
            ));
            2
        },
        Ast::Variable(name) => {
            assert(m1 =~= m.reduce(expr).0);
            1
        },
        Ast::BinaryOp(left, op, right) => {
            let n1 = lemma_value_reached(m1, *left, arithmetic, depth);
            lemma_run_add(m, arithmetic, 1, n1);
            match value_of(*left, store, arithmetic, depth) {
                Outcome::Value(a, after_left) => {
                    let r1 = run(m, arithmetic, 1 + n1);
                    let m2 = next(r1, arithmetic);
                    lemma_one_more(m, arithmetic, 1 + n1);
                    assert(m2 =~= Machine {
                        scopes: after_left.scopes,
                        functions: after_left.functions,
                        frames: m.frames.push(FrameModel::BinaryRight(op, a)),
                        mode: ModeModel::Eval(*right),
                        last_result: m.last_result,
                    });
                    let n2 = lemma_value_reached(m2, *right, arithmetic, depth);
                    lemma_run_add(m, arithmetic, 1 + n1 + 1, n2);
                    match value_of(*right, after_left, arithmetic, depth) {
                        Outcome::Value(b, after_right) => {
                            let r2 = run(m, arithmetic, 1 + n1 + 1 + n2);
                            let m3 = next(r2, arithmetic);
                            lemma_one_more(m, arithmetic, 1 + n1 + 1 + n2);
                            assert(r2.frames.drop_last() =~= m.frames);
                            let m4 = next(m3, arithmetic);
                            lemma_one_more(m, arithmetic, 1 + n1 + 1 + n2 + 1);
                            if !is_binary(op) {
                                assert(m3 =~= returned(m, ZERO, after_right));
                                1 + n1 + 1 + n2 + 1
                            } else if op == Operations::DIVIDE
                                && is_zero(b) {
                                1 + n1 + 1 + n2 + 1
                            } else {
                                assert(m4 =~= returned(
                                    m,
                                    arithmetic(RequestModel::Binary(op, a, b)),
                                    after_right,
                                ));
                                1 + n1 + 1 + n2 + 2
                            }
                        },
                        _ => 1 + n1 + 1 + n2,
                    }
                },
                _ => 1 + n1,
            }
        },
        Ast::UnaryOp(operand, op) => {
            let n1 = lemma_value_reached(m1, *operand, arithmetic, depth);
            lemma_run_add(m, arithmetic, 1, n1);
            match value_of(*operand, store, arithmetic, depth) {
                Outcome::Value(a, after) => {
                    let r1 = run(m, arithmetic, 1 + n1);
                    let m2 = next(r1, arithmetic);
                    lemma_one_more(m, arithmetic, 1 + n1);
                    assert(r1.frames.drop_last() =~= m.frames);
                    let m3 = next(m2, arithmetic);
                    lemma_one_more(m, arithmetic, 1 + n1 + 1);
                    if is_unary(op) {
                        assert(m3 =~= returned(
                            m,
                            arithmetic(RequestModel::Unary(op, a)),
                            after,
                        ));
                        1 + n1 + 2
                    } else {
                        assert(m2 =~= returned(m, ZERO, after));
                        1 + n1 + 1
                    }
                },
                _ => 1 + n1,
            }
        },
        Ast::Assignment(value, name) => {
            let n1 = lemma_value_reached(m1, *value, arithmetic, depth);
            lemma_run_add(m, arithmetic, 1, n1);
            match value_of(*value, store, arithmetic, depth) {
                Outcome::Value(a, after) => {
                    let r1 = run(m, arithmetic, 1 + n1);
                    let m2 = next(r1, arithmetic);
                    lemma_one_more(m, arithmetic, 1 + n1);
                    assert(r1.frames.drop_last() =~= m.frames);
                    assert(m2 =~= returned(
                        m,
                        ZERO,
                        Store { scopes: bind(after.scopes, name, a), ..after },
                    ));
                    1 + n1 + 1
                },
                _ => 1 + n1,
            }
        },
        Ast::ScopeExp(body) => {
            if body.len() == 0 {
                assert(m1 =~= returned(m, ZERO, store));
                1
            } else {
                let n1 = lemma_block_reached(m1, body, arithmetic, depth);
                lemma_run_add(m, arithmetic, 1, n1);
                assert(m1.frames.drop_last() =~= m.frames);
                assert(store_of(m1) == Store { scopes: enter(store.scopes), ..store });
                1 + n1
            }
        },
        Ast::Function(name, params, body) => {
            assert(m1 =~= m.reduce(expr).0);
            1
        },
        Ast::FunctionCall(name, args) => {
            if !store.functions.contains_key(name) {
                1
            } else {
                let function = store.functions[name];
                if function.params.len() != args.len() {
                    1
                } else if args.len() == 0 {
                    assert(bind_all(function.params, Seq::<u64>::empty()) =~= Map::<
                        Seq<char>,
                        u64,
                    >::empty());
                    if depth == 0 {
                        1
                    } else {
                        let n1 = lemma_value_reached(
                            m1,
                            function.body,
                            arithmetic,
                            (depth - 1) as nat,
                        );
                        lemma_run_add(m, arithmetic, 1, n1);
                        lemma_one_more(m, arithmetic, 1 + n1);
                        assert(store_of(m1) =~= Store {
                            scopes: store.scopes.push(bind_all(function.params, Seq::empty())),
                            ..store
                        });
                        lemma_left(m, m1, run(m, arithmetic, 1 + n1), arithmetic);
                        match value_of(function.body, store_of(m1), arithmetic, (depth - 1) as nat) {
                            Outcome::Value(result, behind) => 1 + n1 + 1,
                            _ => 1 + n1,
                        }
                    }
                } else {
                    let n1 = lemma_arguments_reached(
                        m1,
                        args,
                        Seq::empty(),
                        function.params,
                        function.body,
                        arithmetic,
                        depth,
                    );
                    lemma_run_add(m, arithmetic, 1, n1);
                    match argument_values(args, Seq::empty(), store, arithmetic, depth) {
                        Outcomes::Values(values, after) => {
                            if depth == 0 {
                                1 + n1
                            } else {
                                let m2 = run(m, arithmetic, 1 + n1);
                                assert(m1.frames.drop_last() =~= m.frames);
                                let n2 = lemma_value_reached(
                                    m2,
                                    function.body,
                                    arithmetic,
                                    (depth - 1) as nat,
                                );
                                lemma_run_add(m, arithmetic, 1 + n1, n2);
                                lemma_one_more(m, arithmetic, 1 + n1 + n2);
                                lemma_left(m, m2, run(m, arithmetic, 1 + n1 + n2), arithmetic);
                                match value_of(
                                    function.body,
                                    store_of(m2),
                                    arithmetic,
                                    (depth - 1) as nat,
                                ) {
                                    Outcome::Value(result, behind) => 1 + n1 + n2 + 1,
                                    _ => 1 + n1 + n2,
                                }
                            }
                        },
                        _ => 1 + n1,
                    }
                }
            }
        },
    }
}

/// The step that leaves the scope of a call: a machine that has the frames
/// of `m` and a frame that waits for the body on top, and that is about to
/// hand on a value, hands it on to `m`'s frames and leaves the innermost
/// scope.
proof fn lemma_left(m: Machine, inside: Machine, end: Machine, arithmetic: Arithmetic)
    requires
        inside.frames == m.frames.push(FrameModel::Leave),
        inside.last_result == m.last_result,
    ensures
        forall|value: u64, store: Store| #[trigger]
            returned(inside, value, store) == end ==> next(end, arithmetic) == returned(
                m,
                value,
                Store { scopes: leave(store.scopes), ..store },
            ),
{
    assert forall|value: u64, store: Store| #[trigger]
        returned(inside, value, store) == end implies next(end, arithmetic) == returned(
        m,
        value,
        Store { scopes: leave(store.scopes), ..store },
    ) by {
        assert(end.frames.drop_last() =~= m.frames);
        assert(next(end, arithmetic) =~= returned(
            m,
            value,
            Store { scopes: leave(store.scopes), ..store },
        ));
    }
}

/// Whether `end` is where `outcome` says the machine is once the block
/// whose frame is innermost in `m` has been evaluated: about to hand on the
/// value of the block, with that frame gone and the scope of the block
/// left; or stopped by the failure.
pub open spec fn block_reaches(m: Machine, end: Machine, outcome: Outcome) -> bool {
    match outcome {
        Outcome::Value(value, store) => end == Machine {
            scopes: leave(store.scopes),
            functions: store.functions,
            frames: m.frames.drop_last(),
            mode: ModeModel::Return(value),
            last_result: m.last_result,
        },
        Outcome::Failure(error) => end.mode == ModeModel::Failed(error),
        Outcome::Unfinished => true,
    }
}

/// A machine that is about to reduce the first statement of `body`, with
/// the rest of `body` in its innermost frame, comes to hand on the worth of
/// the block behind that frame, with the scope of the block left; or it
/// stops with the failure that the evaluation ends in.
pub proof fn lemma_block_reached(
    m: Machine,
    body: Seq<Ast>,
    arithmetic: Arithmetic,
    depth: nat,
) -> (n: nat)
    requires
        body.len() > 0,
        m.mode == ModeModel::Eval(body[0]),
        m.frames.len() > 0,
        m.frames.last() == FrameModel::Block(body.drop_first()),
    ensures
        block_reaches(m, run(m, arithmetic, n), block_value(body, store_of(m), arithmetic, depth)),
    decreases depth, body,
{
    let n1 = lemma_value_reached(m, body[0], arithmetic, depth);
    match value_of(body[0], store_of(m), arithmetic, depth) {
        Outcome::Value(value, after) => {
            let r1 = run(m, arithmetic, n1);
            let m2 = next(r1, arithmetic);
            lemma_one_more(m, arithmetic, n1);
            if body.len() == 1 {
                assert(body.drop_first().len() == 0);
                n1 + 1
            } else {
                let following = body.drop_first();
                assert(m2.frames.drop_last() =~= m.frames.drop_last());
                let n2 = lemma_block_reached(m2, following, arithmetic, depth);
                lemma_run_add(m, arithmetic, n1 + 1, n2);
                n1 + 1 + n2
            }
        },
        _ => n1,
    }
}

/// Whether `end` is where `outcome` says the machine is once the arguments
/// whose frame is innermost in `m` have been evaluated: about to reduce
/// `body` in a new scope that binds `params` to the values, with a frame
/// that waits for the body in place of that frame; or stopped by the
/// failure.
pub open spec fn arguments_reach(
    m: Machine,
    end: Machine,
    params: Seq<Seq<char>>,
    body: Ast,
    outcome: Outcomes,
) -> bool {
    match outcome {
        Outcomes::Values(values, store) => end == Machine {
            scopes: store.scopes.push(bind_all(params, values)),
            functions: store.functions,
            frames: m.frames.drop_last().push(FrameModel::Leave),
            mode: ModeModel::Eval(body),
            last_result: m.last_result,
        },
        Outcomes::Failure(error) => end.mode == ModeModel::Failed(error),
        Outcomes::Unfinished => true,
    }
}

/// A machine that is about to reduce the first of the arguments `args`,
/// with the rest of them in its innermost frame, comes to reduce the body
/// of the function called, in a scope that binds the parameters to the
/// values of the arguments; or it stops with the failure that the
/// evaluation ends in.
pub proof fn lemma_arguments_reached(
    m: Machine,
    args: Seq<Ast>,
    values: Seq<u64>,
    params: Seq<Seq<char>>,
    body: Ast,
    arithmetic: Arithmetic,
    depth: nat,
) -> (n: nat)
    requires
        args.len() > 0,
        m.mode == ModeModel::Eval(args[0]),
        m.frames.len() > 0,
        m.frames.last() == (FrameModel::Arguments {
            params,
            body,
            pending: args.drop_first(),
            values,
        }),
    ensures
        arguments_reach(
            m,
            run(m, arithmetic, n),
            params,
            body,
            argument_values(args, values, store_of(m), arithmetic, depth),
        ),
    decreases depth, args,
{
    let n1 = lemma_value_reached(m, args[0], arithmetic, depth);
    match value_of(args[0], store_of(m), arithmetic, depth) {
        Outcome::Value(value, after) => {
            let r1 = run(m, arithmetic, n1);
            let m2 = next(r1, arithmetic);
            lemma_one_more(m, arithmetic, n1);
            let pending = args.drop_first();
            if pending.len() == 0 {
                assert(argument_values(pending, values.push(value), after, arithmetic, depth)
                    == Outcomes::Values(values.push(value), after));
                n1 + 1
            } else {
                assert(m2.frames.drop_last() =~= m.frames.drop_last());
                let n2 = lemma_arguments_reached(
                    m2,
                    pending,
                    values.push(value),
                    params,
                    body,
                    arithmetic,
                    depth,
                );
                lemma_run_add(m, arithmetic, n1 + 1, n2);
                n1 + 1 + n2
            }
        },
        _ => n1,
    }
}

/// Whether `end` is where `outcome` says the machine is once the program
/// whose frame is innermost in `m` has been evaluated: ended with the last
/// result, which it keeps, with that frame gone; or stopped by the failure.
pub open spec fn program_reaches(m: Machine, end: Machine, outcome: Outcome) -> bool {
    match outcome {
        Outcome::Value(value, store) => end == Machine {
            scopes: store.scopes,
            functions: store.functions,
            frames: m.frames.drop_last(),
            mode: ModeModel::Done(value),
            last_result: value,
        },
        Outcome::Failure(error) => end.mode == ModeModel::Failed(error),
        Outcome::Unfinished => true,
    }
}

/// A machine that is about to reduce the first statement of `program`,
/// with the rest of `program` in its innermost frame, comes to end with the
/// worth of the program; or it stops with the failure that the evaluation
/// ends in.
pub proof fn lemma_program_reached(
    m: Machine,
    program: Seq<Ast>,
    arithmetic: Arithmetic,
    depth: nat,
) -> (n: nat)
    requires
        program.len() > 0,
        m.mode == ModeModel::Eval(program[0]),
        m.frames.len() > 0,
        m.frames.last() == FrameModel::Statements(program.drop_first()),
    ensures
        program_reaches(
            m,
            run(m, arithmetic, n),
            program_value(program, m.last_result, store_of(m), arithmetic, depth),
        ),
    decreases program.len(),
{
    let n1 = lemma_value_reached(m, program[0], arithmetic, depth);
    match value_of(program[0], store_of(m), arithmetic, depth) {
        Outcome::Value(value, after) => {
            let r1 = run(m, arithmetic, n1);
            let m2 = next(r1, arithmetic);
            lemma_one_more(m, arithmetic, n1);
            let following = program.drop_first();
            let last = if is_zero(value) {
                m.last_result
            } else {
                value
            };
            if following.len() == 0 {
                assert(program_value(following, last, after, arithmetic, depth) == Outcome::Value(
                    last,
                    after,
                ));
                assert(m2 =~= Machine {
                    scopes: after.scopes,
                    functions: after.functions,
                    frames: m.frames.drop_last(),
                    mode: ModeModel::Done(last),
                    last_result: last,
                });
                n1 + 1
            } else {
                assert(m2.frames.drop_last() =~= m.frames.drop_last());
                let n2 = lemma_program_reached(m2, following, arithmetic, depth);
                lemma_run_add(m, arithmetic, n1 + 1, n2);
                n1 + 1 + n2
            }
        },
        _ => n1,
    }
}

/// Evaluation is what the language means. A machine that is set to
/// evaluate `program` and is answered by `arithmetic` comes, after some
/// number of steps, to end with the worth of the program and to report it,
/// or to stop with the failure that the program ends in and to report that.
/// The program is evaluated in the outermost scope of the machine, with the
/// functions that it holds. The number of steps is returned.
pub proof fn lemma_evaluation(
    m: Machine,
    program: Seq<Ast>,
    arithmetic: Arithmetic,
    depth: nat,
) -> (n: nat)
    ensures
        ({
            let end = run(m.load(program), arithmetic, n);
            match program_value(
                program,
                ZERO,
                Store { scopes: m.scopes.take(1), functions: m.functions },
                arithmetic,
                depth,
            ) {
                Outcome::Value(value, store) => {
                    &&& end.step(None).1 == ActionModel::Done(value)
                    &&& end.scopes == store.scopes
                    &&& end.functions == store.functions
                    &&& end.frames.len() == 0
                    &&& end.last_result == value
                },
                Outcome::Failure(error) => end.step(None).1 == ActionModel::Fail(error),
                Outcome::Unfinished => true,
            }
        }),
{
    if program.len() == 0 {
        0
    } else {
        let start = m.load(program);
        lemma_program_reached(start, program, arithmetic, depth)
    }
}

/// A step leaves the machine with a scope.
pub proof fn lemma_step_keeps_a_scope(m: Machine, reply: Option<u64>)
    requires
        m.wf(),
    ensures
        m.step(reply).0.wf(),
{
}

/// Setting the machine to a program leaves it with the outermost scope
/// alone.
pub proof fn lemma_load_keeps_the_outermost_scope(m: Machine, program: Seq<Ast>)
    requires
        m.wf(),
    ensures
        m.load(program).wf(),
        m.load(program).scopes.len() == 1,
        m.load(program).scopes[0] == m.scopes[0],
{
}

/// An evaluation starts from the outermost scope and the functions, and
/// from nothing else that an earlier evaluation left behind.
pub proof fn lemma_load_forgets_unfinished_work(a: Machine, b: Machine, program: Seq<Ast>)
    requires
        a.wf(),
        b.wf(),
        a.scopes[0] == b.scopes[0],
        a.functions == b.functions,
    ensures
        a.load(program) == b.load(program),
{
    assert(a.scopes.take(1) =~= b.scopes.take(1));
}

/// The machine has no state but what it shows: machines in one state that
/// get one reply take the same step, and so do the same however often they
/// are run.
pub proof fn lemma_runs_agree(a: Machine, b: Machine, arithmetic: Arithmetic, n: nat)
    requires
        a == b,
    ensures
        a.step(reply_to(a, arithmetic)) == b.step(reply_to(b, arithmetic)),
        run(a, arithmetic, n) == run(b, arithmetic, n),
{
}

} // verus!
