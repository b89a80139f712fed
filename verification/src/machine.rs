//! The evaluator as an abstract machine.
//!
//! A value is a binary64 number, held as its 64 bits. The machine walks an
//! expression tree with a stack of frames, one for each node whose value is
//! awaited, and a stack of scopes. It never computes a number: where the
//! tree asks for arithmetic, the machine stops with a request and goes on
//! when it is handed the result. Everything else is decided here: which
//! binding a name refers to, which function a call reaches and with which
//! arguments, the order in which operands are evaluated, and which failure
//! ends the run.

use vstd::prelude::*;
use crate::ast::Ast;
use crate::token::{NumeralModel, Operations};

verus! {

/// The bits of positive zero: the value of a declaration, of an assignment
/// and of an empty block.
pub const ZERO: u64 = 0;

/// Whether `value` is one of the two zeros of binary64, which differ in the
/// sign bit alone. These are the values that compare equal to zero.
pub open spec fn is_zero(value: u64) -> bool {
    value == 0 || value == 0x8000_0000_0000_0000
}

/// Whether `op` is an operator of two operands that the evaluator knows.
pub open spec fn is_binary(op: Operations) -> bool {
    op == Operations::ADD || op == Operations::MINUS || op == Operations::POWER || op
        == Operations::DIVIDE || op == Operations::MULTIPLY || op == Operations::FNLOG || op
        == Operations::FNMOD
}

/// Whether `op` is an operator of one operand that the evaluator knows.
pub open spec fn is_unary(op: Operations) -> bool {
    op == Operations::FNCOS || op == Operations::FNSIN || op == Operations::FNTAN || op
        == Operations::FNFACT || op == Operations::MINUS || op == Operations::NOT || op
        == Operations::FNABS || op == Operations::FNSQRT || op == Operations::FNEXP || op
        == Operations::FNASIN || op == Operations::FNACOS || op == Operations::FNATAN || op
        == Operations::FNSINH || op == Operations::FNCOSH || op == Operations::FNTANH || op
        == Operations::FNFLOOR || op == Operations::FNCEIL || op == Operations::FNROUND
}

/// Arithmetic that the machine asks for.
pub enum RequestModel {
    /// The value of a literal.
    Literal(NumeralModel),
    /// `op` applied to one value.
    Unary(Operations, u64),
    /// `op` applied to a left and a right value.
    Binary(Operations, u64, u64),
}

/// A failure that ends the evaluation.
pub enum EvalErrorModel {
    UndeclaredVariable(Seq<char>),
    UndefinedFunction(Seq<char>),
    ArityMismatch { name: Seq<char>, expected: nat, found: nat },
    DivisionByZero,
}

impl EvalErrorModel {
    /// The failure in words.
    pub open spec fn text(self) -> Seq<char> {
        match self {
            EvalErrorModel::UndeclaredVariable(name) => "Undeclared Variable: "@ + name,
            EvalErrorModel::UndefinedFunction(name) => "Undefined Function: "@ + name,
            EvalErrorModel::ArityMismatch { name, .. } => "Function "@ + name
                + " called with wrong # of params"@,
            EvalErrorModel::DivisionByZero => "Division by zero"@,
        }
    }
}

/// What a step of the machine tells its caller.
pub enum ActionModel {
    /// Nothing is needed: take the next step.
    Continue,
    /// Compute this, and hand the result to the next step.
    Compute(RequestModel),
    /// The evaluation has ended with this value.
    Done(u64),
    /// The evaluation has failed.
    Fail(EvalErrorModel),
}

/// A declared function.
pub struct FunctionModel {
    pub params: Seq<Seq<char>>,
    pub body: Ast,
}

/// A node whose value is awaited, with what is to be done once it comes.
pub enum FrameModel {
    /// The left operand of `op` is awaited; the right one is still a tree.
    BinaryLeft(Operations, Ast),
    /// The right operand of `op` is awaited; the left one has this value.
    BinaryRight(Operations, u64),
    /// The operand of `op` is awaited.
    Unary(Operations),
    /// The value to bind to this name is awaited.
    Bind(Seq<char>),
    /// A statement of a block is awaited; these statements follow it.
    Block(Seq<Ast>),
    /// An argument of a call is awaited: the parameters and the body of the
    /// function called, the arguments that follow, and the values of those
    /// before.
    Arguments { params: Seq<Seq<char>>, body: Ast, pending: Seq<Ast>, values: Seq<u64> },
    /// The body of a call is awaited; its scope is left behind it.
    Leave,
    /// A statement of the program is awaited; these statements follow it.
    Statements(Seq<Ast>),
}

/// What the machine is about to do.
pub enum ModeModel {
    /// Reduce this tree.
    Eval(Ast),
    /// Hand this value to the innermost frame.
    Return(u64),
    /// Wait for the result of this request.
    Await(RequestModel),
    /// Nothing: the evaluation has ended with this value.
    Done(u64),
    /// Nothing: the evaluation has failed.
    Failed(EvalErrorModel),
}

/// The state of the machine. The innermost scope and the innermost frame
/// stand last.
#[verifier::ext_equal]
pub struct Machine {
    pub scopes: Seq<Map<Seq<char>, u64>>,
    pub functions: Map<Seq<char>, FunctionModel>,
    pub frames: Seq<FrameModel>,
    pub mode: ModeModel,
    pub last_result: u64,
}

/// The value of `name`: that of the innermost scope that binds it.
pub open spec fn lookup(scopes: Seq<Map<Seq<char>, u64>>, name: Seq<char>) -> Option<u64>
    decreases scopes.len(),
{
    if scopes.len() == 0 {
        None
    } else if scopes.last().contains_key(name) {
        Some(scopes.last()[name])
    } else {
        lookup(scopes.drop_last(), name)
    }
}

/// The scopes with `name` bound to `value` in the innermost one.
pub open spec fn bind(scopes: Seq<Map<Seq<char>, u64>>, name: Seq<char>, value: u64) -> Seq<
    Map<Seq<char>, u64>,
> {
    if scopes.len() == 0 {
        scopes
    } else {
        scopes.update(scopes.len() - 1, scopes.last().insert(name, value))
    }
}

/// The scopes with a new, empty scope inside.
pub open spec fn enter(scopes: Seq<Map<Seq<char>, u64>>) -> Seq<Map<Seq<char>, u64>> {
    scopes.push(Map::empty())
}

/// The scopes without the innermost one. The outermost scope stays.
pub open spec fn leave(scopes: Seq<Map<Seq<char>, u64>>) -> Seq<Map<Seq<char>, u64>> {
    if scopes.len() > 1 {
        scopes.drop_last()
    } else {
        scopes
    }
}

/// The first `n` parameters bound to the values of their arguments, the
/// parameters taken in order, so that of two with one name the later one
/// stays.
pub open spec fn bind_first(params: Seq<Seq<char>>, values: Seq<u64>, n: nat) -> Map<
    Seq<char>,
    u64,
>
    decreases n,
{
    if n == 0 {
        Map::empty()
    } else {
        bind_first(params, values, (n - 1) as nat).insert(params[n - 1], values[n - 1])
    }
}

/// The scope of a call: each parameter bound to the value of its argument.
pub open spec fn bind_all(params: Seq<Seq<char>>, values: Seq<u64>) -> Map<Seq<char>, u64> {
    bind_first(
        params,
        values,
        if params.len() <= values.len() {
            params.len()
        } else {
            values.len()
        },
    )
}

impl Machine {
    /// There is a scope: the outermost one is never left.
    pub open spec fn wf(self) -> bool {
        self.scopes.len() >= 1
    }

    /// A machine that has nothing to do, with one empty scope and no
    /// functions.
    pub open spec fn initial() -> Machine {
        Machine {
            scopes: seq![Map::empty()],
            functions: Map::empty(),
            frames: Seq::empty(),
            mode: ModeModel::Done(ZERO),
            last_result: ZERO,
        }
    }

    /// The machine stopped by the failure `error`.
    pub open spec fn fail(self, error: EvalErrorModel) -> (Machine, ActionModel) {
        (Machine { mode: ModeModel::Failed(error), ..self }, ActionModel::Fail(error))
    }

    /// The machine waiting for the result of `request`.
    pub open spec fn ask(self, request: RequestModel) -> (Machine, ActionModel) {
        (Machine { mode: ModeModel::Await(request), ..self }, ActionModel::Compute(request))
    }

    /// The machine about to reduce `expr`.
    pub open spec fn descend(self, expr: Ast) -> (Machine, ActionModel) {
        (Machine { mode: ModeModel::Eval(expr), ..self }, ActionModel::Continue)
    }

    /// The machine about to hand `value` to the innermost frame.
    pub open spec fn produce(self, value: u64) -> (Machine, ActionModel) {
        (Machine { mode: ModeModel::Return(value), ..self }, ActionModel::Continue)
    }

    /// The machine with `frame` as the innermost frame.
    pub open spec fn push(self, frame: FrameModel) -> Machine {
        Machine { frames: self.frames.push(frame), ..self }
    }

    /// The machine set to evaluate the statements `program`: whatever it was
    /// doing is dropped, every scope but the outermost is left, and the last
    /// result is zero. The bindings of the outermost scope and the functions
    /// stay.
    pub open spec fn load(self, program: Seq<Ast>) -> Machine {
        if program.len() == 0 {
            Machine {
                scopes: self.scopes.take(1),
                functions: self.functions,
                frames: Seq::empty(),
                mode: ModeModel::Done(ZERO),
                last_result: ZERO,
            }
        } else {
            Machine {
                scopes: self.scopes.take(1),
                functions: self.functions,
                frames: seq![FrameModel::Statements(program.drop_first())],
                mode: ModeModel::Eval(program[0]),
                last_result: ZERO,
            }
        }
    }

    /// One reduction of the node `expr`.
    ///
    /// - A literal asks for its value.
    /// - A name gives the value of its innermost binding, and fails where
    ///   there is none.
    /// - An operator awaits its operands, the left one first.
    /// - An assignment awaits the value to bind.
    /// - A block enters a scope and awaits its first statement; an empty
    ///   block gives zero.
    /// - A declaration enters the function in the table, over an earlier one
    ///   of that name, and gives zero.
    /// - A call fails where the function is unknown or the number of
    ///   arguments is not the number of parameters. It awaits its arguments
    ///   in order, in the caller's scopes; without arguments it enters the
    ///   scope of the call and awaits the body.
    pub open spec fn reduce(self, expr: Ast) -> (Machine, ActionModel) {
        match expr {
            Ast::Number(numeral) => self.ask(RequestModel::Literal(numeral)),
            Ast::Variable(name) => match lookup(self.scopes, name) {
                Some(value) => self.produce(value),
                None => self.fail(EvalErrorModel::UndeclaredVariable(name)),
            },
            Ast::BinaryOp(left, op, right) => self.push(FrameModel::BinaryLeft(op, *right)).descend(
                *left,
            ),
            Ast::UnaryOp(operand, op) => self.push(FrameModel::Unary(op)).descend(*operand),
            Ast::Assignment(value, name) => self.push(FrameModel::Bind(name)).descend(*value),
            Ast::ScopeExp(body) => if body.len() == 0 {
                self.produce(ZERO)
            } else {
                Machine { scopes: enter(self.scopes), ..self }.push(
                    FrameModel::Block(body.drop_first()),
                ).descend(body[0])
            },
            Ast::Function(name, params, body) => Machine {
                functions: self.functions.insert(name, FunctionModel { params, body: *body }),
                ..self
            }.produce(ZERO),
            Ast::FunctionCall(name, args) => if !self.functions.contains_key(name) {
                self.fail(EvalErrorModel::UndefinedFunction(name))
            } else {
                let function = self.functions[name];
                if function.params.len() != args.len() {
                    self.fail(
                        EvalErrorModel::ArityMismatch {
                            name,
                            expected: function.params.len(),
                            found: args.len(),
                        },
                    )
                } else if args.len() == 0 {
                    Machine { scopes: enter(self.scopes), ..self }.push(FrameModel::Leave).descend(
                        function.body,
                    )
                } else {
                    self.push(
                        FrameModel::Arguments {
                            params: function.params,
                            body: function.body,
                            pending: args.drop_first(),
                            values: Seq::empty(),
                        },
                    ).descend(args[0])
                }
            },
        }
    }

    /// The value `value` handed to the innermost frame.
    ///
    /// - Without a frame the evaluation ends with `value`.
    /// - An operator goes on to its right operand, or asks for its result.
    ///   A division by a zero fails. An operator that the evaluator does not
    ///   know gives zero.
    /// - An assignment binds its name in the innermost scope and gives zero.
    /// - A block goes on to its next statement; behind the last one it
    ///   leaves its scope and gives the value of that statement.
    /// - A call goes on to its next argument; behind the last one it enters
    ///   a scope that binds the parameters and awaits the body. Behind the
    ///   body it leaves that scope and gives the body's value.
    /// - The program keeps `value` as its last result unless it is a zero,
    ///   and goes on to its next statement; behind the last one it ends with
    ///   the last result.
    pub open spec fn deliver(self, value: u64) -> (Machine, ActionModel) {
        if self.frames.len() == 0 {
            (Machine { mode: ModeModel::Done(value), ..self }, ActionModel::Done(value))
        } else {
            let rest = Machine { frames: self.frames.drop_last(), ..self };
            match self.frames.last() {
                FrameModel::BinaryLeft(op, right) => rest.push(
                    FrameModel::BinaryRight(op, value),
                ).descend(right),
                FrameModel::BinaryRight(op, left) => if !is_binary(op) {
                    rest.produce(ZERO)
                } else if op == Operations::DIVIDE && is_zero(value) {
                    rest.fail(EvalErrorModel::DivisionByZero)
                } else {
                    rest.ask(RequestModel::Binary(op, left, value))
                },
                FrameModel::Unary(op) => if is_unary(op) {
                    rest.ask(RequestModel::Unary(op, value))
                } else {
                    rest.produce(ZERO)
                },
                FrameModel::Bind(name) => Machine {
                    scopes: bind(rest.scopes, name, value),
                    ..rest
                }.produce(ZERO),
                FrameModel::Block(following) => if following.len() == 0 {
                    Machine { scopes: leave(rest.scopes), ..rest }.produce(value)
                } else {
                    rest.push(FrameModel::Block(following.drop_first())).descend(following[0])
                },
                FrameModel::Arguments { params, body, pending, values } => if pending.len() == 0 {
                    Machine {
                        scopes: rest.scopes.push(bind_all(params, values.push(value))),
                        ..rest
                    }.push(FrameModel::Leave).descend(body)
                } else {
                    rest.push(
                        FrameModel::Arguments {
                            params,
                            body,
                            pending: pending.drop_first(),
                            values: values.push(value),
                        },
                    ).descend(pending[0])
                },
                FrameModel::Leave => Machine { scopes: leave(rest.scopes), ..rest }.produce(value),
                FrameModel::Statements(following) => {
                    let last = if is_zero(value) {
                        rest.last_result
                    } else {
                        value
                    };
                    let kept = Machine { last_result: last, ..rest };
                    if following.len() == 0 {
                        (Machine { mode: ModeModel::Done(last), ..kept }, ActionModel::Done(last))
                    } else {
                        kept.push(FrameModel::Statements(following.drop_first())).descend(
                            following[0],
                        )
                    }
                },
            }
        }
    }

    /// One step of the machine. `reply` is the result of the request that
    /// the step before made, if it made one; it is looked at only where the
    /// machine waits for one, and a machine that waits and gets none asks
    /// again.
    pub open spec fn step(self, reply: Option<u64>) -> (Machine, ActionModel) {
        match self.mode {
            ModeModel::Eval(expr) => self.reduce(expr),
            ModeModel::Return(value) => self.deliver(value),
            ModeModel::Await(request) => match reply {
                Some(value) => self.produce(value),
                None => (self, ActionModel::Compute(request)),
            },
            ModeModel::Done(value) => (self, ActionModel::Done(value)),
            ModeModel::Failed(error) => (self, ActionModel::Fail(error)),
        }
    }
}

} // verus!
