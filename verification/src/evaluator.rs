//! The evaluator: the abstract machine of [`crate::machine`] in executable
//! form.

use vstd::prelude::*;
use crate::ast::{
    boxed_trees_of, duplicate_names, lemma_model_of_lists, names_of, trees_of, Ast, Expr,
};
use crate::machine::{
    bind, bind_all, bind_first, enter, is_binary, is_unary, is_zero, leave, lookup, ActionModel,
    EvalErrorModel, FrameModel, FunctionModel, Machine, ModeModel, RequestModel, ZERO,
};
use crate::table::Table;
use crate::token::{Numeral, Operations};

verus! {

/// Arithmetic that the evaluator asks its caller for.
#[derive(Debug, PartialEq, Eq)]
pub enum Request {
    /// The value of a literal.
    Literal(Numeral),
    /// The operator applied to one value.
    Unary(Operations, u64),
    /// The operator applied to a left and a right value.
    Binary(Operations, u64, u64),
}

impl View for Request {
    type V = RequestModel;

    open spec fn view(&self) -> RequestModel {
        match self {
            Request::Literal(numeral) => RequestModel::Literal(numeral@),
            Request::Unary(op, value) => RequestModel::Unary(*op, *value),
            Request::Binary(op, left, right) => RequestModel::Binary(*op, *left, *right),
        }
    }
}

impl Clone for Request {
    fn clone(&self) -> (copy: Request)
        ensures
            copy@ == self@,
    {
        match self {
            Request::Literal(numeral) => Request::Literal(numeral.clone()),
            Request::Unary(op, value) => Request::Unary(*op, *value),
            Request::Binary(op, left, right) => Request::Binary(*op, *left, *right),
        }
    }
}

/// A failure that ends the evaluation.
#[derive(Debug, PartialEq, Eq)]
pub enum EvalError {
    /// A name was read that no scope binds.
    UndeclaredVariable(String),
    /// A function was called that was never declared.
    UndefinedFunction(String),
    /// A function was called with the wrong number of arguments.
    ArityMismatch { name: String, expected: usize, found: usize },
    /// The right operand of a division was zero.
    DivisionByZero,
}

impl View for EvalError {
    type V = EvalErrorModel;

    open spec fn view(&self) -> EvalErrorModel {
        match self {
            EvalError::UndeclaredVariable(name) => EvalErrorModel::UndeclaredVariable(name@),
            EvalError::UndefinedFunction(name) => EvalErrorModel::UndefinedFunction(name@),
            EvalError::ArityMismatch { name, expected, found } => EvalErrorModel::ArityMismatch {
                name: name@,
                expected: *expected as nat,
                found: *found as nat,
            },
            EvalError::DivisionByZero => EvalErrorModel::DivisionByZero,
        }
    }
}

impl Clone for EvalError {
    fn clone(&self) -> (copy: EvalError)
        ensures
            copy@ == self@,
    {
        match self {
            EvalError::UndeclaredVariable(name) => EvalError::UndeclaredVariable(name.clone()),
            EvalError::UndefinedFunction(name) => EvalError::UndefinedFunction(name.clone()),
            EvalError::ArityMismatch { name, expected, found } => EvalError::ArityMismatch {
                name: name.clone(),
                expected: *expected,
                found: *found,
            },
            EvalError::DivisionByZero => EvalError::DivisionByZero,
        }
    }
}

impl EvalError {
    /// The error in words.
    pub fn message(&self) -> (text: String)
        ensures
            text@ == self@.text(),
    {
        match self {
            EvalError::UndeclaredVariable(name) => "Undeclared Variable: ".to_owned().concat(
                name.as_str(),
            ),
            EvalError::UndefinedFunction(name) => "Undefined Function: ".to_owned().concat(
                name.as_str(),
            ),
            EvalError::ArityMismatch { name, .. } => "Function ".to_owned().concat(
                name.as_str(),
            ).concat(" called with wrong # of params"),
            EvalError::DivisionByZero => "Division by zero".to_owned(),
        }
    }
}

/// What a step of the evaluator tells its caller.
#[derive(Debug, PartialEq, Eq)]
pub enum Action {
    /// Nothing is needed: take the next step.
    Continue,
    /// Compute this, and hand the result to the next step.
    Compute(Request),
    /// The evaluation has ended with this value.
    Done(u64),
    /// The evaluation has failed.
    Fail(EvalError),
}

impl View for Action {
    type V = ActionModel;

    open spec fn view(&self) -> ActionModel {
        match self {
            Action::Continue => ActionModel::Continue,
            Action::Compute(request) => ActionModel::Compute(request@),
            Action::Done(value) => ActionModel::Done(*value),
            Action::Fail(error) => ActionModel::Fail(error@),
        }
    }
}

/// A declared function.
pub struct Function {
    pub params: Vec<String>,
    pub body: Expr,
}

impl DeepView for Function {
    type V = FunctionModel;

    open spec fn deep_view(&self) -> FunctionModel {
        FunctionModel { params: names_of(self.params@), body: self.body@ }
    }
}

/// The models of trees that stand in the order opposite to that in which
/// they are wanted: the last tree's model comes first.
pub open spec fn reversed_trees_of(exprs: Seq<Expr>) -> Seq<Ast> {
    Seq::new(exprs.len(), |i: int| exprs[exprs.len() - 1 - i]@)
}

/// A node whose value is awaited. Lists of trees still to be evaluated stand
/// with the next one last.
pub enum Frame {
    BinaryLeft(Operations, Expr),
    BinaryRight(Operations, u64),
    Unary(Operations),
    Bind(String),
    Block(Vec<Expr>),
    Arguments { params: Vec<String>, body: Expr, pending: Vec<Expr>, values: Vec<u64> },
    Leave,
    Statements(Vec<Expr>),
}

impl View for Frame {
    type V = FrameModel;

    open spec fn view(&self) -> FrameModel {
        match self {
            Frame::BinaryLeft(op, right) => FrameModel::BinaryLeft(*op, right@),
            Frame::BinaryRight(op, left) => FrameModel::BinaryRight(*op, *left),
            Frame::Unary(op) => FrameModel::Unary(*op),
            Frame::Bind(name) => FrameModel::Bind(name@),
            Frame::Block(following) => FrameModel::Block(reversed_trees_of(following@)),
            Frame::Arguments { params, body, pending, values } => FrameModel::Arguments {
                params: names_of(params@),
                body: body@,
                pending: reversed_trees_of(pending@),
                values: values@,
            },
            Frame::Leave => FrameModel::Leave,
            Frame::Statements(following) => FrameModel::Statements(reversed_trees_of(following@)),
        }
    }
}

/// What the evaluator is about to do.
pub enum Mode {
    Eval(Expr),
    Return(u64),
    Await(Request),
    Done(u64),
    Failed(EvalError),
}

impl View for Mode {
    type V = ModeModel;

    open spec fn view(&self) -> ModeModel {
        match self {
            Mode::Eval(expr) => ModeModel::Eval(expr@),
            Mode::Return(value) => ModeModel::Return(*value),
            Mode::Await(request) => ModeModel::Await(request@),
            Mode::Done(value) => ModeModel::Done(*value),
            Mode::Failed(error) => ModeModel::Failed(error@),
        }
    }
}

/// The models of a stack of scopes.
pub open spec fn scopes_of(scopes: Seq<Table<u64>>) -> Seq<Map<Seq<char>, u64>> {
    Seq::new(scopes.len(), |i: int| scopes[i].model())
}

/// The models of a stack of frames.
pub open spec fn frames_of(frames: Seq<Frame>) -> Seq<FrameModel> {
    Seq::new(frames.len(), |i: int| frames[i]@)
}

/// Takes the first tree out of a list and stacks the others, the second one
/// last.
pub fn unstack(list: Vec<Expr>) -> (r: (Expr, Vec<Expr>))
    requires
        list.len() > 0,
    ensures
        r.0@ == trees_of(list@)[0],
        reversed_trees_of(r.1@) == trees_of(list@).drop_first(),
{
    let ghost all = list@;
    let mut list = list;
    let mut stack: Vec<Expr> = Vec::new();
    while list.len() > 1
        invariant
            1 <= list.len() <= all.len(),
            list@ == all.take(list.len() as int),
            stack.len() == all.len() - list.len(),
            forall|j: int| 0 <= j < stack.len() ==> stack@[j] == all[all.len() - 1 - j],
        decreases list.len(),
    {
        let ghost before = list@;
        match list.pop() {
            Some(expr) => {
                stack.push(expr);
                assert(list@ =~= all.take(list.len() as int));
            },
            None => {},
        }
    }
    let first = list.pop().unwrap();
    assert(reversed_trees_of(stack@) =~= trees_of(all).drop_first());
    (first, stack)
}

/// Takes the first tree out of a list of boxed trees and stacks the others,
/// the second one last.
pub fn unstack_boxed(list: Vec<Box<Expr>>) -> (r: (Expr, Vec<Expr>))
    requires
        list.len() > 0,
    ensures
        r.0@ == boxed_trees_of(list@)[0],
        reversed_trees_of(r.1@) == boxed_trees_of(list@).drop_first(),
{
    let ghost all = list@;
    let mut list = list;
    let mut stack: Vec<Expr> = Vec::new();
    while list.len() > 1
        invariant
            1 <= list.len() <= all.len(),
            list@ == all.take(list.len() as int),
            stack.len() == all.len() - list.len(),
            forall|j: int| 0 <= j < stack.len() ==> stack@[j] == *all[all.len() - 1 - j],
        decreases list.len(),
    {
        match list.pop() {
            Some(expr) => {
                stack.push(*expr);
                assert(list@ =~= all.take(list.len() as int));
            },
            None => {},
        }
    }
    let first = list.pop().unwrap();
    assert(reversed_trees_of(stack@) =~= boxed_trees_of(all).drop_first());
    (*first, stack)
}

/// Whether `value` is one of the two zeros.
pub fn zero(value: u64) -> (r: bool)
    ensures
        r == is_zero(value),
{
    value == 0 || value == 0x8000_0000_0000_0000
}

/// Whether `op` is an operator of two operands that the evaluator knows.
pub fn binary(op: Operations) -> (r: bool)
    ensures
        r == is_binary(op),
{
    match op {
        Operations::ADD
        | Operations::MINUS
        | Operations::POWER
        | Operations::DIVIDE
        | Operations::MULTIPLY
        | Operations::FNLOG
        | Operations::FNMOD => true,
        _ => false,
    }
}

/// Whether `op` is an operator of one operand that the evaluator knows.
pub fn unary(op: Operations) -> (r: bool)
    ensures
        r == is_unary(op),
{
    match op {
        Operations::FNCOS
        | Operations::FNSIN
        | Operations::FNTAN
        | Operations::FNFACT
        | Operations::MINUS
        | Operations::NOT
        | Operations::FNABS
        | Operations::FNSQRT
        | Operations::FNEXP
        | Operations::FNASIN
        | Operations::FNACOS
        | Operations::FNATAN
        | Operations::FNSINH
        | Operations::FNCOSH
        | Operations::FNTANH
        | Operations::FNFLOOR
        | Operations::FNCEIL
        | Operations::FNROUND => true,
        _ => false,
    }
}

/// The scope of a call: each parameter bound to the value of its argument.
pub fn bind_parameters(params: &Vec<String>, values: &Vec<u64>) -> (scope: Table<u64>)
    ensures
        scope.wf(),
        scope.model() == bind_all(names_of(params@), values@),
{
    let n = if params.len() <= values.len() {
        params.len()
    } else {
        values.len()
    };
    let mut scope: Table<u64> = Table::new();
    let mut i: usize = 0;
    while i < n
        invariant
            0 <= i <= n,
            n <= params.len(),
            n <= values.len(),
            scope.wf(),
            scope.model() == bind_first(names_of(params@), values@, i as nat),
        decreases n - i,
    {
        scope.insert(params[i].clone(), values[i]);
        i += 1;
    }
    scope
}

/// The state of an evaluation: the scopes, the functions declared, and the
/// work that is left.
pub struct Evaluator {
    scopes: Vec<Table<u64>>,
    functions: Table<Function>,
    frames: Vec<Frame>,
    mode: Mode,
    last_result: u64,
}

impl View for Evaluator {
    type V = Machine;

    closed spec fn view(&self) -> Machine {
        Machine {
            scopes: scopes_of(self.scopes@),
            functions: self.functions.model(),
            frames: frames_of(self.frames@),
            mode: self.mode@,
            last_result: self.last_result,
        }
    }
}

impl Evaluator {
    /// There is a scope, and no table binds a name twice.
    pub closed spec fn wf(&self) -> bool {
        &&& self.scopes.len() >= 1
        &&& forall|i: int| 0 <= i < self.scopes.len() ==> (#[trigger] self.scopes@[i]).wf()
        &&& self.functions.wf()
    }

    /// A well-formed evaluator has a scope.
    pub proof fn lemma_has_a_scope(&self)
        requires
            self.wf(),
        ensures
            self@.wf(),
    {
    }

    /// An evaluator with one empty scope and no functions, and nothing to
    /// do.
    pub fn new() -> (evaluator: Self)
        ensures
            evaluator.wf(),
            evaluator@ == Machine::initial(),
    {
        let mut scopes: Vec<Table<u64>> = Vec::new();
        scopes.push(Table::new());
        let evaluator = Evaluator {
            scopes,
            functions: Table::new(),
            frames: Vec::new(),
            mode: Mode::Done(ZERO),
            last_result: ZERO,
        };
        proof {
            assert(evaluator@.scopes =~= Machine::initial().scopes);
            assert(evaluator@.frames =~= Machine::initial().frames);
        }
        evaluator
    }

    /// Enters a new, empty scope.
    fn enter_scope(&mut self)
        requires
            old(self).wf(),
        ensures
            final(self).wf(),
            final(self)@ == (Machine { scopes: enter(old(self)@.scopes), ..old(self)@ }),
    {
        self.scopes.push(Table::new());
        proof {
            assert(self@.scopes =~= enter(old(self)@.scopes));
        }
    }

    /// Leaves the innermost scope, unless it is the only one.
    fn exit_scope(&mut self)
        requires
            old(self).wf(),
        ensures
            final(self).wf(),
            final(self)@ == (Machine { scopes: leave(old(self)@.scopes), ..old(self)@ }),
    {
        if self.scopes.len() > 1 {
            self.scopes.pop();
        }
        proof {
            assert(self@.scopes =~= leave(old(self)@.scopes));
        }
    }

    /// The value of `id`: that of the innermost scope that binds it.
    fn get_variable(&self, id: &String) -> (r: Option<u64>)
        requires
            self.wf(),
        ensures
            r == lookup(self@.scopes, id@),
    {
        let ghost scopes = self@.scopes;
        let mut i: usize = self.scopes.len();
        assert(scopes.take(i as int) =~= scopes);
        while i > 0
            invariant
                self.wf(),
                scopes == self@.scopes,
                0 <= i <= self.scopes.len(),
                lookup(scopes, id@) == lookup(scopes.take(i as int), id@),
            decreases i,
        {
            i -= 1;
            proof {
                assert(scopes.take(i + 1).last() == self.scopes@[i as int].model());
                assert(scopes.take(i + 1).drop_last() =~= scopes.take(i as int));
            }
            match self.scopes[i].get(id) {
                Some(value) => {
                    return Some(*value);
                },
                None => {},
            }
        }
        None
    }

    /// Binds `id` to `value` in the innermost scope.
    fn set_variable(&mut self, id: String, value: u64)
        requires
            old(self).wf(),
        ensures
            final(self).wf(),
            final(self)@ == (Machine { scopes: bind(old(self)@.scopes, id@, value), ..old(self)@ }),
    {
        match self.scopes.pop() {
            Some(scope) => {
                let mut scope = scope;
                scope.insert(id, value);
                self.scopes.push(scope);
                proof {
                    assert(self@.scopes =~= bind(old(self)@.scopes, id@, value));
                }
            },
            None => {},
        }
    }

    /// Puts `frame` on the stack of frames.
    fn push_frame(&mut self, frame: Frame)
        requires
            old(self).wf(),
        ensures
            final(self).wf(),
            final(self)@ == old(self)@.push(frame@),
    {
        self.frames.push(frame);
        proof {
            assert(self@.frames =~= old(self)@.frames.push(frame@));
        }
    }

    /// Stops with the failure `error`.
    fn fail(&mut self, error: EvalError) -> (action: Action)
        requires
            old(self).wf(),
        ensures
            final(self).wf(),
            final(self)@ == old(self)@.fail(error@).0,
            action@ == old(self)@.fail(error@).1,
    {
        let action = Action::Fail(error.clone());
        self.mode = Mode::Failed(error);
        action
    }

    /// Stops to wait for the result of `request`.
    fn ask(&mut self, request: Request) -> (action: Action)
        requires
            old(self).wf(),
        ensures
            final(self).wf(),
            final(self)@ == old(self)@.ask(request@).0,
            action@ == old(self)@.ask(request@).1,
    {
        let action = Action::Compute(request.clone());
        self.mode = Mode::Await(request);
        action
    }

    /// Goes on to reduce `expr`.
    fn descend(&mut self, expr: Expr) -> (action: Action)
        requires
            old(self).wf(),
        ensures
            final(self).wf(),
            final(self)@ == old(self)@.descend(expr@).0,
            action@ == old(self)@.descend(expr@).1,
    {
        self.mode = Mode::Eval(expr);
        Action::Continue
    }

    /// Goes on to hand `value` to the innermost frame.
    fn produce(&mut self, value: u64) -> (action: Action)
        requires
            old(self).wf(),
        ensures
            final(self).wf(),
            final(self)@ == old(self)@.produce(value).0,
            action@ == old(self)@.produce(value).1,
    {
        self.mode = Mode::Return(value);
        Action::Continue
    }
}

impl Evaluator {
    /// Sets the evaluator to evaluate the statements `exprs`, in order.
    /// Whatever it was doing is dropped and every scope but the outermost is
    /// left; the bindings of the outermost scope and the functions stay.
    pub fn evaluate(&mut self, exprs: &[Expr])
        requires
            old(self).wf(),
        ensures
            final(self).wf(),
            final(self)@ == old(self)@.load(trees_of(exprs@)),
    {
        let mut copy: Vec<Expr> = Vec::new();
        let mut i: usize = 0;
        while i < exprs.len()
            invariant
                0 <= i <= exprs.len(),
                copy.len() == i,
                forall|j: int| 0 <= j < i ==> copy@[j]@ == exprs@[j]@,
            decreases exprs.len() - i,
        {
            copy.push(exprs[i].duplicate());
            i += 1;
        }
        assert(trees_of(copy@) =~= trees_of(exprs@));
        self.scopes.truncate(1);
        self.frames.clear();
        self.last_result = ZERO;
        proof {
            assert(self@.scopes =~= old(self)@.scopes.take(1));
        }
        if copy.len() == 0 {
            self.mode = Mode::Done(ZERO);
            proof {
                assert(self@.frames =~= Seq::<FrameModel>::empty());
            }
        } else {
            let (first, following) = unstack(copy);
            let frame = Frame::Statements(following);
            self.frames.push(frame);
            self.mode = Mode::Eval(first);
            proof {
                assert(self@.frames =~= seq![frame@]);
            }
        }
    }

    /// Takes one reduction of the node `expr`, in place of whatever the
    /// evaluator was about to do.
    pub fn eval(&mut self, expr: &Expr) -> (action: Action)
        requires
            old(self).wf(),
        ensures
            final(self).wf(),
            final(self)@ == old(self)@.reduce(expr@).0,
            action@ == old(self)@.reduce(expr@).1,
    {
        self.reduce(expr.duplicate())
    }

    /// Takes one reduction of the node `expr`.
    fn reduce(&mut self, expr: Expr) -> (action: Action)
        requires
            old(self).wf(),
        ensures
            final(self).wf(),
            final(self)@ == old(self)@.reduce(expr@).0,
            action@ == old(self)@.reduce(expr@).1,
    {
        proof {
            lemma_model_of_lists(expr);
        }
        match expr {
            Expr::Number(arb_val) => self.ask(Request::Literal(arb_val)),
            Expr::Variable(id) => match self.get_variable(&id) {
                Some(value) => self.produce(value),
                None => self.fail(EvalError::UndeclaredVariable(id)),
            },
            Expr::BinaryOp(left, op, right) => {
                self.push_frame(Frame::BinaryLeft(op, *right));
                self.descend(*left)
            },
            Expr::UnaryOp(operand, op) => {
                self.push_frame(Frame::Unary(op));
                self.descend(*operand)
            },
            Expr::Assignment(value, id) => {
                self.push_frame(Frame::Bind(id));
                self.descend(*value)
            },
            Expr::ScopeExp(exprs) => {
                if exprs.len() == 0 {
                    self.produce(ZERO)
                } else {
                    let (first, following) = unstack(exprs);
                    self.enter_scope();
                    self.push_frame(Frame::Block(following));
                    self.descend(first)
                }
            },
            Expr::Function(fn_name, params, body) => {
                let function = Function { params, body: *body };
                self.functions.insert(fn_name, function);
                self.produce(ZERO)
            },
            Expr::FunctionCall(name, args) => {
                let found = match self.functions.get(&name) {
                    Some(function) => Some(
                        (duplicate_names(&function.params), function.body.duplicate()),
                    ),
                    None => None,
                };
                match found {
                    None => self.fail(EvalError::UndefinedFunction(name)),
                    Some((param_names, body)) => {
                        if param_names.len() != args.len() {
                            self.fail(
                                EvalError::ArityMismatch {
                                    name,
                                    expected: param_names.len(),
                                    found: args.len(),
                                },
                            )
                        } else if args.len() == 0 {
                            self.enter_scope();
                            self.push_frame(Frame::Leave);
                            self.descend(body)
                        } else {
                            let (first, pending) = unstack_boxed(args);
                            self.push_frame(
                                Frame::Arguments {
                                    params: param_names,
                                    body,
                                    pending,
                                    values: Vec::new(),
                                },
                            );
                            self.descend(first)
                        }
                    },
                }
            },
        }
    }

    /// Hands `value` to the innermost frame.
    fn deliver(&mut self, value: u64) -> (action: Action)
        requires
            old(self).wf(),
        ensures
            final(self).wf(),
            final(self)@ == old(self)@.deliver(value).0,
            action@ == old(self)@.deliver(value).1,
    {
        match self.frames.pop() {
            None => {
                self.mode = Mode::Done(value);
                Action::Done(value)
            },
            Some(frame) => {
                proof {
                    assert(self@.frames =~= old(self)@.frames.drop_last());
                    assert(frame@ == old(self)@.frames.last());
                }
                match frame {
                    Frame::BinaryLeft(op, right) => {
                        self.push_frame(Frame::BinaryRight(op, value));
                        self.descend(right)
                    },
                    Frame::BinaryRight(op, left) => {
                        if !binary(op) {
                            self.produce(ZERO)
                        } else if op == Operations::DIVIDE && zero(value) {
                            self.fail(EvalError::DivisionByZero)
                        } else {
                            self.ask(Request::Binary(op, left, value))
                        }
                    },
                    Frame::Unary(op) => {
                        if unary(op) {
                            self.ask(Request::Unary(op, value))
                        } else {
                            self.produce(ZERO)
                        }
                    },
                    Frame::Bind(id) => {
                        self.set_variable(id, value);
                        self.produce(ZERO)
                    },
                    Frame::Block(following) => {
                        let mut following = following;
                        let ghost listed = reversed_trees_of(following@);
                        match following.pop() {
                            None => {
                                self.exit_scope();
                                self.produce(value)
                            },
                            Some(next) => {
                                proof {
                                    assert(reversed_trees_of(following@) =~= listed.drop_first());
                                }
                                self.push_frame(Frame::Block(following));
                                self.descend(next)
                            },
                        }
                    },
                    Frame::Arguments { params, body, pending, values } => {
                        let mut pending = pending;
                        let mut values = values;
                        let ghost listed = reversed_trees_of(pending@);
                        values.push(value);
                        match pending.pop() {
                            None => {
                                let scope = bind_parameters(&params, &values);
                                self.scopes.push(scope);
                                proof {
                                    assert(self@.scopes =~= old(self)@.scopes.push(scope.model()));
                                }
                                self.push_frame(Frame::Leave);
                                self.descend(body)
                            },
                            Some(next) => {
                                proof {
                                    assert(reversed_trees_of(pending@) =~= listed.drop_first());
                                }
                                self.push_frame(Frame::Arguments { params, body, pending, values });
                                self.descend(next)
                            },
                        }
                    },
                    Frame::Leave => {
                        self.exit_scope();
                        self.produce(value)
                    },
                    Frame::Statements(following) => {
                        let mut following = following;
                        let ghost listed = reversed_trees_of(following@);
                        if !zero(value) {
                            self.last_result = value;
                        }
                        match following.pop() {
                            None => {
                                self.mode = Mode::Done(self.last_result);
                                Action::Done(self.last_result)
                            },
                            Some(next) => {
                                proof {
                                    assert(reversed_trees_of(following@) =~= listed.drop_first());
                                }
                                self.push_frame(Frame::Statements(following));
                                self.descend(next)
                            },
                        }
                    },
                }
            },
        }
    }

    /// Takes one step. `reply` is the result of the request that the step
    /// before made, if it made one.
    pub fn step(&mut self, reply: Option<u64>) -> (action: Action)
        requires
            old(self).wf(),
        ensures
            final(self).wf(),
            final(self)@ == old(self)@.step(reply).0,
            action@ == old(self)@.step(reply).1,
    {
        let mut mode = Mode::Done(ZERO);
        core::mem::swap(&mut self.mode, &mut mode);
        match mode {
            Mode::Eval(expr) => self.reduce(expr),
            Mode::Return(value) => self.deliver(value),
            Mode::Await(request) => match reply {
                Some(value) => self.produce(value),
                None => self.ask(request),
            },
            Mode::Done(value) => {
                self.mode = Mode::Done(value);
                Action::Done(value)
            },
            Mode::Failed(error) => self.fail(error),
        }
    }
}

} // verus!
