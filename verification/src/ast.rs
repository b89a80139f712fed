//! Expression trees and their mathematical model.

use vstd::prelude::*;
use crate::token::{Numeral, NumeralModel, Operations};

verus! {

/// A node of the syntax tree. Each node owns its children.
#[derive(Debug, PartialEq, Eq)]
pub enum Expr {
    /// A literal.
    Number(Numeral),
    /// A reference to a bound name.
    Variable(String),
    /// Left operand, operator, right operand.
    BinaryOp(Box<Expr>, Operations, Box<Expr>),
    /// Operand, operator.
    UnaryOp(Box<Expr>, Operations),
    /// The value to bind, and the name to bind it to.
    Assignment(Box<Expr>, String),
    /// A block of statements with a scope of its own.
    ScopeExp(Vec<Expr>),
    /// The declaration of a function: name, parameter names, body.
    Function(String, Vec<String>, Box<Expr>),
    /// The call of a function: name, arguments.
    FunctionCall(String, Vec<Box<Expr>>),
}

/// Model of an [`Expr`]: the same tree over sequences of characters.
pub enum Ast {
    Number(NumeralModel),
    Variable(Seq<char>),
    BinaryOp(Box<Ast>, Operations, Box<Ast>),
    UnaryOp(Box<Ast>, Operations),
    Assignment(Box<Ast>, Seq<char>),
    ScopeExp(Seq<Ast>),
    Function(Seq<char>, Seq<Seq<char>>, Box<Ast>),
    FunctionCall(Seq<char>, Seq<Ast>),
}

/// The models of a list of names.
pub open spec fn names_of(names: Seq<String>) -> Seq<Seq<char>> {
    Seq::new(names.len(), |i: int| names[i]@)
}

impl Expr {
    /// The model of this tree.
    pub open spec fn model(&self) -> Ast
        decreases self,
    {
        match self {
            Expr::Number(numeral) => Ast::Number(numeral@),
            Expr::Variable(name) => Ast::Variable(name@),
            Expr::BinaryOp(left, op, right) => Ast::BinaryOp(
                Box::new(left.model()),
                *op,
                Box::new(right.model()),
            ),
            Expr::UnaryOp(operand, op) => Ast::UnaryOp(Box::new(operand.model()), *op),
            Expr::Assignment(value, name) => Ast::Assignment(Box::new(value.model()), name@),
            Expr::ScopeExp(body) => Ast::ScopeExp(
                Seq::new(
                    body.len() as nat,
                    |i: int|
                        if 0 <= i < body.len() {
                            body[i].model()
                        } else {
                            Ast::ScopeExp(Seq::empty())
                        },
                ),
            ),
            Expr::Function(name, params, body) => Ast::Function(
                name@,
                names_of(params@),
                Box::new(body.model()),
            ),
            Expr::FunctionCall(name, args) => Ast::FunctionCall(
                name@,
                Seq::new(
                    args.len() as nat,
                    |i: int|
                        if 0 <= i < args.len() {
                            (*args[i]).model()
                        } else {
                            Ast::ScopeExp(Seq::empty())
                        },
                ),
            ),
        }
    }
}

impl DeepView for Expr {
    type V = Ast;

    open spec fn deep_view(&self) -> Ast {
        self.model()
    }
}

impl View for Expr {
    type V = Ast;

    open spec fn view(&self) -> Ast {
        self.model()
    }
}

/// The models of a list of trees.
pub open spec fn trees_of(exprs: Seq<Expr>) -> Seq<Ast> {
    Seq::new(exprs.len(), |i: int| exprs[i]@)
}

/// The models of a list of boxed trees.
pub open spec fn boxed_trees_of(exprs: Seq<Box<Expr>>) -> Seq<Ast> {
    Seq::new(exprs.len(), |i: int| (*exprs[i])@)
}

/// Builds the block node of `body`.
pub fn scope_node(body: Vec<Expr>) -> (node: Expr)
    ensures
        node@ == Ast::ScopeExp(trees_of(body@)),
{
    let node = Expr::ScopeExp(body);
    proof {
        assert(node@->ScopeExp_0 =~= trees_of(body@));
    }
    node
}

/// Builds the call node of `name` with the arguments `args`.
pub fn call_node(name: String, args: Vec<Box<Expr>>) -> (node: Expr)
    ensures
        node@ == Ast::FunctionCall(name@, boxed_trees_of(args@)),
{
    let node = Expr::FunctionCall(name, args);
    proof {
        assert(node@->FunctionCall_1 =~= boxed_trees_of(args@));
    }
    node
}

/// A tree's model, spelled out one level deep for the two kinds of node that
/// hold a list.
pub proof fn lemma_model_of_lists(expr: Expr)
    ensures
        expr matches Expr::ScopeExp(body) ==> expr@ == Ast::ScopeExp(trees_of(body@)),
        expr matches Expr::FunctionCall(name, args) ==> expr@ == Ast::FunctionCall(
            name@,
            boxed_trees_of(args@),
        ),
{
    match expr {
        Expr::ScopeExp(body) => {
            assert(expr@->ScopeExp_0 =~= trees_of(body@));
        },
        Expr::FunctionCall(name, args) => {
            assert(expr@->FunctionCall_1 =~= boxed_trees_of(args@));
        },
        _ => {},
    }
}

/// Copies a list of names.
pub fn duplicate_names(names: &Vec<String>) -> (copy: Vec<String>)
    ensures
        names_of(copy@) == names_of(names@),
{
    let mut copy: Vec<String> = Vec::new();
    let mut i: usize = 0;
    while i < names.len()
        invariant
            0 <= i <= names.len(),
            copy.len() == i,
            forall|j: int| 0 <= j < i ==> copy@[j]@ == names@[j]@,
        decreases names.len() - i,
    {
        copy.push(names[i].clone());
        i += 1;
    }
    assert(names_of(copy@) =~= names_of(names@));
    copy
}

impl Expr {
    /// Copies the tree.
    pub fn duplicate(&self) -> (copy: Expr)
        ensures
            copy@ == self@,
        decreases self,
    {
        match self {
            Expr::Number(numeral) => Expr::Number(numeral.clone()),
            Expr::Variable(name) => Expr::Variable(name.clone()),
            Expr::BinaryOp(left, op, right) => Expr::BinaryOp(
                Box::new(left.duplicate()),
                *op,
                Box::new(right.duplicate()),
            ),
            Expr::UnaryOp(operand, op) => Expr::UnaryOp(Box::new(operand.duplicate()), *op),
            Expr::Assignment(value, name) => Expr::Assignment(
                Box::new(value.duplicate()),
                name.clone(),
            ),
            Expr::ScopeExp(body) => {
                let mut copy: Vec<Expr> = Vec::new();
                let mut i: usize = 0;
                while i < body.len()
                    invariant
                        *self == Expr::ScopeExp(*body),
                        0 <= i <= body.len(),
                        copy.len() == i,
                        forall|j: int| 0 <= j < i ==> copy@[j]@ == body@[j]@,
                    decreases body.len() - i,
                {
                    proof {
                        vstd::std_specs::vec::axiom_vec_index_decreases(*body, i as int);
                        assert(decreases_to!(*body => body[i as int]));
                        assert(decreases_to!(*self => self->ScopeExp_0));
                    }
                    copy.push(body[i].duplicate());
                    i += 1;
                }
                proof {
                    lemma_model_of_lists(*self);
                    assert(trees_of(copy@) =~= trees_of(body@));
                }
                scope_node(copy)
            },
            Expr::Function(name, params, body) => Expr::Function(
                name.clone(),
                duplicate_names(params),
                Box::new(body.duplicate()),
            ),
            Expr::FunctionCall(name, args) => {
                let mut copy: Vec<Box<Expr>> = Vec::new();
                let mut i: usize = 0;
                while i < args.len()
                    invariant
                        *self == Expr::FunctionCall(*name, *args),
                        0 <= i <= args.len(),
                        copy.len() == i,
                        forall|j: int| 0 <= j < i ==> (*copy@[j])@ == (*args@[j])@,
                    decreases args.len() - i,
                {
                    proof {
                        vstd::std_specs::vec::axiom_vec_index_decreases(*args, i as int);
                        assert(decreases_to!(*args => args[i as int]));
                        assert(decreases_to!(*self => self->FunctionCall_1));
                    }
                    copy.push(Box::new(args[i].duplicate()));
                    i += 1;
                }
                proof {
                    lemma_model_of_lists(*self);
                    assert(boxed_trees_of(copy@) =~= boxed_trees_of(args@));
                }
                call_node(name.clone(), copy)
            },
        }
    }
}

impl Clone for Expr {
    fn clone(&self) -> (copy: Expr)
        ensures
            copy@ == self@,
    {
        self.duplicate()
    }
}

} // verus!
