//! The whole way from a text to its worth.

use vstd::prelude::*;
use crate::adequacy::{lemma_evaluation, run};
use crate::grammar::ParseErrorModel;
use crate::program::program;
use crate::machine::{ActionModel, Machine, ZERO};
use crate::semantics::{program_value, Arithmetic, Outcome, Store};
use crate::tokeniser::{tokens_of, LexErrorModel};

verus! {

/// How the way from a text to its worth ends.
pub enum Verdict {
    /// The text has no tokens.
    Unreadable(LexErrorModel),
    /// The tokens are no program.
    Malformed(ParseErrorModel),
    /// The program was evaluated, with this outcome.
    Evaluated(Outcome),
}

/// The store of an evaluator that has evaluated nothing: one empty scope
/// and no functions.
pub open spec fn empty_store() -> Store {
    Store { scopes: seq![Map::empty()], functions: Map::empty() }
}

/// What `text` is worth: its tokens, parsed, and evaluated from an empty
/// store, with calls nested at most `depth` deep.
pub open spec fn verdict(text: Seq<char>, arithmetic: Arithmetic, depth: nat) -> Verdict {
    match tokens_of(text) {
        Err(error) => Verdict::Unreadable(error),
        Ok(scanned) => match program(scanned.tokens) {
            Err(error) => Verdict::Malformed(error),
            Ok(statements) => Verdict::Evaluated(
                program_value(statements, ZERO, empty_store(), arithmetic, depth),
            ),
        },
    }
}

/// The worth of a text depends on the text and on arithmetic, and on
/// nothing else: two runs of one text agree at every stage.
pub proof fn lemma_same_text_same_worth(
    first: Seq<char>,
    second: Seq<char>,
    arithmetic: Arithmetic,
    depth: nat,
)
    requires
        first == second,
    ensures
        tokens_of(first) == tokens_of(second),
        tokens_of(first) matches Ok(scanned) ==> program(scanned.tokens) == program(
            tokens_of(second)->Ok_0.tokens,
        ),
        verdict(first, arithmetic, depth) == verdict(second, arithmetic, depth),
{
}

/// A new evaluator that is set to the program of a text and is answered by
/// `arithmetic` comes, after some number of steps, to report what the text
/// is worth: its value, or the failure that it ends in. The number of steps
/// is returned.
pub proof fn lemma_evaluator_reports_worth(
    text: Seq<char>,
    arithmetic: Arithmetic,
    depth: nat,
) -> (n: nat)
    ensures
        tokens_of(text) matches Ok(scanned) ==> (program(scanned.tokens) matches Ok(statements)
            ==> ({
            let end = run(Machine::initial().load(statements), arithmetic, n);
            match verdict(text, arithmetic, depth) {
                Verdict::Evaluated(Outcome::Value(value, _)) => end.step(None).1
                    == ActionModel::Done(value),
                Verdict::Evaluated(Outcome::Failure(error)) => end.step(None).1
                    == ActionModel::Fail(error),
                _ => true,
            }
        })),
{
    match tokens_of(text) {
        Ok(scanned) => match program(scanned.tokens) {
            Ok(statements) => {
                assert(Machine::initial().scopes.take(1) =~= empty_store().scopes);
                lemma_evaluation(Machine::initial(), statements, arithmetic, depth)
            },
            Err(_) => 0,
        },
        Err(_) => 0,
    }
}

} // verus!
