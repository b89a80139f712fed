//! Character classes and the fixed word tables of the language.

use vstd::prelude::*;
use crate::token::{NumeralModel, Operations};

verus! {

/// `0` to `9`.
pub open spec fn is_digit(c: char) -> bool {
    '0' <= c && c <= '9'
}

/// `a` to `z`: the characters that may begin a word.
pub open spec fn is_lowercase(c: char) -> bool {
    'a' <= c && c <= 'z'
}

/// A digit or the decimal point: the characters that continue a number.
pub open spec fn is_numeric(c: char) -> bool {
    is_digit(c) || c == '.'
}

/// Whether `c` has the Unicode property Alphabetic, as the standard library
/// reports it: the characters that continue a word.
pub uninterp spec fn alphabetic(c: char) -> bool;

/// Calls `char::is_alphabetic`. Its answer is a fixed property of the
/// character, spread over pages of Unicode tables; it is taken on trust and
/// known here only by the name [`alphabetic`].
#[verifier::external_body]
pub(crate) fn is_alphabetic(c: char) -> (r: bool)
    ensures
        r == alphabetic(c),
{
    c.is_alphabetic()
}

pub fn digit(c: char) -> (r: bool)
    ensures
        r == is_digit(c),
{
    '0' <= c && c <= '9'
}

pub fn lowercase(c: char) -> (r: bool)
    ensures
        r == is_lowercase(c),
{
    'a' <= c && c <= 'z'
}

/// The operator that a single character stands for, if any.
pub open spec fn symbol_of(c: char) -> Option<Operations> {
    if c == '{' {
        Some(Operations::LBRACE)
    } else if c == '}' {
        Some(Operations::RBRACE)
    } else if c == '=' {
        Some(Operations::VARASSIGN)
    } else if c == '~' {
        Some(Operations::NOT)
    } else if c == '+' {
        Some(Operations::ADD)
    } else if c == '-' {
        Some(Operations::MINUS)
    } else if c == '^' {
        Some(Operations::POWER)
    } else if c == '*' {
        Some(Operations::MULTIPLY)
    } else if c == '/' {
        Some(Operations::DIVIDE)
    } else if c == '!' {
        Some(Operations::FNFACT)
    } else if c == '(' {
        Some(Operations::LPAREN)
    } else if c == ')' {
        Some(Operations::RPAREN)
    } else if c == ',' {
        Some(Operations::COMMA)
    } else if c == '%' {
        Some(Operations::FNMOD)
    } else {
        None
    }
}

pub fn symbol(c: char) -> (r: Option<Operations>)
    ensures
        r == symbol_of(c),
{
    match c {
        '{' => Some(Operations::LBRACE),
        '}' => Some(Operations::RBRACE),
        '=' => Some(Operations::VARASSIGN),
        '~' => Some(Operations::NOT),
        '+' => Some(Operations::ADD),
        '-' => Some(Operations::MINUS),
        '^' => Some(Operations::POWER),
        '*' => Some(Operations::MULTIPLY),
        '/' => Some(Operations::DIVIDE),
        '!' => Some(Operations::FNFACT),
        '(' => Some(Operations::LPAREN),
        ')' => Some(Operations::RPAREN),
        ',' => Some(Operations::COMMA),
        '%' => Some(Operations::FNMOD),
        _ => None,
    }
}

/// The operator that a reserved word stands for, if the word is reserved.
pub open spec fn keyword_of(word: Seq<char>) -> Option<Operations> {
    if word == "sin"@ {
        Some(Operations::FNSIN)
    } else if word == "cos"@ {
        Some(Operations::FNCOS)
    } else if word == "tan"@ {
        Some(Operations::FNTAN)
    } else if word == "log"@ {
        Some(Operations::FNLOG)
    } else if word == "abs"@ {
        Some(Operations::FNABS)
    } else if word == "sqrt"@ {
        Some(Operations::FNSQRT)
    } else if word == "exp"@ {
        Some(Operations::FNEXP)
    } else if word == "asin"@ {
        Some(Operations::FNASIN)
    } else if word == "acos"@ {
        Some(Operations::FNACOS)
    } else if word == "atan"@ {
        Some(Operations::FNATAN)
    } else if word == "sinh"@ {
        Some(Operations::FNSINH)
    } else if word == "cosh"@ {
        Some(Operations::FNCOSH)
    } else if word == "tanh"@ {
        Some(Operations::FNTANH)
    } else if word == "floor"@ {
        Some(Operations::FNFLOOR)
    } else if word == "ceil"@ {
        Some(Operations::FNCEIL)
    } else if word == "round"@ {
        Some(Operations::FNROUND)
    } else if word == "let"@ {
        Some(Operations::VARLET)
    } else if word == "fn"@ {
        Some(Operations::FNDEFINE)
    } else {
        None
    }
}

/// The constant that a word names, if it names one.
pub open spec fn constant_of(word: Seq<char>) -> Option<NumeralModel> {
    if word == "e"@ {
        Some(NumeralModel::Euler)
    } else if word == "pi"@ {
        Some(NumeralModel::Pi)
    } else {
        None
    }
}

/// Whether the characters of `text` from `from` up to `to` spell `word`.
pub fn spells(text: &Vec<char>, from: usize, to: usize, word: &str) -> (r: bool)
    requires
        from <= to <= text.len(),
    ensures
        r == (text@.subrange(from as int, to as int) == word@),
{
    let n = word.unicode_len();
    if to - from != n {
        return false;
    }
    let mut i: usize = 0;
    while i < n
        invariant
            from <= to <= text.len(),
            n == word@.len(),
            to - from == n,
            0 <= i <= n,
            forall|k: int| 0 <= k < i ==> text@[from + k] == word@[k],
        decreases n - i,
    {
        if text[from + i] != word.get_char(i) {
            assert(text@.subrange(from as int, to as int)[i as int] != word@[i as int]);
            return false;
        }
        i += 1;
    }
    assert(text@.subrange(from as int, to as int) =~= word@);
    true
}

/// Looks the characters of `text` from `from` up to `to` up among the
/// reserved words.
pub fn keyword(text: &Vec<char>, from: usize, to: usize) -> (r: Option<Operations>)
    requires
        from <= to <= text.len(),
    ensures
        r == keyword_of(text@.subrange(from as int, to as int)),
{
    if spells(text, from, to, "sin") {
        Some(Operations::FNSIN)
    } else if spells(text, from, to, "cos") {
        Some(Operations::FNCOS)
    } else if spells(text, from, to, "tan") {
        Some(Operations::FNTAN)
    } else if spells(text, from, to, "log") {
        Some(Operations::FNLOG)
    } else if spells(text, from, to, "abs") {
        Some(Operations::FNABS)
    } else if spells(text, from, to, "sqrt") {
        Some(Operations::FNSQRT)
    } else if spells(text, from, to, "exp") {
        Some(Operations::FNEXP)
    } else if spells(text, from, to, "asin") {
        Some(Operations::FNASIN)
    } else if spells(text, from, to, "acos") {
        Some(Operations::FNACOS)
    } else if spells(text, from, to, "atan") {
        Some(Operations::FNATAN)
    } else if spells(text, from, to, "sinh") {
        Some(Operations::FNSINH)
    } else if spells(text, from, to, "cosh") {
        Some(Operations::FNCOSH)
    } else if spells(text, from, to, "tanh") {
        Some(Operations::FNTANH)
    } else if spells(text, from, to, "floor") {
        Some(Operations::FNFLOOR)
    } else if spells(text, from, to, "ceil") {
        Some(Operations::FNCEIL)
    } else if spells(text, from, to, "round") {
        Some(Operations::FNROUND)
    } else if spells(text, from, to, "let") {
        Some(Operations::VARLET)
    } else if spells(text, from, to, "fn") {
        Some(Operations::FNDEFINE)
    } else {
        None
    }
}

} // verus!
