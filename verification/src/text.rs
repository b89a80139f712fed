//! Numbers and operators in words, for messages.

use vstd::prelude::*;
use crate::token::Operations;

verus! {

/// The digit `d` as text; `0` where `d` is no digit.
pub open spec fn digit_text(d: nat) -> Seq<char> {
    if d == 1 {
        "1"@
    } else if d == 2 {
        "2"@
    } else if d == 3 {
        "3"@
    } else if d == 4 {
        "4"@
    } else if d == 5 {
        "5"@
    } else if d == 6 {
        "6"@
    } else if d == 7 {
        "7"@
    } else if d == 8 {
        "8"@
    } else if d == 9 {
        "9"@
    } else {
        "0"@
    }
}

/// The number `n` in decimal digits, without leading zeros.
pub open spec fn decimal_text(n: nat) -> Seq<char>
    decreases n,
{
    if n < 10 {
        digit_text(n)
    } else {
        decimal_text(n / 10) + digit_text(n % 10)
    }
}

/// The digit `d` as text.
fn digit_str(d: usize) -> (text: &'static str)
    requires
        d < 10,
    ensures
        text@ == digit_text(d as nat),
{
    if d == 1 {
        "1"
    } else if d == 2 {
        "2"
    } else if d == 3 {
        "3"
    } else if d == 4 {
        "4"
    } else if d == 5 {
        "5"
    } else if d == 6 {
        "6"
    } else if d == 7 {
        "7"
    } else if d == 8 {
        "8"
    } else if d == 9 {
        "9"
    } else {
        "0"
    }
}

/// The number `n` in decimal digits, without leading zeros.
pub fn decimal(n: usize) -> (text: String)
    ensures
        text@ == decimal_text(n as nat),
    decreases n,
{
    if n < 10 {
        digit_str(n).to_owned()
    } else {
        let mut text = decimal(n / 10);
        text.append(digit_str(n % 10));
        text
    }
}

/// The name of the operator `op`.
pub open spec fn operation_text(op: Operations) -> Seq<char> {
    match op {
        Operations::NOT => "NOT"@,
        Operations::ADD => "ADD"@,
        Operations::MINUS => "MINUS"@,
        Operations::POWER => "POWER"@,
        Operations::DIVIDE => "DIVIDE"@,
        Operations::MULTIPLY => "MULTIPLY"@,
        Operations::LPAREN => "LPAREN"@,
        Operations::RPAREN => "RPAREN"@,
        Operations::FNCOS => "FNCOS"@,
        Operations::FNSIN => "FNSIN"@,
        Operations::FNTAN => "FNTAN"@,
        Operations::FNFACT => "FNFACT"@,
        Operations::FNLOG => "FNLOG"@,
        Operations::COMMA => "COMMA"@,
        Operations::FNABS => "FNABS"@,
        Operations::FNSQRT => "FNSQRT"@,
        Operations::FNEXP => "FNEXP"@,
        Operations::FNMOD => "FNMOD"@,
        Operations::FNASIN => "FNASIN"@,
        Operations::FNACOS => "FNACOS"@,
        Operations::FNATAN => "FNATAN"@,
        Operations::FNSINH => "FNSINH"@,
        Operations::FNCOSH => "FNCOSH"@,
        Operations::FNTANH => "FNTANH"@,
        Operations::FNFLOOR => "FNFLOOR"@,
        Operations::FNCEIL => "FNCEIL"@,
        Operations::FNROUND => "FNROUND"@,
        Operations::VARLET => "VARLET"@,
        Operations::VARASSIGN => "VARASSIGN"@,
        Operations::RBRACE => "RBRACE"@,
        Operations::LBRACE => "LBRACE"@,
        Operations::FNDEFINE => "FNDEFINE"@,
    }
}

/// The name of the operator `op`.
pub fn operation_name(op: Operations) -> (text: &'static str)
    ensures
        text@ == operation_text(op),
{
    match op {
        Operations::NOT => "NOT",
        Operations::ADD => "ADD",
        Operations::MINUS => "MINUS",
        Operations::POWER => "POWER",
        Operations::DIVIDE => "DIVIDE",
        Operations::MULTIPLY => "MULTIPLY",
        Operations::LPAREN => "LPAREN",
        Operations::RPAREN => "RPAREN",
        Operations::FNCOS => "FNCOS",
        Operations::FNSIN => "FNSIN",
        Operations::FNTAN => "FNTAN",
        Operations::FNFACT => "FNFACT",
        Operations::FNLOG => "FNLOG",
        Operations::COMMA => "COMMA",
        Operations::FNABS => "FNABS",
        Operations::FNSQRT => "FNSQRT",
        Operations::FNEXP => "FNEXP",
        Operations::FNMOD => "FNMOD",
        Operations::FNASIN => "FNASIN",
        Operations::FNACOS => "FNACOS",
        Operations::FNATAN => "FNATAN",
        Operations::FNSINH => "FNSINH",
        Operations::FNCOSH => "FNCOSH",
        Operations::FNTANH => "FNTANH",
        Operations::FNFLOOR => "FNFLOOR",
        Operations::FNCEIL => "FNCEIL",
        Operations::FNROUND => "FNROUND",
        Operations::VARLET => "VARLET",
        Operations::VARASSIGN => "VARASSIGN",
        Operations::RBRACE => "RBRACE",
        Operations::LBRACE => "LBRACE",
        Operations::FNDEFINE => "FNDEFINE",
    }
}

} // verus!
