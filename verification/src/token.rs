//! Tokens: the operator tags, the literal and identifier payloads, and the
//! mathematical model of each.

use vstd::prelude::*;

verus! {

/// Every operator, structural mark and built-in function of the language.
#[derive(Debug, Clone, Copy, PartialEq, Eq, Structural)]
pub enum Operations {
    /// `~a`
    NOT,
    /// `a + b`
    ADD,
    /// `a - b`, `-a`
    MINUS,
    /// `a ^ b`
    POWER,
    /// `a / b`
    DIVIDE,
    /// `a * b`
    MULTIPLY,
    /// `(`
    LPAREN,
    /// `)`
    RPAREN,
    /// `cos(a)`
    FNCOS,
    /// `sin(a)`
    FNSIN,
    /// `tan(a)`
    FNTAN,
    /// `a!`
    FNFACT,
    /// `log(a)`, `log(a, b)`
    FNLOG,
    /// `,`
    COMMA,
    /// `abs(a)`
    FNABS,
    /// `sqrt(a)`
    FNSQRT,
    /// `exp(a)`
    FNEXP,
    /// `a % b`
    FNMOD,
    /// `asin(a)`
    FNASIN,
    /// `acos(a)`
    FNACOS,
    /// `atan(a)`
    FNATAN,
    /// `sinh(a)`
    FNSINH,
    /// `cosh(a)`
    FNCOSH,
    /// `tanh(a)`
    FNTANH,
    /// `floor(a)`
    FNFLOOR,
    /// `ceil(a)`
    FNCEIL,
    /// `round(a)`
    FNROUND,
    /// `let`
    VARLET,
    /// `=`
    VARASSIGN,
    /// `}`
    RBRACE,
    /// `{`
    LBRACE,
    /// `fn`
    FNDEFINE,
}

/// A numeric literal as it stands in the source. Turning it into a binary64
/// value is arithmetic, so the literal is carried through unconverted.
#[derive(Debug, PartialEq, Eq)]
pub enum Numeral {
    /// Decimal digits with at most one `.`; the first character is a digit.
    Decimal(String),
    /// The constant `e`.
    Euler,
    /// The constant `pi`.
    Pi,
}

/// Model of a [`Numeral`].
pub enum NumeralModel {
    Decimal(Seq<char>),
    Euler,
    Pi,
}

impl DeepView for Numeral {
    type V = NumeralModel;

    open spec fn deep_view(&self) -> NumeralModel {
        match self {
            Numeral::Decimal(text) => NumeralModel::Decimal(text@),
            Numeral::Euler => NumeralModel::Euler,
            Numeral::Pi => NumeralModel::Pi,
        }
    }
}

impl View for Numeral {
    type V = NumeralModel;

    open spec fn view(&self) -> NumeralModel {
        self.deep_view()
    }
}

impl Clone for Numeral {
    fn clone(&self) -> (copy: Numeral)
        ensures
            copy@ == self@,
    {
        match self {
            Numeral::Decimal(text) => Numeral::Decimal(text.clone()),
            Numeral::Euler => Numeral::Euler,
            Numeral::Pi => Numeral::Pi,
        }
    }
}

/// The payload of a token that is not an operator.
#[derive(Debug, PartialEq, Eq)]
pub enum ValueType {
    Number(Numeral),
    Identifier(String),
}

/// Model of a [`ValueType`].
pub enum ValueModel {
    Number(NumeralModel),
    Identifier(Seq<char>),
}

impl DeepView for ValueType {
    type V = ValueModel;

    open spec fn deep_view(&self) -> ValueModel {
        match self {
            ValueType::Number(numeral) => ValueModel::Number(numeral@),
            ValueType::Identifier(name) => ValueModel::Identifier(name@),
        }
    }
}

impl View for ValueType {
    type V = ValueModel;

    open spec fn view(&self) -> ValueModel {
        self.deep_view()
    }
}

impl Clone for ValueType {
    fn clone(&self) -> (copy: ValueType)
        ensures
            copy@ == self@,
    {
        match self {
            ValueType::Number(numeral) => ValueType::Number(numeral.clone()),
            ValueType::Identifier(name) => ValueType::Identifier(name.clone()),
        }
    }
}

/// The smallest lexical unit: an operator tag or a value, and the line it
/// was read on.
#[derive(Debug, PartialEq, Eq)]
pub struct Token {
    pub operation: Option<Operations>,
    pub value: Option<ValueType>,
    pub line_number: usize,
}

/// Model of a [`Token`].
pub struct TokenModel {
    pub operation: Option<Operations>,
    pub value: Option<ValueModel>,
    pub line_number: nat,
}

impl TokenModel {
    /// A token carries an operator or a value, never both and never neither.
    pub open spec fn well_formed(self) -> bool {
        self.operation is Some <==> self.value is None
    }
}

impl DeepView for Token {
    type V = TokenModel;

    open spec fn deep_view(&self) -> TokenModel {
        TokenModel {
            operation: self.operation,
            value: match self.value {
                Some(value) => Some(value@),
                None => None,
            },
            line_number: self.line_number as nat,
        }
    }
}

impl View for Token {
    type V = TokenModel;

    open spec fn view(&self) -> TokenModel {
        self.deep_view()
    }
}

impl Clone for Token {
    fn clone(&self) -> (copy: Token)
        ensures
            copy@ == self@,
    {
        let value = match &self.value {
            Some(value) => Some(value.clone()),
            None => None,
        };
        Token { operation: self.operation, value, line_number: self.line_number }
    }
}

/// A token stream, in source order.
pub type TokenStream = Vec<Token>;

} // verus!
