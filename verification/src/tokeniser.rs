//! The lexer: source text to tokens.

use vstd::prelude::*;
use crate::chars::{
    alphabetic, constant_of, digit, is_alphabetic, is_digit, is_lowercase, is_numeric, keyword,
    keyword_of, lowercase, spells, symbol, symbol_of,
};
use crate::token::{
    Numeral, NumeralModel, Operations, Token, TokenModel, TokenStream, ValueModel, ValueType,
};

verus! {

/// Why a text could not be split into tokens, and the line it happened on.
#[derive(Debug, Clone, Copy, PartialEq, Eq, Structural)]
pub enum LexError {
    /// A character that begins no token.
    InvalidCharacter { line: usize },
    /// A number with more than one decimal point.
    MultipleDecimalPoints { line: usize },
}

/// Model of a [`LexError`].
pub enum LexErrorModel {
    InvalidCharacter { line: nat },
    MultipleDecimalPoints { line: nat },
}

impl LexErrorModel {
    /// The error in words.
    pub open spec fn text(self) -> Seq<char> {
        match self {
            LexErrorModel::InvalidCharacter { .. } => "Invalid character"@,
            LexErrorModel::MultipleDecimalPoints { .. } =>
                "Failed to parse number, multiple decimal points"@,
        }
    }

    /// The line that the error happened on.
    pub open spec fn line(self) -> nat {
        match self {
            LexErrorModel::InvalidCharacter { line } => line,
            LexErrorModel::MultipleDecimalPoints { line } => line,
        }
    }
}

impl View for LexError {
    type V = LexErrorModel;

    open spec fn view(&self) -> LexErrorModel {
        match self {
            LexError::InvalidCharacter { line } => LexErrorModel::InvalidCharacter {
                line: *line as nat,
            },
            LexError::MultipleDecimalPoints { line } => LexErrorModel::MultipleDecimalPoints {
                line: *line as nat,
            },
        }
    }
}

impl LexError {
    /// The line that the error happened on.
    pub fn line(&self) -> (line: usize)
        ensures
            line == self@.line(),
    {
        match self {
            LexError::InvalidCharacter { line } => *line,
            LexError::MultipleDecimalPoints { line } => *line,
        }
    }

    /// The error in words.
    pub fn message(&self) -> (text: String)
        ensures
            text@ == self@.text(),
    {
        match self {
            LexError::InvalidCharacter { .. } => "Invalid character".to_owned(),
            LexError::MultipleDecimalPoints { .. } =>
                "Failed to parse number, multiple decimal points".to_owned(),
        }
    }
}

/// The end of the longest run of characters of one class that starts at
/// `from`: the first position at or after `from` whose character is outside
/// the class, or the length of the text.
pub open spec fn run_end(text: Seq<char>, from: int, class: spec_fn(char) -> bool) -> int
    decreases text.len() - from,
{
    if 0 <= from < text.len() && class(text[from]) {
        run_end(text, from + 1, class)
    } else {
        from
    }
}

/// A run ends at or after its start, inside the text, at a character outside
/// the class; every character before that is inside it.
pub proof fn lemma_run_end(text: Seq<char>, from: int, class: spec_fn(char) -> bool)
    requires
        0 <= from <= text.len(),
    ensures
        from <= run_end(text, from, class) <= text.len(),
        run_end(text, from, class) < text.len() ==> !class(text[run_end(text, from, class)]),
        forall|k: int| from <= k < run_end(text, from, class) ==> class(#[trigger] text[k]),
    decreases text.len() - from,
{
    if from < text.len() && class(text[from]) {
        lemma_run_end(text, from + 1, class);
    }
}

/// Where the word that begins at `pos` ends: its first character is taken
/// as it is, and alphabetic characters continue it.
pub open spec fn word_end(text: Seq<char>, pos: int) -> int {
    run_end(text, pos + 1, |c: char| alphabetic(c))
}

/// Where the number that begins at `pos` ends: digits and decimal points
/// continue it.
pub open spec fn number_end(text: Seq<char>, pos: int) -> int {
    run_end(text, pos + 1, |c: char| is_numeric(c))
}

/// How many decimal points `lexeme` holds.
pub open spec fn points(lexeme: Seq<char>) -> nat
    decreases lexeme.len(),
{
    if lexeme.len() == 0 {
        0
    } else {
        points(lexeme.drop_last()) + if lexeme.last() == '.' {
            1nat
        } else {
            0nat
        }
    }
}

/// The token for an operator read on `line`.
pub open spec fn operator_token(op: Operations, line: nat) -> TokenModel {
    TokenModel { operation: Some(op), value: None, line_number: line }
}

/// The token for a number read on `line`.
pub open spec fn number_token(numeral: NumeralModel, line: nat) -> TokenModel {
    TokenModel { operation: None, value: Some(ValueModel::Number(numeral)), line_number: line }
}

/// The token for a word read on `line`: a reserved word gives its operator,
/// the name of a constant gives that constant, and any other word is an
/// identifier.
pub open spec fn word_token(word: Seq<char>, line: nat) -> TokenModel {
    match keyword_of(word) {
        Some(op) => operator_token(op, line),
        None => match constant_of(word) {
            Some(numeral) => number_token(numeral, line),
            None => TokenModel {
                operation: None,
                value: Some(ValueModel::Identifier(word)),
                line_number: line,
            },
        },
    }
}

/// What a completed scan yields: the tokens in source order, and the number
/// of line breaks passed.
pub struct Scanned {
    pub tokens: Seq<TokenModel>,
    pub lines: nat,
}

/// Scans `text` from `pos` on, standing on line `line`, with the tokens
/// `read` so far.
///
/// A lowercase letter begins a word and a digit begins a number; a space is
/// skipped; a line break is skipped and counted; one of the operator
/// characters is a token of its own; any other character ends the scan with
/// an error. So does a number with a second decimal point.
pub open spec fn scan(text: Seq<char>, pos: int, line: nat, read: Seq<TokenModel>) -> Result<
    Scanned,
    LexErrorModel,
>
    decreases text.len() - pos,
{
    if pos < 0 || pos >= text.len() {
        Ok(Scanned { tokens: read, lines: line })
    } else if is_lowercase(text[pos]) {
        let end = word_end(text, pos);
        proof {
            lemma_run_end(text, pos + 1, |c: char| alphabetic(c));
        }
        scan(text, end, line, read.push(word_token(text.subrange(pos, end), line)))
    } else if is_digit(text[pos]) {
        let end = number_end(text, pos);
        let lexeme = text.subrange(pos, end);
        proof {
            lemma_run_end(text, pos + 1, |c: char| is_numeric(c));
        }
        if points(lexeme) > 1 {
            Err(LexErrorModel::MultipleDecimalPoints { line })
        } else {
            scan(text, end, line, read.push(number_token(NumeralModel::Decimal(lexeme), line)))
        }
    } else if text[pos] == '\n' {
        scan(text, pos + 1, line + 1, read)
    } else if text[pos] == ' ' {
        scan(text, pos + 1, line, read)
    } else {
        match symbol_of(text[pos]) {
            Some(op) => scan(text, pos + 1, line, read.push(operator_token(op, line))),
            None => Err(LexErrorModel::InvalidCharacter { line }),
        }
    }
}

/// The tokens of `text`, or the first error in it.
pub open spec fn tokens_of(text: Seq<char>) -> Result<Scanned, LexErrorModel> {
    scan(text, 0, 0, Seq::empty())
}

/// Splits a text into tokens.
pub struct Tokeniser {
    tape: String,
    line_number: usize,
}

impl Tokeniser {
    /// The text to be split.
    pub closed spec fn text(&self) -> Seq<char> {
        self.tape@
    }

    /// The number of line breaks counted by the last scan.
    pub closed spec fn lines(&self) -> nat {
        self.line_number as nat
    }

    /// A tokeniser for the text `inp_tape`.
    pub fn new(inp_tape: String) -> (tokeniser: Self)
        ensures
            tokeniser.text() == inp_tape@,
            tokeniser.lines() == 0,
    {
        Self { tape: inp_tape, line_number: 0 }
    }

    /// Reads the word that begins at `pos`, and returns its token and the
    /// position after it.
    fn parse_alphanumeric(&self, text: &Vec<char>, pos: usize) -> (r: (Token, usize))
        requires
            text@ == self.text(),
            pos < text.len(),
        ensures
            r.1 == word_end(text@, pos as int),
            pos < r.1 <= text.len(),
            r.0@ == word_token(text@.subrange(pos as int, r.1 as int), self.lines()),
    {
        let ghost class = |c: char| alphabetic(c);
        let mut end = pos + 1;
        proof {
            lemma_run_end(text@, pos + 1, class);
        }
        while end < text.len() && is_alphabetic(text[end])
            invariant
                pos < end <= text.len(),
                class == (|c: char| alphabetic(c)),
                run_end(text@, pos + 1, class) == run_end(text@, end as int, class),
            decreases text.len() - end,
        {
            end += 1;
        }
        let token = match keyword(text, pos, end) {
            Some(op) => Token { operation: Some(op), value: None, line_number: self.line_number },
            None => {
                let value = if spells(text, pos, end, "e") {
                    ValueType::Number(Numeral::Euler)
                } else if spells(text, pos, end, "pi") {
                    ValueType::Number(Numeral::Pi)
                } else {
                    ValueType::Identifier(self.tape.as_str().substring_char(pos, end).to_owned())
                };
                Token { operation: None, value: Some(value), line_number: self.line_number }
            },
        };
        (token, end)
    }

    /// Reads the number that begins at `pos`, and returns its literal and the
    /// position after it.
    fn parse_number(&self, text: &Vec<char>, pos: usize) -> (r: Result<(Numeral, usize), LexError>)
        requires
            text@ == self.text(),
            pos < text.len(),
        ensures
            match r {
                Ok((numeral, end)) => {
                    &&& end == number_end(text@, pos as int)
                    &&& pos < end <= text.len()
                    &&& points(text@.subrange(pos as int, end as int)) <= 1
                    &&& numeral@ == NumeralModel::Decimal(text@.subrange(pos as int, end as int))
                },
                Err(e) => {
                    &&& points(
                        text@.subrange(pos as int, number_end(text@, pos as int)),
                    ) > 1
                    &&& e@ == LexErrorModel::MultipleDecimalPoints { line: self.lines() }
                },
            },
    {
        let ghost class = |c: char| is_numeric(c);
        let mut end = pos + 1;
        let mut seen: usize = if text[pos] == '.' {
            1
        } else {
            0
        };
        proof {
            lemma_run_end(text@, pos + 1, class);
            assert(text@.subrange(pos as int, end as int).drop_last() =~= Seq::<char>::empty());
            assert(points(Seq::<char>::empty()) == 0);
        }
        while end < text.len() && (digit(text[end]) || text[end] == '.')
            invariant
                pos < end <= text.len(),
                class == (|c: char| is_numeric(c)),
                run_end(text@, pos + 1, class) == run_end(text@, end as int, class),
                seen == points(text@.subrange(pos as int, end as int)),
                seen <= end - pos,
            decreases text.len() - end,
        {
            proof {
                assert(text@.subrange(pos as int, end + 1).drop_last() =~= text@.subrange(
                    pos as int,
                    end as int,
                ));
            }
            if text[end] == '.' {
                seen += 1;
            }
            end += 1;
        }
        if seen > 1 {
            Err(LexError::MultipleDecimalPoints { line: self.line_number })
        } else {
            Ok(
                (
                    Numeral::Decimal(self.tape.as_str().substring_char(pos, end).to_owned()),
                    end,
                ),
            )
        }
    }

    /// Splits the text into tokens, each tagged with the number of line
    /// breaks before it. The count starts at zero on every call, and stands
    /// afterwards at the line breaks of the text, or at the line of the
    /// error.
    pub fn to_tokens(&mut self) -> (r: Result<TokenStream, LexError>)
        ensures
            final(self).text() == old(self).text(),
            match r {
                Ok(tokens) => tokens_of(old(self).text()) == Ok::<Scanned, LexErrorModel>(
                    Scanned { tokens: tokens.deep_view(), lines: final(self).lines() },
                ),
                Err(e) => {
                    &&& tokens_of(old(self).text()) == Err::<Scanned, LexErrorModel>(e@)
                    &&& final(self).lines() == e@.line()
                },
            },
    {
        let text = characters(self.tape.as_str());
        let mut return_stream = TokenStream::new();
        let mut pos: usize = 0;
        self.line_number = 0;
        assert(return_stream.deep_view() =~= Seq::<TokenModel>::empty());
        while pos < text.len()
            invariant
                text@ == self.text(),
                self.text() == old(self).text(),
                pos <= text.len(),
                self.line_number <= pos,
                tokens_of(text@) == scan(
                    text@,
                    pos as int,
                    self.lines(),
                    return_stream.deep_view(),
                ),
            decreases text.len() - pos,
        {
            let ghost read = return_stream.deep_view();
            let ch = text[pos];
            if lowercase(ch) {
                let (token, end) = self.parse_alphanumeric(&text, pos);
                return_stream.push(token);
                assert(return_stream.deep_view() =~= read.push(token@));
                pos = end;
            } else if digit(ch) {
                match self.parse_number(&text, pos) {
                    Ok((numeral, end)) => {
                        let token = Token {
                            operation: None,
                            value: Some(ValueType::Number(numeral)),
                            line_number: self.line_number,
                        };
                        return_stream.push(token);
                        assert(return_stream.deep_view() =~= read.push(token@));
                        pos = end;
                    },
                    Err(e) => {
                        return Err(e);
                    },
                }
            } else if ch == '\n' {
                self.line_number += 1;
                pos += 1;
            } else if ch == ' ' {
                pos += 1;
            } else {
                match symbol(ch) {
                    Some(op) => {
                        let token = Token {
                            operation: Some(op),
                            value: None,
                            line_number: self.line_number,
                        };
                        return_stream.push(token);
                        assert(return_stream.deep_view() =~= read.push(token@));
                        pos += 1;
                    },
                    None => {
                        return Err(LexError::InvalidCharacter { line: self.line_number });
                    },
                }
            }
        }
        Ok(return_stream)
    }
}

/// Splits `source` into tokens.
pub fn tokenize(source: String) -> (r: Result<TokenStream, LexError>)
    ensures
        match r {
            Ok(tokens) => tokens_of(source@) matches Ok(scanned) && scanned.tokens
                == tokens.deep_view(),
            Err(e) => tokens_of(source@) == Err::<Scanned, LexErrorModel>(e@),
        },
{
    let mut tokeniser = Tokeniser::new(source);
    tokeniser.to_tokens()
}

/// The characters of `text`, in order.
pub fn characters(text: &str) -> (list: Vec<char>)
    ensures
        list@ == text@,
{
    let mut list: Vec<char> = Vec::new();
    for c in it: text.chars()
        invariant
            list@ == it.seq().take(it.index()),
            it.seq() == text@,
    {
        list.push(c);
    }
    list
}

/// Whether `lexeme` is a decimal literal: digits with at most one decimal
/// point among them, the first character a digit.
pub open spec fn is_decimal(lexeme: Seq<char>) -> bool {
    &&& lexeme.len() > 0
    &&& is_digit(lexeme[0])
    &&& forall|i: int| 0 <= i < lexeme.len() ==> is_numeric(#[trigger] lexeme[i])
    &&& points(lexeme) <= 1
}

/// Whether `name` can be an identifier: a word that begins with a lowercase
/// letter and is neither reserved nor the name of a constant.
pub open spec fn is_identifier(name: Seq<char>) -> bool {
    &&& name.len() > 0
    &&& is_lowercase(name[0])
    &&& forall|i: int| 1 <= i < name.len() ==> alphabetic(#[trigger] name[i])
    &&& keyword_of(name) is None
    &&& constant_of(name) is None
}

/// Whether `token` is one that a scan can yield on a line up to `lines`: it
/// carries an operator or a value and not both, its literal is a decimal
/// literal, and its name can be an identifier.
pub open spec fn is_sound(token: TokenModel, lines: nat) -> bool {
    &&& token.well_formed()
    &&& token.line_number <= lines
    &&& match token.value {
        Some(ValueModel::Number(NumeralModel::Decimal(lexeme))) => is_decimal(lexeme),
        Some(ValueModel::Identifier(name)) => is_identifier(name),
        _ => true,
    }
}

/// A scan that started from sound tokens yields sound tokens, and the lines
/// that it counts are at least those that it started with.
pub proof fn lemma_scan_is_sound(text: Seq<char>, pos: int, line: nat, read: Seq<TokenModel>)
    requires
        0 <= pos,
        forall|i: int| 0 <= i < read.len() ==> is_sound(#[trigger] read[i], line),
    ensures
        scan(text, pos, line, read) matches Ok(scanned) ==> {
            &&& line <= scanned.lines
            &&& read.len() <= scanned.tokens.len()
            &&& forall|i: int|
                0 <= i < scanned.tokens.len() ==> is_sound(
                    #[trigger] scanned.tokens[i],
                    scanned.lines,
                )
        },
    decreases text.len() - pos,
{
    if pos < text.len() {
        if is_lowercase(text[pos]) {
            let end = word_end(text, pos);
            lemma_run_end(text, pos + 1, |c: char| alphabetic(c));
            let word = text.subrange(pos, end);
            assert forall|i: int| 1 <= i < word.len() implies alphabetic(#[trigger] word[i]) by {
                assert(word[i] == text[pos + i]);
            }
            let token = word_token(word, line);
            assert(is_sound(token, line));
            lemma_scan_is_sound(text, end, line, read.push(token));
        } else if is_digit(text[pos]) {
            let end = number_end(text, pos);
            lemma_run_end(text, pos + 1, |c: char| is_numeric(c));
            let lexeme = text.subrange(pos, end);
            if points(lexeme) <= 1 {
                assert forall|i: int| 0 <= i < lexeme.len() implies is_numeric(
                    #[trigger] lexeme[i],
                ) by {
                    assert(lexeme[i] == text[pos + i]);
                }
                let token = number_token(NumeralModel::Decimal(lexeme), line);
                assert(is_sound(token, line));
                lemma_scan_is_sound(text, end, line, read.push(token));
            }
        } else if text[pos] == '\n' {
            lemma_scan_is_sound(text, pos + 1, line + 1, read);
        } else if text[pos] == ' ' {
            lemma_scan_is_sound(text, pos + 1, line, read);
        } else if let Some(op) = symbol_of(text[pos]) {
            let token = operator_token(op, line);
            assert(is_sound(token, line));
            lemma_scan_is_sound(text, pos + 1, line, read.push(token));
        }
    }
}

/// Every token of a text carries an operator or a value and not both; every
/// literal is a decimal literal; every name can be an identifier; and no
/// token stands on a line beyond the last.
pub proof fn lemma_tokens_are_sound(text: Seq<char>)
    ensures
        tokens_of(text) matches Ok(scanned) ==> forall|i: int|
            0 <= i < scanned.tokens.len() ==> is_sound(#[trigger] scanned.tokens[i], scanned.lines),
{
    lemma_scan_is_sound(text, 0, 0, Seq::empty());
}

} // verus!
