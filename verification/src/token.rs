use vstd::prelude::*;
use vstd::string::*;
use crate::diag::{DiagPrinter, DiagType, formatted_line};
use crate::numfmt::{dec_str, dec_string};

verus! {

/// The kind of a lexical token. The two `__…START` markers separate plain
/// tokens, keywords and type keywords; `code` gives each kind its stable
/// numeric value, used when a kind is shown in a diagnostic.
#[derive(Debug, Clone, Copy, PartialEq, Eq, Structural)]
pub enum TokenType {
    Eof,
    OpenParen,
    CloseParen,
    OpenCurly,
    CloseCurly,
    Comma,
    Colon,
    Semicolon,
    Plus,
    PlusPlus,
    PlusEqual,
    Minus,
    MinusMinus,
    MinusEqual,
    ColonColon,
    Identifier,
    NumericLiteral,
    StringLiteral,
    __KEYWORDSSTART,
    Func,
    Return,
    As,
    __TYPESSTART,
    Int,
    String,
}

/// The numeric value of a token kind.
pub open spec fn token_code(t: TokenType) -> u64 {
    match t {
        TokenType::Eof => 0,
        TokenType::OpenParen => 1,
        TokenType::CloseParen => 2,
        TokenType::OpenCurly => 3,
        TokenType::CloseCurly => 4,
        TokenType::Comma => 5,
        TokenType::Colon => 6,
        TokenType::Semicolon => 7,
        TokenType::Plus => 8,
        TokenType::PlusPlus => 9,
        TokenType::PlusEqual => 10,
        TokenType::Minus => 11,
        TokenType::MinusMinus => 12,
        TokenType::MinusEqual => 13,
        TokenType::ColonColon => 14,
        TokenType::Identifier => 15,
        TokenType::NumericLiteral => 16,
        TokenType::StringLiteral => 17,
        TokenType::__KEYWORDSSTART => 255,
        TokenType::Func => 256,
        TokenType::Return => 257,
        TokenType::As => 258,
        TokenType::__TYPESSTART => 511,
        TokenType::Int => 512,
        TokenType::String => 513,
    }
}

impl TokenType {
    /// The numeric value of this kind, as it appears in diagnostics and as it
    /// orders the kinds (keywords above `__KEYWORDSSTART`, type keywords above
    /// `__TYPESSTART`).
    pub fn code(&self) -> (r: u64)
        ensures
            r == token_code(*self),
    {
        match *self {
            TokenType::Eof => 0,
            TokenType::OpenParen => 1,
            TokenType::CloseParen => 2,
            TokenType::OpenCurly => 3,
            TokenType::CloseCurly => 4,
            TokenType::Comma => 5,
            TokenType::Colon => 6,
            TokenType::Semicolon => 7,
            TokenType::Plus => 8,
            TokenType::PlusPlus => 9,
            TokenType::PlusEqual => 10,
            TokenType::Minus => 11,
            TokenType::MinusMinus => 12,
            TokenType::MinusEqual => 13,
            TokenType::ColonColon => 14,
            TokenType::Identifier => 15,
            TokenType::NumericLiteral => 16,
            TokenType::StringLiteral => 17,
            TokenType::__KEYWORDSSTART => 255,
            TokenType::Func => 256,
            TokenType::Return => 257,
            TokenType::As => 258,
            TokenType::__TYPESSTART => 511,
            TokenType::Int => 512,
            TokenType::String => 513,
        }
    }
}

/// The mathematical value of a token: its kind and its text.
pub struct TokV {
    pub kind: TokenType,
    pub text: Seq<char>,
}

/// A classified lexical unit: a kind together with the literal text it was
/// scanned from (for string literals, the text between the quotes).
#[derive(Debug)]
pub struct Token {
    pub token_type: TokenType,
    pub value: String,
}

impl View for Token {
    type V = TokV;

    open spec fn view(&self) -> TokV {
        TokV { kind: self.token_type, text: self.value@ }
    }
}

impl Clone for Token {
    fn clone(&self) -> (r: Self)
        ensures
            r@ == self@,
    {
        Token { token_type: self.token_type, value: self.value.clone() }
    }
}

impl Default for Token {
    fn default() -> (r: Self)
        ensures
            r@.kind == TokenType::Eof,
            r@.text == Seq::<char>::empty(),
    {
        Token { token_type: TokenType::Eof, value: String::new() }
    }
}

/// What `get_data` shows for a token: string literals regain their
/// surrounding quotes, every other kind shows its raw text.
pub open spec fn tok_data(t: TokV) -> Seq<char> {
    if t.kind == TokenType::StringLiteral {
        seq!['"'] + t.text + seq!['"']
    } else {
        t.text
    }
}

impl Token {
    pub fn new(token_type: TokenType, value: String) -> (r: Self)
        ensures
            r@ == (TokV { kind: token_type, text: value@ }),
    {
        Token { token_type, value }
    }

    /// The debug line this token renders to — its kind's numeric value and
    /// its text — or `None` when the printer suppresses debug output.
    pub fn print(&self, formatter: &DiagPrinter) -> (r: Option<String>)
        ensures
            ({
                let text = dec_str(token_code(self@.kind) as nat) + " (`"@ + self@.text + "`)"@;
                match r {
                    Option::Some(line) => formatted_line(*formatter, DiagType::Debug, text)
                        == Option::Some(line@),
                    Option::None => formatted_line(*formatter, DiagType::Debug, text) is None,
                }
            }),
    {
        let mut text = dec_string(self.token_type.code());
        text.append(" (`");
        text.append(self.value.as_str());
        text.append("`)");
        proof {
            assert(text@ =~= dec_str(token_code(self@.kind) as nat) + " (`"@ + self@.text
                + "`)"@);
        }
        formatter.format_line(DiagType::Debug, &text)
    }

    pub fn get_type(&self) -> (r: TokenType)
        ensures
            r == self@.kind,
    {
        self.token_type
    }

    pub fn get_data(&self) -> (r: String)
        ensures
            r@ == tok_data(self@),
    {
        if self.token_type == TokenType::StringLiteral {
            let mut s = String::from_str("\"");
            s.append(self.value.as_str());
            s.append("\"");
            proof {
                reveal_strlit("\"");
                assert(s@ =~= tok_data(self@));
            }
            return s;
        }
        self.value.clone()
    }
}

} // verus!
