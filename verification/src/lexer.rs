use vstd::prelude::*;
use vstd::string::*;
use crate::token::{Token, TokenType, TokV};
use crate::diag::{DiagPrinter, CompileError, ErrV};

verus! {

broadcast use vstd::seq::group_seq_axioms;

// ---------------------------------------------------------------------------
// The mathematical model of the scanner. A state holds the input, the index
// one past the character under the cursor, the character itself, and whether
// the first character has been fetched yet. A NUL character, in the input or
// synthesized past its end, reads as end-of-input.
// ---------------------------------------------------------------------------

pub struct LexV {
    pub s: Seq<char>,
    pub i: int,
    pub c: char,
    pub started: bool,
}

/// The character at position `j`, or NUL past either end.
pub open spec fn char_at(s: Seq<char>, j: int) -> char {
    if 0 <= j < s.len() {
        s[j]
    } else {
        '\0'
    }
}

/// Well-formedness of a scanner state: the cursor is inside the input (or
/// one past it) and the cached character is the one at the cursor.
pub open spec fn lex_wf(v: LexV) -> bool {
    &&& v.s.len() + 1 <= usize::MAX
    &&& if v.started {
        1 <= v.i <= v.s.len() + 1 && v.c == char_at(v.s, v.i - 1)
    } else {
        v.i == 0 && v.c == '\0'
    }
}

/// Fetching the next character.
pub open spec fn lx_adv(v: LexV) -> LexV {
    LexV { s: v.s, i: v.i + 1, c: char_at(v.s, v.i), started: v.started }
}

/// Fetching the first character, once.
pub open spec fn lx_start(v: LexV) -> LexV {
    if v.started {
        v
    } else {
        LexV { s: v.s, i: v.i + 1, c: char_at(v.s, v.i), started: true }
    }
}

pub open spec fn is_ws_char(c: char) -> bool {
    c == ' ' || c == '\n'
}

pub open spec fn is_ident_char(c: char) -> bool {
    ||| 'a' as u32 <= c as u32 && c as u32 <= 'z' as u32
    ||| 'A' as u32 <= c as u32 && c as u32 <= 'Z' as u32
    ||| '0' as u32 <= c as u32 && c as u32 <= '9' as u32
    ||| c == '_'
}

/// The characters an identifier or keyword may begin with.
pub open spec fn is_ident_start(c: char) -> bool {
    ||| 'a' as u32 <= c as u32 && c as u32 <= 'z' as u32
    ||| 'A' as u32 <= c as u32 && c as u32 <= 'Z' as u32
    ||| c == '_'
}

pub open spec fn is_digit_char(c: char) -> bool {
    '0' as u32 <= c as u32 && c as u32 <= '9' as u32
}

/// The fixed punctuation characters the scanner dispatches on.
pub open spec fn is_punct_char(c: char) -> bool {
    c == ':' || c == ';' || c == '+' || c == '(' || c == ')' || c == '{' || c == '}'
}

/// The state after skipping whitespace.
pub open spec fn ws_skip(v: LexV) -> LexV
    decreases v.s.len() + 1 - v.i,
{
    if 1 <= v.i <= v.s.len() && is_ws_char(v.c) {
        ws_skip(lx_adv(v))
    } else {
        v
    }
}

/// The first position at or after `j` whose character does not continue an
/// identifier.
pub open spec fn ident_end(s: Seq<char>, j: int) -> int
    decreases s.len() - j,
{
    if j < 0 || j >= s.len() {
        j
    } else if is_ident_char(s[j]) {
        ident_end(s, j + 1)
    } else {
        j
    }
}

/// The first position at or after `j` whose character is not a digit.
pub open spec fn digit_end(s: Seq<char>, j: int) -> int
    decreases s.len() - j,
{
    if j < 0 || j >= s.len() {
        j
    } else if is_digit_char(s[j]) {
        digit_end(s, j + 1)
    } else {
        j
    }
}

/// Where a string literal's content scan stops: at the closing quote, or at
/// the last position the scan can reach before running out of input.
pub open spec fn str_end(s: Seq<char>, j: int) -> int
    decreases s.len() - j,
{
    if j >= s.len() - 1 || char_at(s, j) == '"' {
        j
    } else {
        str_end(s, j + 1)
    }
}

/// The token kind of an identifier's text: one of the five reserved words,
/// or `Identifier` for everything else.
pub open spec fn keyword_kind(s: Seq<char>) -> TokenType {
    if s == "func"@ {
        TokenType::Func
    } else if s == "int"@ {
        TokenType::Int
    } else if s == "string"@ {
        TokenType::String
    } else if s == "return"@ {
        TokenType::Return
    } else if s == "as"@ {
        TokenType::As
    } else {
        TokenType::Identifier
    }
}

/// A single- or double-character punctuation token, by direct dispatch with
/// one character of lookahead for `::`, `++` and `+=`.
pub open spec fn spec_single(v: LexV) -> (TokV, LexV) {
    if v.c == '(' {
        (TokV { kind: TokenType::OpenParen, text: seq!['('] }, lx_adv(v))
    } else if v.c == ')' {
        (TokV { kind: TokenType::CloseParen, text: seq![')'] }, lx_adv(v))
    } else if v.c == '{' {
        (TokV { kind: TokenType::OpenCurly, text: seq!['{'] }, lx_adv(v))
    } else if v.c == '}' {
        (TokV { kind: TokenType::CloseCurly, text: seq!['}'] }, lx_adv(v))
    } else if v.c == ';' {
        (TokV { kind: TokenType::Semicolon, text: seq![';'] }, lx_adv(v))
    } else if v.c == ':' {
        let v1 = lx_adv(v);
        if v1.c == ':' {
            (TokV { kind: TokenType::ColonColon, text: seq![':', ':'] }, lx_adv(v1))
        } else {
            (TokV { kind: TokenType::Colon, text: seq![':'] }, v1)
        }
    } else {
        // v.c == '+'
        let v1 = lx_adv(v);
        if v1.c == '=' {
            (TokV { kind: TokenType::PlusEqual, text: seq!['+', '='] }, lx_adv(v1))
        } else if v1.c == '+' {
            (TokV { kind: TokenType::PlusPlus, text: seq!['+', '+'] }, lx_adv(v1))
        } else {
            (TokV { kind: TokenType::Plus, text: seq!['+'] }, v1)
        }
    }
}

/// What one call of the scanner yields: the next token and the state after
/// it, or the first scan error. Whitespace is skipped before each token;
/// at end-of-input the scanner yields `Eof` and stays put.
pub open spec fn spec_next_token(v0: LexV) -> Result<(TokV, LexV), ErrV> {
    let v = ws_skip(lx_start(v0));
    if v.c == '\0' {
        Ok((TokV { kind: TokenType::Eof, text: seq!['\0'] }, v))
    } else if is_ident_start(v.c) {
        let start = v.i - 1;
        let end = ident_end(v.s, start);
        let txt = v.s.subrange(start, end);
        Ok(
            (
                TokV { kind: keyword_kind(txt), text: txt },
                LexV { s: v.s, i: end + 1, c: char_at(v.s, end), started: true },
            ),
        )
    } else if is_digit_char(v.c) {
        let start = v.i - 1;
        let end = digit_end(v.s, start);
        Ok(
            (
                TokV { kind: TokenType::NumericLiteral, text: v.s.subrange(start, end) },
                LexV { s: v.s, i: end + 1, c: char_at(v.s, end), started: true },
            ),
        )
    } else if v.c == '"' {
        let start = v.i;
        let end = str_end(v.s, start);
        if end >= v.s.len() - 1 {
            Err(ErrV::UnterminatedString)
        } else {
            Ok(
                (
                    TokV { kind: TokenType::StringLiteral, text: v.s.subrange(start, end) },
                    LexV { s: v.s, i: end + 2, c: char_at(v.s, end + 1), started: true },
                ),
            )
        }
    } else if is_punct_char(v.c) {
        Ok(spec_single(v))
    } else {
        Err(ErrV::UnknownToken { ch: v.c })
    }
}

// ---------------------------------------------------------------------------
// Facts about the model.
// ---------------------------------------------------------------------------

pub proof fn lemma_ws_skip(v: LexV)
    requires
        lex_wf(v),
    ensures
        lex_wf(ws_skip(v)),
        ws_skip(v).s == v.s,
        ws_skip(v).started == v.started,
        ws_skip(v).i >= v.i,
        !(1 <= ws_skip(v).i <= v.s.len() && is_ws_char(ws_skip(v).c)),
    decreases v.s.len() + 1 - v.i,
{
    if 1 <= v.i <= v.s.len() && is_ws_char(v.c) {
        lemma_ws_skip(lx_adv(v));
    }
}

pub proof fn lemma_ident_end(s: Seq<char>, j: int)
    requires
        0 <= j <= s.len(),
    ensures
        j <= ident_end(s, j) <= s.len(),
        !is_ident_char(char_at(s, ident_end(s, j))),
        forall|k: int| j <= k < ident_end(s, j) ==> is_ident_char(char_at(s, k)),
    decreases s.len() - j,
{
    if j < s.len() && is_ident_char(s[j]) {
        lemma_ident_end(s, j + 1);
    }
}

pub proof fn lemma_digit_end(s: Seq<char>, j: int)
    requires
        0 <= j <= s.len(),
    ensures
        j <= digit_end(s, j) <= s.len(),
        !is_digit_char(char_at(s, digit_end(s, j))),
        forall|k: int| j <= k < digit_end(s, j) ==> is_digit_char(char_at(s, k)),
    decreases s.len() - j,
{
    if j < s.len() && is_digit_char(s[j]) {
        lemma_digit_end(s, j + 1);
    }
}

pub proof fn lemma_str_end(s: Seq<char>, j: int)
    requires
        0 <= j <= s.len(),
    ensures
        j <= str_end(s, j) <= if j <= s.len() - 1 {
            s.len() - 1
        } else {
            j
        },
        str_end(s, j) >= s.len() - 1 || char_at(s, str_end(s, j)) == '"',
    decreases s.len() - j,
{
    if !(j >= s.len() - 1 || char_at(s, j) == '"') {
        lemma_str_end(s, j + 1);
    }
}

/// The scanner preserves well-formedness, never rewinds, and moves forward
/// whenever it yields a token other than `Eof`.
pub proof fn lemma_spec_next_token(v: LexV)
    requires
        lex_wf(v),
    ensures
        match spec_next_token(v) {
            Ok((t, v1)) => {
                &&& lex_wf(v1)
                &&& v1.s == v.s
                &&& v1.started
                &&& v1.i >= v.i
                &&& (t.kind != TokenType::Eof ==> v1.i >= v.i + 1)
                &&& (t.kind == TokenType::Eof ==> v1.c == '\0')
                &&& (v.s.len() + 1 - v1.i) + (if t.kind == TokenType::Eof {
                    0int
                } else {
                    1int
                }) <= v.s.len()
            },
            Err(_) => true,
        },
{
    let vs = lx_start(v);
    assert(lex_wf(vs));
    lemma_ws_skip(vs);
    let w = ws_skip(vs);
    if w.c == '\0' {
    } else if is_ident_start(w.c) {
        lemma_ident_end(w.s, w.i - 1);
        assert(is_ident_char(char_at(w.s, w.i - 1)));
        assert(ident_end(w.s, w.i - 1) >= w.i);
    } else if is_digit_char(w.c) {
        lemma_digit_end(w.s, w.i - 1);
        assert(digit_end(w.s, w.i - 1) >= w.i);
    } else if w.c == '"' {
        lemma_str_end(w.s, w.i);
    } else {
    }
}

/// Once the scanner has yielded `Eof`, every further call yields `Eof` again
/// from an unchanged state.
pub proof fn lemma_eof_idempotent(v: LexV)
    requires
        lex_wf(v),
        spec_next_token(v) matches Ok((t, _)) && t.kind == TokenType::Eof,
    ensures
        spec_next_token(v) matches Ok((t, v1)) && spec_next_token(v1) == Ok::<
            (TokV, LexV),
            ErrV,
        >((t, v1)),
{
    let vs = lx_start(v);
    lemma_ws_skip(vs);
    let w = ws_skip(vs);
    assert(w.c == '\0');
    assert(lx_start(w) == w);
    assert(ws_skip(w) == w);
}

/// Identifier classification: text equal to one of the five reserved words
/// gets that keyword's kind, and every other text is an `Identifier`.
pub proof fn lemma_keyword_classification(s: Seq<char>)
    ensures
        keyword_kind(s) == TokenType::Identifier <==> (s != "func"@ && s != "int"@ && s
            != "string"@ && s != "return"@ && s != "as"@),
{
}

// ---------------------------------------------------------------------------
// The executable scanner.
// ---------------------------------------------------------------------------

/// Whether `c` is skipped between tokens.
pub fn is_whitespace(c: char) -> (r: bool)
    ensures
        r == is_ws_char(c),
{
    if c == ' ' || c == '\n' {
        return true;
    }
    false
}

/// Whether `c` may continue an identifier.
pub fn is_identifier(c: char) -> (r: bool)
    ensures
        r == is_ident_char(c),
{
    let u = c as u32;
    if ('a' as u32 <= u && u <= 'z' as u32) || ('A' as u32 <= u && u <= 'Z' as u32) || ('0' as u32
        <= u && u <= '9' as u32) || (c == '_') {
        return true;
    }
    false
}

/// Classifies a scanned word: a keyword-table hit by exact text, otherwise
/// an identifier.
pub fn get_keyword(value: String) -> (t: Token)
    ensures
        t@.kind == keyword_kind(value@),
        t@.text == value@,
{
    if value == String::from_str("func") {
        Token::new(TokenType::Func, value)
    } else if value == String::from_str("int") {
        Token::new(TokenType::Int, value)
    } else if value == String::from_str("string") {
        Token::new(TokenType::String, value)
    } else if value == String::from_str("return") {
        Token::new(TokenType::Return, value)
    } else if value == String::from_str("as") {
        Token::new(TokenType::As, value)
    } else {
        Token::new(TokenType::Identifier, value)
    }
}

/// The scanner: a forward-only, single pass over one file's text.
pub struct Lexer {
    file_data: String,
    pub current_index: usize,
    pub current_char: char,
    first_run: bool,
    pub diag: DiagPrinter,
}

impl View for Lexer {
    type V = LexV;

    closed spec fn view(&self) -> LexV {
        LexV {
            s: self.file_data@,
            i: self.current_index as int,
            c: self.current_char,
            started: !self.first_run,
        }
    }
}

impl Lexer {
    pub fn new(file_data: String, diag_printer: DiagPrinter) -> (r: Self)
        requires
            file_data@.len() + 1 <= usize::MAX,
        ensures
            r@ == (LexV { s: file_data@, i: 0, c: '\0', started: false }),
            lex_wf(r@),
    {
        Lexer {
            file_data,
            current_index: 0,
            current_char: '\0',
            first_run: true,
            diag: diag_printer,
        }
    }

    fn next_char(&mut self)
        requires
            old(self)@.s.len() + 1 <= usize::MAX,
            old(self)@.i <= old(self)@.s.len(),
        ensures
            final(self)@ == lx_adv(old(self)@),
    {
        let len = self.file_data.as_str().unicode_len();
        if self.current_index < len {
            self.current_char = self.file_data.as_str().get_char(self.current_index);
        } else {
            self.current_char = '\0';
        }
        self.current_index = self.current_index + 1;
    }

    fn skip_whitespace(&mut self)
        requires
            lex_wf(old(self)@),
        ensures
            final(self)@ == ws_skip(old(self)@),
            lex_wf(final(self)@),
    {
        let ghost v0 = self@;
        proof {
            lemma_ws_skip(v0);
        }
        while is_whitespace(self.current_char)
            invariant
                lex_wf(self@),
                ws_skip(self@) == ws_skip(v0),
            decreases self@.s.len() + 1 - self@.i,
        {
            self.next_char();
        }
    }

    fn parse_keywordidentifier(&mut self) -> (t: Token)
        requires
            lex_wf(old(self)@),
            old(self)@.started,
        ensures
            lex_wf(final(self)@),
            ({
                let v0 = old(self)@;
                let end = ident_end(v0.s, v0.i - 1);
                let txt = v0.s.subrange(v0.i - 1, end);
                &&& t@.kind == keyword_kind(txt)
                &&& t@.text == txt
                &&& final(self)@ == (LexV { s: v0.s, i: end + 1, c: char_at(v0.s, end), started: true })
            }),
    {
        let ghost v0 = self@;
        proof {
            lemma_ident_end(v0.s, v0.i - 1);
        }
        let start: usize = self.current_index - 1;
        while is_identifier(self.current_char)
            invariant
                lex_wf(self@),
                self@.s == v0.s,
                self@.started,
                v0.i - 1 == start as int,
                start as int <= self@.i - 1,
                ident_end(v0.s, start as int) == ident_end(v0.s, self@.i - 1),
            decreases self@.s.len() + 1 - self@.i,
        {
            self.next_char();
        }
        let end: usize = self.current_index - 1;
        proof {
            assert(ident_end(v0.s, self@.i - 1) == self@.i - 1);
            lemma_ident_end(v0.s, start as int);
        }
        let text = self.file_data.as_str().substring_char(start, end).to_owned();
        get_keyword(text)
    }

    fn parse_numeric(&mut self) -> (t: Token)
        requires
            lex_wf(old(self)@),
            old(self)@.started,
        ensures
            lex_wf(final(self)@),
            ({
                let v0 = old(self)@;
                let end = digit_end(v0.s, v0.i - 1);
                &&& t@.kind == TokenType::NumericLiteral
                &&& t@.text == v0.s.subrange(v0.i - 1, end)
                &&& final(self)@ == (LexV { s: v0.s, i: end + 1, c: char_at(v0.s, end), started: true })
            }),
    {
        let ghost v0 = self@;
        proof {
            lemma_digit_end(v0.s, v0.i - 1);
        }
        let start: usize = self.current_index - 1;
        while self.current_char >= '0' && self.current_char <= '9'
            invariant
                lex_wf(self@),
                self@.s == v0.s,
                self@.started,
                v0.i - 1 == start as int,
                start as int <= self@.i - 1,
                digit_end(v0.s, start as int) == digit_end(v0.s, self@.i - 1),
            decreases self@.s.len() + 1 - self@.i,
        {
            self.next_char();
        }
        let end: usize = self.current_index - 1;
        proof {
            assert(digit_end(v0.s, self@.i - 1) == self@.i - 1);
            lemma_digit_end(v0.s, start as int);
        }
        let text = self.file_data.as_str().substring_char(start, end).to_owned();
        Token::new(TokenType::NumericLiteral, text)
    }

    fn parse_string(&mut self) -> (r: Result<Token, CompileError>)
        requires
            lex_wf(old(self)@),
            old(self)@.started,
            old(self)@.c == '"',
        ensures
            lex_wf(final(self)@),
            final(self)@.s == old(self)@.s,
            final(self)@.started,
            final(self)@.i >= old(self)@.i,
            ({
                let v0 = old(self)@;
                let end = str_end(v0.s, v0.i);
                if end >= v0.s.len() - 1 {
                    r matches Err(e) && e@ == ErrV::UnterminatedString
                } else {
                    match r {
                        Ok(t) => {
                            &&& t@.kind == TokenType::StringLiteral
                            &&& t@.text == v0.s.subrange(v0.i, end)
                            &&& final(self)@ == (LexV {
                                s: v0.s,
                                i: end + 2,
                                c: char_at(v0.s, end + 1),
                                started: true,
                            })
                        },
                        Err(_) => false,
                    }
                }
            }),
    {
        let ghost v0 = self@;
        proof {
            lemma_str_end(v0.s, v0.i);
        }
        let start: usize = self.current_index;
        let len = self.file_data.as_str().unicode_len();
        self.next_char();
        while self.current_char != '"' && self.current_index < len
            invariant
                lex_wf(self@),
                self@.s == v0.s,
                self@.started,
                len == v0.s.len(),
                start as int == v0.i,
                start as int <= self@.i - 1,
                str_end(v0.s, start as int) == str_end(v0.s, self@.i - 1),
            decreases self@.s.len() + 1 - self@.i,
        {
            self.next_char();
        }
        let end: usize = self.current_index - 1;
        proof {
            assert(str_end(v0.s, self@.i - 1) == self@.i - 1);
            lemma_str_end(v0.s, start as int);
        }
        if self.current_index >= len {
            return Err(CompileError::UnterminatedString);
        }
        let text = self.file_data.as_str().substring_char(start, end).to_owned();
        self.next_char();
        Ok(Token::new(TokenType::StringLiteral, text))
    }

    fn parse_singletoken(&mut self) -> (t: Token)
        requires
            lex_wf(old(self)@),
            old(self)@.started,
            is_punct_char(old(self)@.c),
        ensures
            lex_wf(final(self)@),
            t@ == spec_single(old(self)@).0,
            final(self)@ == spec_single(old(self)@).1,
    {
        let c = self.current_char;
        if c == '(' {
            self.next_char();
            proof {
                reveal_strlit("(");
                assert("("@ =~= seq!['(']);
            }
            Token::new(TokenType::OpenParen, String::from_str("("))
        } else if c == ')' {
            self.next_char();
            proof {
                reveal_strlit(")");
                assert(")"@ =~= seq![')']);
            }
            Token::new(TokenType::CloseParen, String::from_str(")"))
        } else if c == '{' {
            self.next_char();
            proof {
                reveal_strlit("{");
                assert("{"@ =~= seq!['{']);
            }
            Token::new(TokenType::OpenCurly, String::from_str("{"))
        } else if c == ';' {
            self.next_char();
            proof {
                reveal_strlit(";");
                assert(";"@ =~= seq![';']);
            }
            Token::new(TokenType::Semicolon, String::from_str(";"))
        } else if c == ':' {
            self.next_char();
            if self.current_char == ':' {
                self.next_char();
                proof {
                    reveal_strlit("::");
                    assert("::"@ =~= seq![':', ':']);
                }
                Token::new(TokenType::ColonColon, String::from_str("::"))
            } else {
                proof {
                    reveal_strlit(":");
                    assert(":"@ =~= seq![':']);
                }
                Token::new(TokenType::Colon, String::from_str(":"))
            }
        } else if c == '+' {
            self.next_char();
            if self.current_char == '=' {
                self.next_char();
                proof {
                    reveal_strlit("+=");
                    assert("+="@ =~= seq!['+', '=']);
                }
                Token::new(TokenType::PlusEqual, String::from_str("+="))
            } else if self.current_char == '+' {
                self.next_char();
                proof {
                    reveal_strlit("++");
                    assert("++"@ =~= seq!['+', '+']);
                }
                Token::new(TokenType::PlusPlus, String::from_str("++"))
            } else {
                proof {
                    reveal_strlit("+");
                    assert("+"@ =~= seq!['+']);
                }
                Token::new(TokenType::Plus, String::from_str("+"))
            }
        } else {
            // is_punct_char leaves only '}'
            self.next_char();
            proof {
                reveal_strlit("}");
                assert("}"@ =~= seq!['}']);
            }
            Token::new(TokenType::CloseCurly, String::from_str("}"))
        }
    }

    /// The next token of the input. Yields `Eof` forever once the input is
    /// exhausted; a malformed lexeme is the pipeline's first and only
    /// diagnostic.
    pub fn next_token(&mut self) -> (r: Result<Token, CompileError>)
        requires
            lex_wf(old(self)@),
        ensures
            lex_wf(final(self)@),
            final(self)@.s == old(self)@.s,
            final(self)@.started,
            final(self)@.i >= old(self)@.i,
            match r {
                Ok(t) => {
                    &&& spec_next_token(old(self)@) == Ok::<(TokV, LexV), ErrV>((t@, final(self)@))
                    &&& (t@.kind != TokenType::Eof ==> final(self)@.i >= old(self)@.i + 1)
                },
                Err(e) => spec_next_token(old(self)@) matches Err(ev) && ev == e@,
            },
    {
        let ghost v0 = self@;
        proof {
            lemma_spec_next_token(v0);
        }
        if self.first_run {
            self.next_char();
            self.first_run = false;
        }
        proof {
            assert(self@ == lx_start(v0));
        }
        self.skip_whitespace();
        let ghost w = self@;
        proof {
            lemma_ws_skip(lx_start(v0));
        }
        if self.current_char == '\0' {
            proof {
                reveal_strlit("\0");
                assert("\0"@ =~= seq!['\0']);
            }
            return Ok(Token::new(TokenType::Eof, String::from_str("\0")));
        }
        let c = self.current_char;
        let u = c as u32;
        if ('a' as u32 <= u && u <= 'z' as u32) || ('A' as u32 <= u && u <= 'Z' as u32) || c == '_' {
            Ok(self.parse_keywordidentifier())
        } else if '0' as u32 <= u && u <= '9' as u32 {
            Ok(self.parse_numeric())
        } else if c == '"' {
            self.parse_string()
        } else if c == ':' || c == ';' || c == '+' || c == '(' || c == ')' || c == '{' || c == '}' {
            Ok(self.parse_singletoken())
        } else {
            Err(CompileError::UnknownToken { ch: c })
        }
    }
}

} // verus!
