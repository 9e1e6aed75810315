//! The scanner: a verified single pass from source text to positioned
//! tokens, proved against the model in [`crate::scan_model`].

use vstd::prelude::*;

use crate::chars;
use crate::chars::{is_digit, is_ident_start};
use crate::decimal::u64_to_string;
use crate::scan_model::{
    comment_body_end, comment_step, count_nl, digit_run_end, digits_val, eof_context,
    ident_run_end, identifier_step, lemma_digit_run_end, lemma_digits_val_take_le,
    lemma_step_basic, number_step, spec_scan, spec_scan_from, spec_step, step_context,
    string_body_end, string_step, StepModel,
};
use crate::token::{tokens_view, Token, TokenContext, TokenContextModel};
use crate::{FellowError, ScanError, ScanErrorModel};

verus! {

use vstd::string::{StrSliceExecFns, StringExecFns};

/// The state of a scan in progress: the input, the offset where the current
/// lexeme began, the current read offset, and the current line counter.
pub struct ScanState<'a> {
    source: &'a str,
    length: usize,
    lexeme_start: usize,
    current: usize,
    current_line: usize,
}

impl<'a> ScanState<'a> {
    /// The cached length matches the input, the offsets are ordered and in
    /// bounds, and the line counter never exceeds the characters read.
    closed spec fn wf(self) -> bool {
        &&& self.length == self.source@.len()
        &&& self.lexeme_start <= self.current <= self.length
        &&& self.current_line <= self.current
    }

    fn new(source_code: &'a str) -> (r: Self)
        ensures
            r.wf(),
            r.source@ == source_code@,
            r.lexeme_start == 0,
            r.current == 0,
            r.current_line == 0,
    {
        let length = source_code.unicode_len();
        Self { source: source_code, length, lexeme_start: 0, current: 0, current_line: 0 }
    }

    fn mark_lexeme_start(&mut self)
        requires
            old(self).wf(),
        ensures
            final(self).wf(),
            *final(self) == (ScanState { lexeme_start: old(self).current, ..*old(self) }),
    {
        self.lexeme_start = self.current;
    }

    /// The source substring of the current lexeme.
    fn lexeme(&self) -> (r: String)
        requires
            self.wf(),
        ensures
            r@ == self.source@.subrange(self.lexeme_start as int, self.current as int),
    {
        self.source.substring_char(self.lexeme_start, self.current).to_owned()
    }

    fn is_at_end(&self) -> (r: bool)
        requires
            self.wf(),
        ensures
            r == (self.current >= self.source@.len()),
    {
        self.current >= self.length
    }

    /// Consume and return the next character.
    fn next(&mut self) -> (c: char)
        requires
            old(self).wf(),
            old(self).current < old(self).source@.len(),
        ensures
            final(self).wf(),
            *final(self) == (ScanState { current: (old(self).current + 1) as usize, ..*old(self) }),
            c == old(self).source@[old(self).current as int],
    {
        let c = self.source.get_char(self.current);
        self.current = self.current + 1;
        c
    }

    /// Consume the next character only if it is the expected one.
    fn next_matches(&mut self, expected: char) -> (r: bool)
        requires
            old(self).wf(),
        ensures
            final(self).wf(),
            r == (old(self).current < old(self).source@.len() && old(self).source@[old(
                self,
            ).current as int] == expected),
            r ==> *final(self) == (ScanState {
                current: (old(self).current + 1) as usize,
                ..*old(self)
            }),
            !r ==> *final(self) == *old(self),
    {
        if self.is_at_end() || self.source.get_char(self.current) != expected {
            false
        } else {
            self.current = self.current + 1;
            true
        }
    }

    /// The next character, without consuming it; a NUL stands in at the end
    /// of the input.
    fn peek(&self) -> (c: char)
        requires
            self.wf(),
        ensures
            c == if self.current < self.source@.len() {
                self.source@[self.current as int]
            } else {
                '\0'
            },
    {
        if self.is_at_end() {
            '\0'
        } else {
            self.source.get_char(self.current)
        }
    }

    /// Wrap a token in the source context it was found in: the current
    /// lexeme, line and offsets. (The result is always `Ok`; the `Result`
    /// shape matches the scanning functions around it.)
    fn contextualize(&self, token: Token) -> (r: Result<TokenContext, FellowError>)
        requires
            self.wf(),
        ensures
            r matches Ok(tc) && tc@ == (TokenContextModel {
                token: token@,
                lexeme: self.source@.subrange(self.lexeme_start as int, self.current as int),
                line: self.current_line as int,
                start: self.lexeme_start as int,
                end: self.current as int,
            }),
    {
        let lexeme = self.lexeme();
        Ok(TokenContext::new(token, lexeme, self.current_line, self.lexeme_start, self.current))
    }

    /// The error for an input unit that begins no token, positioned just
    /// past that unit.
    fn error(&self) -> (r: FellowError)
        requires
            self.wf(),
        ensures
            r matches FellowError::ScanError(se) && se@ == (ScanErrorModel {
                message: crate::scan_model::unscannable_message(self.current as int),
                line: self.current_line as int,
                position: self.current as int,
            }),
    {
        let mut message = String::from_str("Failed to scan at ");
        let number = u64_to_string(self.current as u64);
        message.append(number.as_str());
        FellowError::ScanError(
            ScanError { message, line: self.current_line, position: self.current },
        )
    }

    /// Scan the rest of a string literal, the opening quote already
    /// consumed: through the closing quote, counting embedded newlines, or
    /// to an unterminated-string error at the end of the input.
    fn string(&mut self) -> (r: Result<TokenContext, FellowError>)
        requires
            old(self).wf(),
            old(self).current == old(self).lexeme_start + 1,
            old(self).source@[old(self).lexeme_start as int] == '"',
        ensures
            final(self).wf(),
            final(self).source@ == old(self).source@,
            match string_step(
                old(self).source@,
                old(self).lexeme_start as int,
                old(self).current_line as int,
            ) {
                StepModel::Emit(st) => ({
                    &&& r matches Ok(tc) && tc@ == step_context(
                        old(self).source@,
                        old(self).lexeme_start as int,
                        st,
                    )
                    &&& final(self).current as int == st.end
                    &&& final(self).current_line as int == st.line
                    &&& final(self).lexeme_start == old(self).lexeme_start
                }),
                StepModel::Fail(e) => r matches Err(fe) && (fe matches FellowError::ScanError(se)
                    && se@ == e),
            },
    {
        let ghost s = old(self).source@;
        let ghost oc = old(self).current as int;
        let ghost start_line = old(self).current_line as int;
        while !self.is_at_end() && self.peek() != '"'
            invariant
                self.wf(),
                self.source@ == s,
                self.lexeme_start == old(self).lexeme_start,
                oc <= self.current as int <= s.len(),
                string_body_end(s, oc) == string_body_end(s, self.current as int),
                self.current_line as int == start_line + count_nl(s, oc, self.current as int),
            decreases s.len() - self.current,
        {
            let ch = self.next();
            if ch == '\n' {
                self.current_line = self.current_line + 1;
            }
        }
        proof {
            crate::scan_model::lemma_string_body_end(s, oc);
        }
        if self.is_at_end() {
            let mut message = String::from_str("Unterminated string ");
            let lex = self.lexeme();
            message.append(lex.as_str());
            Err(
                FellowError::ScanError(
                    ScanError { message, line: self.current_line, position: self.current },
                ),
            )
        } else {
            // Consume the closing quote; the payload is the text between
            // the quotes.
            self.next();
            let body = self.source.substring_char(
                self.lexeme_start + 1,
                self.current - 1,
            ).to_owned();
            self.contextualize(Token::StringLit(body))
        }
    }

    /// Scan the rest of a line comment, both marker characters already
    /// consumed: through the terminating newline, which it consumes and
    /// counts, or to the end of the input.
    fn comment(&mut self) -> (r: Result<TokenContext, FellowError>)
        requires
            old(self).wf(),
            old(self).current == old(self).lexeme_start + 2,
            old(self).source@[old(self).lexeme_start as int] == '/',
            old(self).source@[old(self).lexeme_start + 1] == '/',
        ensures
            final(self).wf(),
            final(self).source@ == old(self).source@,
            match comment_step(
                old(self).source@,
                old(self).lexeme_start as int,
                old(self).current_line as int,
            ) {
                StepModel::Emit(st) => ({
                    &&& r matches Ok(tc) && tc@ == step_context(
                        old(self).source@,
                        old(self).lexeme_start as int,
                        st,
                    )
                    &&& final(self).current as int == st.end
                    &&& final(self).current_line as int == st.line
                    &&& final(self).lexeme_start == old(self).lexeme_start
                }),
                StepModel::Fail(e) => r matches Err(fe) && (fe matches FellowError::ScanError(se)
                    && se@ == e),
            },
    {
        let ghost s = old(self).source@;
        let ghost oc = old(self).current as int;
        while !self.is_at_end() && self.peek() != '\n'
            invariant
                self.wf(),
                self.source@ == s,
                self.lexeme_start == old(self).lexeme_start,
                self.current_line == old(self).current_line,
                oc <= self.current as int <= s.len(),
                comment_body_end(s, oc) == comment_body_end(s, self.current as int),
            decreases s.len() - self.current,
        {
            self.next();
        }
        proof {
            crate::scan_model::lemma_comment_body_end(s, oc);
        }
        if !self.is_at_end() {
            // Consume and count the terminating newline; it belongs to the
            // comment's span but not to its text.
            self.next();
            self.current_line = self.current_line + 1;
            let text = self.source.substring_char(
                self.lexeme_start + 2,
                self.current - 1,
            ).to_owned();
            self.contextualize(Token::Comment(text))
        } else {
            let text = self.source.substring_char(self.lexeme_start + 2, self.current).to_owned();
            self.contextualize(Token::Comment(text))
        }
    }

    /// Scan the rest of a numeric literal, its first digit already
    /// consumed: a maximal digit run, with a fractional part only when a
    /// `.` and a further digit directly follow. A fractional part makes a
    /// float token carrying the lexeme text; otherwise the run is an
    /// integer, and one beyond `i64::MAX` is an error.
    fn integer_or_float(&mut self) -> (r: Result<TokenContext, FellowError>)
        requires
            old(self).wf(),
            old(self).current == old(self).lexeme_start + 1,
            is_digit(old(self).source@[old(self).lexeme_start as int]),
        ensures
            final(self).wf(),
            final(self).source@ == old(self).source@,
            match number_step(
                old(self).source@,
                old(self).lexeme_start as int,
                old(self).current_line as int,
            ) {
                StepModel::Emit(st) => ({
                    &&& r matches Ok(tc) && tc@ == step_context(
                        old(self).source@,
                        old(self).lexeme_start as int,
                        st,
                    )
                    &&& final(self).current as int == st.end
                    &&& final(self).current_line as int == st.line
                    &&& final(self).lexeme_start == old(self).lexeme_start
                }),
                StepModel::Fail(e) => r matches Err(fe) && (fe matches FellowError::ScanError(se)
                    && se@ == e),
            },
    {
        let ghost s = old(self).source@;
        let ghost ls = old(self).lexeme_start as int;
        while !self.is_at_end() && chars::digit(self.peek())
            invariant
                self.wf(),
                self.source@ == s,
                self.lexeme_start == old(self).lexeme_start,
                self.current_line == old(self).current_line,
                ls + 1 <= self.current as int <= s.len(),
                digit_run_end(s, ls) == digit_run_end(s, self.current as int),
            decreases s.len() - self.current,
        {
            self.next();
        }
        proof {
            lemma_digit_run_end(s, ls);
        }
        let d1 = self.current;
        let has_fraction = if d1 < self.length && d1 + 1 < self.length {
            self.source.get_char(d1) == '.' && chars::digit(self.source.get_char(d1 + 1))
        } else {
            false
        };
        if has_fraction {
            // Consume the dot, then the maximal fractional digit run.
            self.next();
            while !self.is_at_end() && chars::digit(self.peek())
                invariant
                    self.wf(),
                    self.source@ == s,
                    self.lexeme_start == old(self).lexeme_start,
                    self.current_line == old(self).current_line,
                    d1 + 1 <= self.current as int <= s.len(),
                    digit_run_end(s, d1 + 1 as int) == digit_run_end(s, self.current as int),
                decreases s.len() - self.current,
            {
                self.next();
            }
            proof {
                lemma_digit_run_end(s, d1 + 1 as int);
            }
            let text = self.lexeme();
            self.contextualize(Token::Float(text))
        } else {
            match parse_digits(self.source, self.lexeme_start, d1) {
                Some(value) => self.contextualize(Token::Integer(value)),
                None => {
                    let message = String::from_str("number too large to fit in target type");
                    Err(
                        FellowError::ScanError(
                            ScanError { message, line: self.current_line, position: self.current },
                        ),
                    )
                },
            }
        }
    }

    /// Scan the rest of an identifier-shaped lexeme, its first character
    /// already consumed: a maximal run of identifier characters, matched
    /// whole against the keyword table.
    fn keyword_or_identifier(&mut self) -> (r: Result<TokenContext, FellowError>)
        requires
            old(self).wf(),
            old(self).current == old(self).lexeme_start + 1,
            is_ident_start(old(self).source@[old(self).lexeme_start as int]),
        ensures
            final(self).wf(),
            final(self).source@ == old(self).source@,
            match identifier_step(
                old(self).source@,
                old(self).lexeme_start as int,
                old(self).current_line as int,
            ) {
                StepModel::Emit(st) => ({
                    &&& r matches Ok(tc) && tc@ == step_context(
                        old(self).source@,
                        old(self).lexeme_start as int,
                        st,
                    )
                    &&& final(self).current as int == st.end
                    &&& final(self).current_line as int == st.line
                    &&& final(self).lexeme_start == old(self).lexeme_start
                }),
                StepModel::Fail(e) => r matches Err(fe) && (fe matches FellowError::ScanError(se)
                    && se@ == e),
            },
    {
        let ghost s = old(self).source@;
        let ghost oc = old(self).current as int;
        while !self.is_at_end() && chars::ident_cont(self.peek())
            invariant
                self.wf(),
                self.source@ == s,
                self.lexeme_start == old(self).lexeme_start,
                self.current_line == old(self).current_line,
                oc <= self.current as int <= s.len(),
                ident_run_end(s, oc) == ident_run_end(s, self.current as int),
            decreases s.len() - self.current,
        {
            self.next();
        }
        let lex = self.lexeme();
        let token = if chars::str_eq(lex.as_str(), "and") { Token::And }
        else if chars::str_eq(lex.as_str(), "class") { Token::Class }
        else if chars::str_eq(lex.as_str(), "else") { Token::Else }
        else if chars::str_eq(lex.as_str(), "false") { Token::False }
        else if chars::str_eq(lex.as_str(), "fun") { Token::Fun }
        else if chars::str_eq(lex.as_str(), "for") { Token::For }
        else if chars::str_eq(lex.as_str(), "if") { Token::If }
        else if chars::str_eq(lex.as_str(), "nil") { Token::Nil }
        else if chars::str_eq(lex.as_str(), "or") { Token::Or }
        else if chars::str_eq(lex.as_str(), "print") { Token::Print }
        else if chars::str_eq(lex.as_str(), "return") { Token::Return }
        else if chars::str_eq(lex.as_str(), "super") { Token::Super }
        else if chars::str_eq(lex.as_str(), "this") { Token::This }
        else if chars::str_eq(lex.as_str(), "true") { Token::True }
        else if chars::str_eq(lex.as_str(), "var") { Token::Var }
        else if chars::str_eq(lex.as_str(), "while") { Token::While }
        else { Token::Identifier(lex) };
        self.contextualize(token)
    }

    /// Consume the next lexeme and emit its token: single-character tokens
    /// directly, two-character operators by one character of greedy
    /// lookahead, and strings, comments, numbers and identifiers through
    /// their own sub-scanners. A character that begins no token is an
    /// error.
    fn scan_token(&mut self) -> (r: Result<TokenContext, FellowError>)
        requires
            old(self).wf(),
            old(self).lexeme_start == old(self).current,
            old(self).current < old(self).source@.len(),
        ensures
            final(self).wf(),
            final(self).source@ == old(self).source@,
            match spec_step(
                old(self).source@,
                old(self).current as int,
                old(self).current_line as int,
            ) {
                StepModel::Emit(st) => ({
                    &&& r matches Ok(tc) && tc@ == step_context(
                        old(self).source@,
                        old(self).current as int,
                        st,
                    )
                    &&& final(self).current as int == st.end
                    &&& final(self).current_line as int == st.line
                    &&& final(self).lexeme_start == old(self).lexeme_start
                }),
                StepModel::Fail(e) => r matches Err(fe) && (fe matches FellowError::ScanError(se)
                    && se@ == e),
            },
    {
        let c = self.next();
        if c == '(' { self.contextualize(Token::LeftParen) }
        else if c == ')' { self.contextualize(Token::RightParen) }
        else if c == '{' { self.contextualize(Token::LeftBrace) }
        else if c == '}' { self.contextualize(Token::RightBrace) }
        else if c == ',' { self.contextualize(Token::Comma) }
        else if c == '.' { self.contextualize(Token::Dot) }
        else if c == '-' { self.contextualize(Token::Minus) }
        else if c == '+' { self.contextualize(Token::Plus) }
        else if c == ';' { self.contextualize(Token::Semicolon) }
        else if c == '*' { self.contextualize(Token::Star) }
        else if c == '\\' { self.contextualize(Token::ForwardSlash) }
        else if c == '!' {
            if self.next_matches('=') {
                self.contextualize(Token::BangEqual)
            } else {
                self.contextualize(Token::Bang)
            }
        }
        else if c == '=' {
            if self.next_matches('=') {
                self.contextualize(Token::EqualEqual)
            } else {
                self.contextualize(Token::Equal)
            }
        }
        else if c == '<' {
            if self.next_matches('=') {
                self.contextualize(Token::LessEqual)
            } else {
                self.contextualize(Token::Less)
            }
        }
        else if c == '>' {
            if self.next_matches('=') {
                self.contextualize(Token::GreaterEqual)
            } else {
                self.contextualize(Token::Greater)
            }
        }
        else if c == '/' {
            if self.next_matches('/') {
                self.comment()
            } else {
                self.contextualize(Token::Slash)
            }
        }
        else if c == ':' {
            if self.next_matches(':') {
                self.contextualize(Token::ColonColon)
            } else {
                self.contextualize(Token::Colon)
            }
        }
        else if c == ' ' { self.contextualize(Token::Space) }
        else if c == '\r' { self.contextualize(Token::CarriageReturn) }
        else if c == '\t' { self.contextualize(Token::Tab) }
        else if c == '\n' {
            self.current_line = self.current_line + 1;
            self.contextualize(Token::NewLine)
        }
        else if c == '"' { self.string() }
        else if chars::digit(c) { self.integer_or_float() }
        else if chars::ident_start(c) { self.keyword_or_identifier() }
        else { Err(self.error()) }
    }
}

/// Scan a whole source text into positioned tokens.
///
/// On success the result is the token sequence that [`spec_scan`] assigns to
/// the input: one token for every lexeme, in order, closed by the zero-width
/// end-of-file token. On failure it is the first scan error, exactly as the
/// model describes it.
pub fn scan(source_code: &str) -> (r: Result<Vec<TokenContext>, FellowError>)
    ensures
        match spec_scan(source_code@) {
            Ok(models) => r matches Ok(toks) && tokens_view(toks@) == models,
            Err(e) => r matches Err(fe) && (fe matches FellowError::ScanError(se) && se@ == e),
        },
{
    let ghost s = source_code@;
    let mut state = ScanState::new(source_code);
    let mut tokens: Vec<TokenContext> = Vec::new();
    proof {
        assert(tokens_view(tokens@) =~= Seq::<TokenContextModel>::empty());
        assert(Seq::<TokenContextModel>::empty() + spec_scan_from(s, 0, 0)->Ok_0 =~= spec_scan_from(
            s,
            0,
            0,
        )->Ok_0);
    }
    while !state.is_at_end()
        invariant
            state.wf(),
            state.source@ == s,
            s == source_code@,
            match spec_scan_from(s, state.current as int, state.current_line as int) {
                Ok(rest) => spec_scan(s) == Ok::<_, ScanErrorModel>(tokens_view(tokens@) + rest),
                Err(e) => spec_scan(s) == Err::<Seq<TokenContextModel>, _>(e),
            },
        decreases s.len() - state.current,
    {
        let ghost pre_current = state.current as int;
        let ghost pre_line = state.current_line as int;
        let ghost pre_tokens = tokens@;
        state.mark_lexeme_start();
        let token = match state.scan_token() {
            Ok(tc) => tc,
            Err(e) => {
                return Err(e);
            },
        };
        proof {
            lemma_step_basic(s, pre_current, pre_line);
        }
        tokens.push(token);
        proof {
            let st = spec_step(s, pre_current, pre_line)->Emit_0;
            assert(tokens_view(tokens@) =~= tokens_view(pre_tokens).push(token@));
            match spec_scan_from(s, state.current as int, state.current_line as int) {
                Ok(rest) => {
                    assert(tokens_view(pre_tokens) + (seq![step_context(s, pre_current, st)]
                        + rest) =~= tokens_view(tokens@) + rest);
                },
                Err(_) => {},
            }
        }
    }
    state.mark_lexeme_start();
    let eof = match state.contextualize(Token::EndOfFile) {
        Ok(tc) => tc,
        Err(_) => {
            proof {
                assert(false);
            }
            return Err(FellowError::InterpreterError);
        },
    };
    proof {
        assert(eof@ == eof_context(s, state.current_line as int)) by {
            assert(s.subrange(state.current as int, state.current as int) =~= Seq::<
                char,
            >::empty());
        }
    }
    tokens.push(eof);
    proof {
        assert(tokens_view(tokens@) =~= tokens_view(tokens@.drop_last()).push(eof@));
        match spec_scan_from(s, state.current as int, state.current_line as int) {
            Ok(rest) => {
                assert(rest =~= seq![eof_context(s, state.current_line as int)]);
                assert(tokens_view(tokens@.drop_last()) + rest =~= tokens_view(tokens@));
            },
            Err(_) => {},
        }
    }
    Ok(tokens)
}

/// Parse the decimal digit run `source[from..to]` as an `i64`, or report
/// that its value exceeds `i64::MAX`.
fn parse_digits(source: &str, from: usize, to: usize) -> (r: Option<i64>)
    requires
        from <= to <= source@.len(),
        forall|j: int| from <= j < to ==> is_digit(#[trigger] source@[j]),
    ensures
        match r {
            Some(value) => digits_val(source@.subrange(from as int, to as int)) == value as int,
            None => digits_val(source@.subrange(from as int, to as int)) > i64::MAX,
        },
{
    let ghost s = source@;
    let ghost whole = s.subrange(from as int, to as int);
    let mut acc: i64 = 0;
    let mut k: usize = from;
    proof {
        assert(s.subrange(from as int, from as int) =~= Seq::<char>::empty());
    }
    while k < to
        invariant
            from <= k <= to <= s.len(),
            s == source@,
            whole == s.subrange(from as int, to as int),
            forall|j: int| from <= j < to ==> is_digit(#[trigger] s[j]),
            0 <= acc,
            acc as int == digits_val(s.subrange(from as int, k as int)),
        decreases to - k,
    {
        let c = source.get_char(k);
        let d = (c as u32) - 48;
        let ghost prefix = s.subrange(from as int, k as int);
        let ghost extended = s.subrange(from as int, k + 1 as int);
        proof {
            assert(is_digit(s[k as int]));
            assert(extended.drop_last() =~= prefix);
            assert(extended.last() == s[k as int]);
        }
        if acc > (i64::MAX - d as i64) / 10 {
            proof {
                vstd::arithmetic::div_mod::lemma_fundamental_div_mod(
                    i64::MAX - (d as int),
                    10,
                );
                assert(digits_val(extended) > i64::MAX);
                lemma_digits_val_take_le(whole, k as int + 1 - from as int);
                assert(whole.take(k as int + 1 - from as int) =~= extended);
            }
            return None;
        }
        proof {
            vstd::arithmetic::div_mod::lemma_fundamental_div_mod(i64::MAX - (d as int), 10);
            assert(acc * 10 + d <= i64::MAX);
        }
        acc = acc * 10 + d as i64;
        k = k + 1;
    }
    Some(acc)
}

} // verus!
