//! The mathematical model of scanning.
//!
//! [`spec_scan`] says, for every source text, exactly which token sequence a
//! scan yields or which error it stops at. The executable scanner is proved
//! against this model, and the general properties of scanning — partition of
//! the input, exact round-tripping, line counting, greedy operator matching
//! and the keyword boundary — are proved of the model itself at the end of
//! this module.

use vstd::prelude::*;

use crate::ScanErrorModel;
use crate::chars::{is_digit, is_ident_cont, is_ident_start};
use crate::decimal::dec_nat;
use crate::token::{TokenContextModel, TokenModel};

verus! {

// --- Maximal runs of characters ---------------------------------------

/// The first offset at or after `i` that does not hold a decimal digit
/// (or the end of the input).
pub open spec fn digit_run_end(s: Seq<char>, i: int) -> int
    decreases s.len() - i,
{
    if !(0 <= i < s.len()) {
        i
    } else if is_digit(s[i]) {
        digit_run_end(s, i + 1)
    } else {
        i
    }
}

/// The first offset at or after `i` that does not continue an identifier.
pub open spec fn ident_run_end(s: Seq<char>, i: int) -> int
    decreases s.len() - i,
{
    if !(0 <= i < s.len()) {
        i
    } else if is_ident_cont(s[i]) {
        ident_run_end(s, i + 1)
    } else {
        i
    }
}

/// The offset of the first double quote at or after `i`, or the end of the
/// input if none follows.
pub open spec fn string_body_end(s: Seq<char>, i: int) -> int
    decreases s.len() - i,
{
    if !(0 <= i < s.len()) {
        i
    } else if s[i] != '"' {
        string_body_end(s, i + 1)
    } else {
        i
    }
}

/// The offset of the first newline at or after `i`, or the end of the input
/// if none follows.
pub open spec fn comment_body_end(s: Seq<char>, i: int) -> int
    decreases s.len() - i,
{
    if !(0 <= i < s.len()) {
        i
    } else if s[i] != '\n' {
        comment_body_end(s, i + 1)
    } else {
        i
    }
}

pub proof fn lemma_digit_run_end(s: Seq<char>, i: int)
    requires
        0 <= i <= s.len(),
    ensures
        i <= digit_run_end(s, i) <= s.len(),
        forall|j: int| i <= j < digit_run_end(s, i) ==> is_digit(#[trigger] s[j]),
        digit_run_end(s, i) < s.len() ==> !is_digit(s[digit_run_end(s, i)]),
    decreases s.len() - i,
{
    if i < s.len() && is_digit(s[i]) {
        lemma_digit_run_end(s, i + 1);
    }
}

pub proof fn lemma_ident_run_end(s: Seq<char>, i: int)
    requires
        0 <= i <= s.len(),
    ensures
        i <= ident_run_end(s, i) <= s.len(),
        forall|j: int| i <= j < ident_run_end(s, i) ==> is_ident_cont(#[trigger] s[j]),
        ident_run_end(s, i) < s.len() ==> !is_ident_cont(s[ident_run_end(s, i)]),
    decreases s.len() - i,
{
    if i < s.len() && is_ident_cont(s[i]) {
        lemma_ident_run_end(s, i + 1);
    }
}

pub proof fn lemma_string_body_end(s: Seq<char>, i: int)
    requires
        0 <= i <= s.len(),
    ensures
        i <= string_body_end(s, i) <= s.len(),
        forall|j: int| i <= j < string_body_end(s, i) ==> #[trigger] s[j] != '"',
        string_body_end(s, i) < s.len() ==> s[string_body_end(s, i)] == '"',
    decreases s.len() - i,
{
    if i < s.len() && s[i] != '"' {
        lemma_string_body_end(s, i + 1);
    }
}

pub proof fn lemma_comment_body_end(s: Seq<char>, i: int)
    requires
        0 <= i <= s.len(),
    ensures
        i <= comment_body_end(s, i) <= s.len(),
        forall|j: int| i <= j < comment_body_end(s, i) ==> #[trigger] s[j] != '\n',
        comment_body_end(s, i) < s.len() ==> s[comment_body_end(s, i)] == '\n',
    decreases s.len() - i,
{
    if i < s.len() && s[i] != '\n' {
        lemma_comment_body_end(s, i + 1);
    }
}

// --- Counting newlines -------------------------------------------------

/// The number of newline characters of `s` in the offset range `[i, j)`.
pub open spec fn count_nl(s: Seq<char>, i: int, j: int) -> int
    decreases j - i,
{
    if i >= j {
        0
    } else {
        count_nl(s, i, j - 1) + if s[j - 1] == '\n' { 1int } else { 0int }
    }
}

pub proof fn lemma_count_nl_split(s: Seq<char>, a: int, b: int, c: int)
    requires
        a <= b <= c,
    ensures
        count_nl(s, a, c) == count_nl(s, a, b) + count_nl(s, b, c),
    decreases c - b,
{
    if b < c {
        lemma_count_nl_split(s, a, b, c - 1);
    }
}

pub proof fn lemma_count_nl_one(s: Seq<char>, i: int)
    ensures
        count_nl(s, i, i + 1) == if s[i] == '\n' { 1int } else { 0int },
{
    assert(count_nl(s, i, i) == 0);
}

pub proof fn lemma_count_nl_none(s: Seq<char>, i: int, j: int)
    requires
        i <= j,
        forall|k: int| i <= k < j ==> #[trigger] s[k] != '\n',
    ensures
        count_nl(s, i, j) == 0,
    decreases j - i,
{
    if i < j {
        lemma_count_nl_none(s, i, j - 1);
    }
}

// --- The value of a digit run ------------------------------------------

/// The numeric value of a sequence of decimal digits.
pub open spec fn digits_val(t: Seq<char>) -> int
    decreases t.len(),
{
    if t.len() == 0 {
        0
    } else {
        digits_val(t.drop_last()) * 10 + ((t.last() as u32) - 48)
    }
}

pub proof fn lemma_digits_val_nonneg(t: Seq<char>)
    requires
        forall|k: int| 0 <= k < t.len() ==> is_digit(#[trigger] t[k]),
    ensures
        digits_val(t) >= 0,
    decreases t.len(),
{
    if t.len() > 0 {
        lemma_digits_val_nonneg(t.drop_last());
    }
}

/// A prefix of a digit run never exceeds the value of the whole run.
pub proof fn lemma_digits_val_take_le(t: Seq<char>, m: int)
    requires
        0 <= m <= t.len(),
        forall|k: int| 0 <= k < t.len() ==> is_digit(#[trigger] t[k]),
    ensures
        digits_val(t.take(m)) <= digits_val(t),
    decreases t.len(),
{
    if m < t.len() {
        assert(t.drop_last().take(m) =~= t.take(m));
        lemma_digits_val_take_le(t.drop_last(), m);
        lemma_digits_val_nonneg(t.drop_last());
    } else {
        assert(t.take(m) =~= t);
    }
}

// --- Keywords ----------------------------------------------------------

/// The token for an identifier-shaped lexeme: the keyword token when the
/// whole lexeme equals a reserved word, an identifier token otherwise.
pub open spec fn keyword_or_identifier_token(t: Seq<char>) -> TokenModel {
    if t == "and"@ { TokenModel::And }
    else if t == "class"@ { TokenModel::Class }
    else if t == "else"@ { TokenModel::Else }
    else if t == "false"@ { TokenModel::False }
    else if t == "fun"@ { TokenModel::Fun }
    else if t == "for"@ { TokenModel::For }
    else if t == "if"@ { TokenModel::If }
    else if t == "nil"@ { TokenModel::Nil }
    else if t == "or"@ { TokenModel::Or }
    else if t == "print"@ { TokenModel::Print }
    else if t == "return"@ { TokenModel::Return }
    else if t == "super"@ { TokenModel::Super }
    else if t == "this"@ { TokenModel::This }
    else if t == "true"@ { TokenModel::True }
    else if t == "var"@ { TokenModel::Var }
    else if t == "while"@ { TokenModel::While }
    else { TokenModel::Identifier(t) }
}

// --- One step of scanning ----------------------------------------------

/// A token emitted by one dispatch step: the token itself, the offset just
/// past it, and the line counter after it.
pub struct EmitModel {
    pub token: TokenModel,
    pub end: int,
    pub line: int,
}

/// The outcome of one dispatch step of the scanner.
pub enum StepModel {
    Emit(EmitModel),
    Fail(ScanErrorModel),
}

/// The message of the error for an input unit that begins no token.
pub open spec fn unscannable_message(position: int) -> Seq<char> {
    "Failed to scan at "@ + dec_nat(position as nat)
}

/// The message of the error for a string literal that the input ends inside.
pub open spec fn unterminated_string_message(lexeme: Seq<char>) -> Seq<char> {
    "Unterminated string "@ + lexeme
}

/// The message of the error for an integer literal too large for `i64`.
pub open spec fn integer_overflow_message() -> Seq<char> {
    "number too large to fit in target type"@
}

pub open spec fn emit1(token: TokenModel, i: int, line: int) -> StepModel {
    StepModel::Emit(EmitModel { token, end: i + 1, line })
}

/// Greedy one-character lookahead: the two-character token when the next
/// unit matches, the one-character token otherwise.
pub open spec fn emit2(
    s: Seq<char>,
    i: int,
    line: int,
    expected: char,
    long: TokenModel,
    short: TokenModel,
) -> StepModel {
    if i + 1 < s.len() && s[i + 1] == expected {
        StepModel::Emit(EmitModel { token: long, end: i + 2, line })
    } else {
        StepModel::Emit(EmitModel { token: short, end: i + 1, line })
    }
}

/// A line comment beginning with `//` at `i`: it runs through the
/// terminating newline, which it consumes and counts, or through the end of
/// the input if no newline follows. Its text is the body without the `//`
/// marker and without the terminating newline.
pub open spec fn comment_step(s: Seq<char>, i: int, line: int) -> StepModel {
    let e = comment_body_end(s, i + 2);
    if e < s.len() {
        StepModel::Emit(
            EmitModel { token: TokenModel::Comment(s.subrange(i + 2, e)), end: e + 1, line: line + 1 },
        )
    } else {
        StepModel::Emit(
            EmitModel { token: TokenModel::Comment(s.subrange(i + 2, e)), end: e, line },
        )
    }
}

/// A string literal beginning with `"` at `i`: its contents run to the next
/// double quote, embedded newlines counting toward the line number; input
/// ending before a closing quote is an error.
pub open spec fn string_step(s: Seq<char>, i: int, line: int) -> StepModel {
    let e = string_body_end(s, i + 1);
    if e >= s.len() {
        StepModel::Fail(
            ScanErrorModel {
                message: unterminated_string_message(s.subrange(i, s.len() as int)),
                line: line + count_nl(s, i + 1, s.len() as int),
                position: s.len() as int,
            },
        )
    } else {
        StepModel::Emit(
            EmitModel {
                token: TokenModel::StringLit(s.subrange(i + 1, e)),
                end: e + 1,
                line: line + count_nl(s, i + 1, e),
            },
        )
    }
}

/// A numeric literal beginning with a digit at `i`: a maximal digit run,
/// continued through a fractional part only when a `.` directly follows the
/// run and a digit directly follows the `.`. With a fractional part the
/// token is a float carrying the lexeme text; otherwise the run is an
/// integer, and a value above `i64::MAX` is an error. A trailing `.` with no
/// digit after it is left unconsumed, to be scanned as its own token.
pub open spec fn number_step(s: Seq<char>, i: int, line: int) -> StepModel {
    let d1 = digit_run_end(s, i);
    if d1 + 1 < s.len() && s[d1] == '.' && is_digit(s[d1 + 1]) {
        let d2 = digit_run_end(s, d1 + 1);
        StepModel::Emit(EmitModel { token: TokenModel::Float(s.subrange(i, d2)), end: d2, line })
    } else {
        let v = digits_val(s.subrange(i, d1));
        if v <= i64::MAX {
            StepModel::Emit(EmitModel { token: TokenModel::Integer(v), end: d1, line })
        } else {
            StepModel::Fail(
                ScanErrorModel { message: integer_overflow_message(), line, position: d1 },
            )
        }
    }
}

/// An identifier or keyword beginning with a letter or underscore at `i`:
/// a maximal run of identifier characters, matched against the keyword
/// table as a whole.
pub open spec fn identifier_step(s: Seq<char>, i: int, line: int) -> StepModel {
    let e = ident_run_end(s, i + 1);
    StepModel::Emit(
        EmitModel { token: keyword_or_identifier_token(s.subrange(i, e)), end: e, line },
    )
}

/// One dispatch step of the scanner at offset `i` with line counter `line`:
/// which token the input unit at `i` begins, where that token ends and what
/// the line counter becomes — or the error that scanning stops at.
pub open spec fn spec_step(s: Seq<char>, i: int, line: int) -> StepModel
    recommends
        0 <= i < s.len(),
{
    let c = s[i];
    if c == '(' { emit1(TokenModel::LeftParen, i, line) }
    else if c == ')' { emit1(TokenModel::RightParen, i, line) }
    else if c == '{' { emit1(TokenModel::LeftBrace, i, line) }
    else if c == '}' { emit1(TokenModel::RightBrace, i, line) }
    else if c == ',' { emit1(TokenModel::Comma, i, line) }
    else if c == '.' { emit1(TokenModel::Dot, i, line) }
    else if c == '-' { emit1(TokenModel::Minus, i, line) }
    else if c == '+' { emit1(TokenModel::Plus, i, line) }
    else if c == ';' { emit1(TokenModel::Semicolon, i, line) }
    else if c == '*' { emit1(TokenModel::Star, i, line) }
    else if c == '\\' { emit1(TokenModel::ForwardSlash, i, line) }
    else if c == '!' { emit2(s, i, line, '=', TokenModel::BangEqual, TokenModel::Bang) }
    else if c == '=' { emit2(s, i, line, '=', TokenModel::EqualEqual, TokenModel::Equal) }
    else if c == '<' { emit2(s, i, line, '=', TokenModel::LessEqual, TokenModel::Less) }
    else if c == '>' { emit2(s, i, line, '=', TokenModel::GreaterEqual, TokenModel::Greater) }
    else if c == '/' {
        if i + 1 < s.len() && s[i + 1] == '/' {
            comment_step(s, i, line)
        } else {
            emit1(TokenModel::Slash, i, line)
        }
    }
    else if c == ':' { emit2(s, i, line, ':', TokenModel::ColonColon, TokenModel::Colon) }
    else if c == ' ' { emit1(TokenModel::Space, i, line) }
    else if c == '\r' { emit1(TokenModel::CarriageReturn, i, line) }
    else if c == '\t' { emit1(TokenModel::Tab, i, line) }
    else if c == '\n' { StepModel::Emit(EmitModel { token: TokenModel::NewLine, end: i + 1, line: line + 1 }) }
    else if c == '"' { string_step(s, i, line) }
    else if is_digit(c) { number_step(s, i, line) }
    else if is_ident_start(c) { identifier_step(s, i, line) }
    else {
        StepModel::Fail(
            ScanErrorModel { message: unscannable_message(i + 1), line, position: i + 1 },
        )
    }
}

// --- The whole scan ----------------------------------------------------

/// The context a step's token is wrapped in: the token, the exact source
/// substring it spans, the line it ends on, and its offsets.
pub open spec fn step_context(s: Seq<char>, i: int, st: EmitModel) -> TokenContextModel {
    TokenContextModel {
        token: st.token,
        lexeme: s.subrange(i, st.end),
        line: st.line,
        start: i,
        end: st.end,
    }
}

/// The end-of-file token appended after the last scanned token: zero width
/// at the final offset.
pub open spec fn eof_context(s: Seq<char>, line: int) -> TokenContextModel {
    TokenContextModel {
        token: TokenModel::EndOfFile,
        lexeme: Seq::<char>::empty(),
        line,
        start: s.len() as int,
        end: s.len() as int,
    }
}

/// The tokens of `s` from offset `i` on, starting with line counter `line`:
/// the step at `i` followed by the tokens after it, ending in the
/// end-of-file token — or the first error. The inner bounds check never
/// fails (every step advances; see `lemma_step_basic`), it only keeps the
/// recursion well-founded.
pub open spec fn spec_scan_from(s: Seq<char>, i: int, line: int) -> Result<
    Seq<TokenContextModel>,
    ScanErrorModel,
>
    decreases s.len() - i,
{
    if !(0 <= i < s.len()) {
        Ok(seq![eof_context(s, line)])
    } else {
        match spec_step(s, i, line) {
            StepModel::Fail(e) => Err(e),
            StepModel::Emit(st) => {
                if i < st.end <= s.len() {
                    match spec_scan_from(s, st.end, st.line) {
                        Err(e) => Err(e),
                        Ok(rest) => Ok(seq![step_context(s, i, st)] + rest),
                    }
                } else {
                    Err(ScanErrorModel { message: Seq::<char>::empty(), line: 0, position: 0 })
                }
            },
        }
    }
}

/// What scanning a whole source text yields: its token sequence, or the
/// first error.
pub open spec fn spec_scan(s: Seq<char>) -> Result<Seq<TokenContextModel>, ScanErrorModel> {
    spec_scan_from(s, 0, 0)
}

// --- Facts about one step ----------------------------------------------

/// Every emitted token advances the scan by at least one unit, never runs
/// past the input, is never the end-of-file token, and moves the line
/// counter by exactly the newlines inside its span.
pub proof fn lemma_step_basic(s: Seq<char>, i: int, line: int)
    requires
        0 <= i < s.len(),
    ensures
        spec_step(s, i, line) matches StepModel::Emit(st) ==> {
            &&& i < st.end <= s.len()
            &&& !(st.token is EndOfFile)
            &&& st.line == line + count_nl(s, i, st.end)
        },
{
    let c = s[i];
    if let StepModel::Emit(st) = spec_step(s, i, line) {
        if c == '/' && i + 1 < s.len() && s[i + 1] == '/' {
            let e = comment_body_end(s, i + 2);
            lemma_comment_body_end(s, i + 2);
            lemma_count_nl_none(s, i, i + 2);
            lemma_count_nl_none(s, i + 2, e);
            lemma_count_nl_split(s, i, i + 2, e);
            if e < s.len() {
                lemma_count_nl_split(s, i, e, e + 1);
            }
            assert(i < st.end <= s.len());
            assert(!(st.token is EndOfFile));
            assert(st.line == line + count_nl(s, i, st.end));
        } else if c == '"' {
            let e = string_body_end(s, i + 1);
            lemma_string_body_end(s, i + 1);
            if e < s.len() {
                lemma_count_nl_one(s, i);
                lemma_count_nl_one(s, e);
                lemma_count_nl_split(s, i, i + 1, e);
                lemma_count_nl_split(s, i, e, e + 1);
            }
            assert(i < st.end <= s.len());
            assert(!(st.token is EndOfFile));
            assert(st.line == line + count_nl(s, i, st.end));
        } else if is_digit(c) && !(c == '"') {
            let d1 = digit_run_end(s, i);
            lemma_digit_run_end(s, i);
            if d1 + 1 < s.len() && s[d1] == '.' && is_digit(s[d1 + 1]) {
                let d2 = digit_run_end(s, d1 + 1);
                lemma_digit_run_end(s, d1 + 1);
                lemma_count_nl_none(s, i, d2);
            } else {
                lemma_count_nl_none(s, i, d1);
            }
            assert(i < st.end <= s.len());
            assert(!(st.token is EndOfFile));
            assert(st.line == line + count_nl(s, i, st.end));
        } else if is_ident_start(c) {
            let e = ident_run_end(s, i + 1);
            lemma_ident_run_end(s, i + 1);
            lemma_count_nl_none(s, i, e);
            assert(i < st.end <= s.len());
            assert(!(st.token is EndOfFile));
            assert(st.line == line + count_nl(s, i, st.end));
        } else {
            // One- and two-character tokens: the span holds no newline,
            // except for the newline token itself, whose span is exactly one.
            lemma_count_nl_one(s, i);
            if st.end == i + 2 {
                lemma_count_nl_one(s, i + 1);
                lemma_count_nl_split(s, i, i + 1, i + 2);
            }
            assert(i < st.end <= s.len());
            assert(!(st.token is EndOfFile));
            assert(st.line == line + count_nl(s, i, st.end));
        }
    }
}

// --- The scanned token sequence, when scanning succeeds ----------------

/// Whether scanning `s` succeeds.
pub open spec fn scan_ok(s: Seq<char>) -> bool {
    spec_scan(s) is Ok
}

/// The token sequence of a successful scan.
pub open spec fn scan_tokens(s: Seq<char>) -> Seq<TokenContextModel>
    recommends
        scan_ok(s),
{
    spec_scan(s)->Ok_0
}

/// The concatenation of the lexemes of a token sequence.
pub open spec fn concat_lexemes(toks: Seq<TokenContextModel>) -> Seq<char>
    decreases toks.len(),
{
    if toks.len() == 0 {
        Seq::<char>::empty()
    } else {
        toks.first().lexeme + concat_lexemes(toks.drop_first())
    }
}

/// The shape of everything a successful scan from `i` yields: at least the
/// end-of-file token; every token's lexeme is exactly the source substring
/// of its span; the spans chain gaplessly from `i` to the end of the input,
/// all of them non-empty except the final zero-width end-of-file token; and
/// every token's line is the starting line plus the newlines up to its end.
pub proof fn lemma_scan_from_structure(s: Seq<char>, i: int, line: int)
    requires
        0 <= i <= s.len(),
    ensures
        spec_scan_from(s, i, line) matches Ok(toks) ==> {
            &&& toks.len() >= 1
            &&& toks.last().token is EndOfFile
            &&& toks.last().start == s.len()
            &&& toks.last().end == s.len()
            &&& toks.last().lexeme == Seq::<char>::empty()
            &&& toks[0].start == i
            &&& forall|k: int|
                0 <= k < toks.len() ==> i <= (#[trigger] toks[k].start) <= toks[k].end <= s.len()
            &&& forall|k: int|
                0 <= k < toks.len() ==> (#[trigger] toks[k].lexeme) == s.subrange(
                    toks[k].start,
                    toks[k].end,
                )
            &&& forall|k: int|
                0 <= k < toks.len() - 1 ==> (#[trigger] toks[k].end) == toks[k + 1].start
            &&& forall|k: int|
                0 <= k < toks.len() - 1 ==> (#[trigger] toks[k].start) < toks[k].end && !(
                toks[k].token is EndOfFile)
            &&& forall|k: int|
                0 <= k < toks.len() ==> (#[trigger] toks[k].line) == line + count_nl(
                    s,
                    i,
                    toks[k].end,
                )
        },
    decreases s.len() - i,
{
    if i >= s.len() {
        assert(count_nl(s, i, s.len() as int) == 0);
        assert(s.subrange(i, s.len() as int) =~= Seq::<char>::empty());
    } else {
        lemma_step_basic(s, i, line);
        match spec_step(s, i, line) {
            StepModel::Fail(_) => {},
            StepModel::Emit(st) => {
                lemma_scan_from_structure(s, st.end, st.line);
                match spec_scan_from(s, st.end, st.line) {
                    Err(_) => {},
                    Ok(rest) => {
                        let toks = seq![step_context(s, i, st)] + rest;
                        assert(toks.last() == rest.last());
                        assert forall|k: int| 0 <= k < toks.len() implies (
                        #[trigger] toks[k].line) == line + count_nl(s, i, toks[k].end) by {
                            if k >= 1 {
                                assert(toks[k] == rest[k - 1]);
                                lemma_count_nl_split(s, i, st.end, toks[k].end);
                            }
                        }
                        assert(toks[0].start == i);
                    },
                }
            },
        }
    }
}

// --- General properties of scanning ------------------------------------

/// Coverage and partition: on every source text accepted without error, the
/// token spans chain gaplessly and without overlap from offset `0` to the
/// end of the input; the final token, and only it, is the end-of-file
/// token, and it is the only zero-width one.
pub proof fn lemma_scan_partition(s: Seq<char>)
    requires
        scan_ok(s),
    ensures
        ({
            let toks = scan_tokens(s);
            &&& toks.len() >= 1
            &&& toks.last().token is EndOfFile
            &&& toks.last().start == s.len()
            &&& toks.last().end == s.len()
            &&& toks[0].start == 0
            &&& forall|k: int|
                0 <= k < toks.len() ==> 0 <= (#[trigger] toks[k].start) <= toks[k].end <= s.len()
            &&& forall|k: int|
                0 <= k < toks.len() - 1 ==> (#[trigger] toks[k].end) == toks[k + 1].start
            &&& forall|k: int|
                0 <= k < toks.len() - 1 ==> (#[trigger] toks[k].start) < toks[k].end && !(
                toks[k].token is EndOfFile)
        }),
{
    lemma_scan_from_structure(s, 0, 0);
}

/// Round-trip: concatenating the lexemes of a successful scan, in order,
/// reproduces the source text exactly.
pub proof fn lemma_scan_round_trip(s: Seq<char>)
    requires
        scan_ok(s),
    ensures
        concat_lexemes(scan_tokens(s)) == s,
{
    lemma_concat_from(s, 0, 0);
    assert(s.subrange(0, s.len() as int) =~= s);
}

proof fn lemma_concat_from(s: Seq<char>, i: int, line: int)
    requires
        0 <= i <= s.len(),
    ensures
        spec_scan_from(s, i, line) matches Ok(toks) ==> concat_lexemes(toks) == s.subrange(
            i,
            s.len() as int,
        ),
    decreases s.len() - i,
{
    if i >= s.len() {
        let toks = seq![eof_context(s, line)];
        assert(toks.drop_first() =~= Seq::<TokenContextModel>::empty());
        assert(concat_lexemes(Seq::<TokenContextModel>::empty()) == Seq::<char>::empty());
        assert(concat_lexemes(toks) =~= Seq::<char>::empty());
        assert(s.subrange(i, s.len() as int) =~= Seq::<char>::empty());
    } else {
        lemma_step_basic(s, i, line);
        match spec_step(s, i, line) {
            StepModel::Fail(_) => {},
            StepModel::Emit(st) => {
                lemma_concat_from(s, st.end, st.line);
                match spec_scan_from(s, st.end, st.line) {
                    Err(_) => {},
                    Ok(rest) => {
                        let toks = seq![step_context(s, i, st)] + rest;
                        assert(toks.first() == step_context(s, i, st));
                        assert(toks.drop_first() =~= rest);
                        assert(s.subrange(i, st.end) + s.subrange(st.end, s.len() as int) =~= s
                            .subrange(i, s.len() as int));
                    },
                }
            },
        }
    }
}

/// Line counting: every token of a successful scan reports as its line the
/// number of newlines that precede the end of its span — so a newline
/// embedded in a string or comment moves the line counter exactly once, and
/// the tokens after it report the moved line.
pub proof fn lemma_scan_line_counting(s: Seq<char>)
    requires
        scan_ok(s),
    ensures
        forall|k: int|
            0 <= k < scan_tokens(s).len() ==> (#[trigger] scan_tokens(s)[k].line) == count_nl(
                s,
                0,
                scan_tokens(s)[k].end,
            ),
{
    lemma_scan_from_structure(s, 0, 0);
}

/// Greedy operator matching: an `=` directly followed by a second `=` always
/// scans as the single two-character equality token; an `=` followed by
/// anything else (or by nothing) scans as the one-character assignment
/// token, leaving the next unit for the following token.
pub proof fn lemma_greedy_equal(s: Seq<char>, i: int, line: int)
    requires
        0 <= i < s.len(),
        s[i] == '=',
    ensures
        i + 1 < s.len() && s[i + 1] == '=' ==> spec_step(s, i, line) == StepModel::Emit(
            (EmitModel { token: TokenModel::EqualEqual, end: i + 2, line }),
        ),
        !(i + 1 < s.len() && s[i + 1] == '=') ==> spec_step(s, i, line) == StepModel::Emit(
            (EmitModel { token: TokenModel::Equal, end: i + 1, line }),
        ),
{
}

/// Keyword against identifier: a letter or underscore always begins a token
/// that spans the whole maximal run of identifier characters, and the run is
/// a keyword token only when it equals the keyword as a whole — a keyword
/// followed by further identifier characters is one longer identifier, never
/// the keyword plus a remainder.
pub proof fn lemma_keyword_boundary(s: Seq<char>, i: int, line: int)
    requires
        0 <= i < s.len(),
        is_ident_start(s[i]),
    ensures
        ({
            let e = ident_run_end(s, i + 1);
            &&& i < e <= s.len()
            &&& spec_step(s, i, line) == StepModel::Emit(
                (EmitModel { token: keyword_or_identifier_token(s.subrange(i, e)), end: e, line }),
            )
            &&& e < s.len() ==> !is_ident_cont(s[e])
            &&& forall|j: int| i + 1 <= j < e ==> is_ident_cont(#[trigger] s[j])
        }),
{
    lemma_ident_run_end(s, i + 1);
}

} // verus!
