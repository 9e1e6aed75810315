//! A tokenizer for a small Lox-like scripting language.
//!
//! The heart of the crate is the scanner: a single pass over the source text
//! that classifies every input character — whitespace and comments included —
//! into a positioned token, so that concatenating the tokens' lexemes gives
//! the source text back exactly. Scanning either yields a complete token
//! sequence terminated by one end-of-file token, or stops at the first
//! malformed piece of input with a structured error.
//!
//! The parser and evaluator are deliberate stubs: they stand for collaborators
//! that consume the token stream but are not specified here in depth.

use vstd::prelude::*;

pub mod chars;
pub mod decimal;
pub mod parser;
pub mod scan_model;
pub mod scanner;
pub mod token;

verus! {

use vstd::string::StringExecFns;

/// A scan failure: what went wrong, on which line, and at which character
/// offset of the input.
#[derive(Debug)]
pub struct ScanError {
    pub message: String,
    pub line: usize,
    pub position: usize,
}

/// Mathematical image of a [`ScanError`].
pub struct ScanErrorModel {
    pub message: Seq<char>,
    pub line: int,
    pub position: int,
}

impl View for ScanError {
    type V = ScanErrorModel;

    open spec fn view(&self) -> ScanErrorModel {
        ScanErrorModel {
            message: self.message@,
            line: self.line as int,
            position: self.position as int,
        }
    }
}

/// Everything that can go wrong in the pipeline: an unreadable input, a
/// failure of the (stub) interpretation stage, or a scan failure with its
/// position.
#[derive(Debug)]
pub enum FellowError {
    CannotReadFile,
    InterpreterError,
    ScanError(ScanError),
}

/// Mathematical image of a [`FellowError`].
pub enum FellowErrorModel {
    CannotReadFile,
    InterpreterError,
    ScanError(ScanErrorModel),
}

impl View for FellowError {
    type V = FellowErrorModel;

    open spec fn view(&self) -> FellowErrorModel {
        match self {
            FellowError::CannotReadFile => FellowErrorModel::CannotReadFile,
            FellowError::InterpreterError => FellowErrorModel::InterpreterError,
            FellowError::ScanError(e) => FellowErrorModel::ScanError(e@),
        }
    }
}

/// A value of the language, as the (stub) evaluator produces them.
#[derive(Debug)]
pub enum FellowValue {
    Int(i64),
    Str(String),
    Identifier(String),
    Boolean(bool),
    Nil,
}

/// Mathematical image of a [`FellowValue`].
pub enum FellowValueModel {
    Int(int),
    Str(Seq<char>),
    Identifier(Seq<char>),
    Boolean(bool),
    Nil,
}

impl View for FellowValue {
    type V = FellowValueModel;

    open spec fn view(&self) -> FellowValueModel {
        match self {
            FellowValue::Int(i) => FellowValueModel::Int(*i as int),
            FellowValue::Str(s) => FellowValueModel::Str(s@),
            FellowValue::Identifier(s) => FellowValueModel::Identifier(s@),
            FellowValue::Boolean(b) => FellowValueModel::Boolean(*b),
            FellowValue::Nil => FellowValueModel::Nil,
        }
    }
}

/// The text a value is displayed as: numbers in decimal, text as itself,
/// booleans and nil by name.
pub open spec fn value_display(v: FellowValueModel) -> Seq<char> {
    match v {
        FellowValueModel::Int(i) => crate::decimal::dec_int(i),
        FellowValueModel::Str(s) => s,
        FellowValueModel::Identifier(s) => s,
        FellowValueModel::Boolean(b) => if b {
            "true"@
        } else {
            "false"@
        },
        FellowValueModel::Nil => "nil"@,
    }
}

impl FellowValue {
    /// The text this value is displayed as.
    pub fn display_string(&self) -> (r: String)
        ensures
            r@ == value_display(self@),
    {
        match self {
            FellowValue::Int(i) => crate::decimal::i64_to_string(*i),
            FellowValue::Str(s) => s.clone(),
            FellowValue::Identifier(s) => s.clone(),
            FellowValue::Boolean(b) => {
                if *b {
                    String::from_str("true")
                } else {
                    String::from_str("false")
                }
            },
            FellowValue::Nil => String::from_str("nil"),
        }
    }
}

/// The text an error is displayed as; a scan error names its line, its
/// position and what went wrong.
pub open spec fn error_display(e: FellowErrorModel) -> Seq<char> {
    match e {
        FellowErrorModel::CannotReadFile => "Cannot read file"@,
        FellowErrorModel::InterpreterError => "Fellow interpreter error"@,
        FellowErrorModel::ScanError(se) => "Fellow scanner error occured at line "@ + crate::decimal::dec_nat(
            se.line as nat,
        ) + ":"@ + crate::decimal::dec_nat(se.position as nat) + "\n\t"@ + se.message,
    }
}

impl FellowError {
    /// The text this error is displayed as.
    pub fn display_string(&self) -> (r: String)
        ensures
            r@ == error_display(self@),
    {
        match self {
            FellowError::CannotReadFile => String::from_str("Cannot read file"),
            FellowError::InterpreterError => String::from_str("Fellow interpreter error"),
            FellowError::ScanError(se) => {
                let mut message = String::from_str("Fellow scanner error occured at line ");
                let line = crate::decimal::u64_to_string(se.line as u64);
                message.append(line.as_str());
                message.append(":");
                let position = crate::decimal::u64_to_string(se.position as u64);
                message.append(position.as_str());
                message.append("\n\t");
                message.append(se.message.as_str());
                message
            },
        }
    }
}

/// The evaluator stub: it ignores what was parsed and hands back a
/// constant placeholder value, until evaluation is designed for real.
fn evaluate(_value: FellowValue) -> (r: FellowValue)
    ensures
        r@ == FellowValueModel::Str("Something"@),
{
    FellowValue::Str(String::from_str("Something"))
}

/// The whole pipeline over one source text: scan it, parse the tokens, and
/// evaluate what was parsed.
///
/// A scan failure is returned as the scan error the model describes; a
/// token stream without a meaningful token fails interpretation; any other
/// input reaches the stub evaluator and yields its placeholder value.
pub fn interpret(source_code: &str) -> (r: Result<FellowValue, FellowError>)
    ensures
        match crate::scan_model::spec_scan(source_code@) {
            Err(e) => r matches Err(fe) && (fe matches FellowError::ScanError(se) && se@ == e),
            Ok(toks) => match crate::parser::last_meaningful(toks) {
                None => r matches Err(fe) && fe is InterpreterError,
                Some(_) => r matches Ok(v) && v@ == FellowValueModel::Str("Something"@),
            },
        },
{
    let tokens = match crate::scanner::scan(source_code) {
        Ok(tokens) => tokens,
        Err(e) => {
            return Err(e);
        },
    };
    let ast = match crate::parser::parse(tokens) {
        Ok(value) => value,
        Err(_) => {
            return Err(FellowError::InterpreterError);
        },
    };
    Ok(evaluate(ast))
}

} // verus!
