use vstd::prelude::*;
use vstd::string::*;
use crate::token::{Token, TokenType, TokV, token_code, tok_data};
use crate::ast::{TypeSpec, type_spec_name};
use crate::numfmt::{dec_str, dec_string};

verus! {

/// The severity of a diagnostic. `Error` and `Ice` are fatal: the driver
/// prints the message and stops with exit status 1; nothing is accumulated.
#[derive(Debug, Clone, Copy, PartialEq, Eq, Structural)]
pub enum DiagType {
    Ice,
    Error,
    Warning,
    Note,
    Info,
    Debug,
}

/// The mathematical value of a compile error.
pub enum ErrV {
    UnterminatedString,
    UnknownToken { ch: char },
    ExpectedToken { expected: TokenType, got: TokV },
    UnexpectedToken { got: TokV },
    UnhandledDecleration { got: TokV },
    ExpectedCloseParen { got: TokV },
    ExpectedTypeSpecifier { got: TokV },
    RedefinitionOfFunction { name: Seq<char> },
    UndeclaredIdentifier { name: Seq<char> },
    NotANamespace { name: Seq<char> },
    NoProperty { scope: Seq<char>, name: Seq<char> },
    InvalidOperands { left: TypeSpec, right: TypeSpec, op: TokV },
    UnexpectedReturnType { declared: TypeSpec, actual: TypeSpec },
    ImproperScopeCheck,
    MissingSymbol,
    ImproperMemberAccess,
    UnhandledExprType,
    UnhandledFunctionBody,
    UnhandledValidateExpr,
    UnhandledValidateStmt,
}

/// A fatal diagnostic. The pipeline is fail-fast: the first error is
/// returned up the call chain and the run ends with it; no later stage runs
/// and no second diagnostic is ever produced.
#[derive(Debug)]
pub enum CompileError {
    UnterminatedString,
    UnknownToken { ch: char },
    ExpectedToken { expected: TokenType, got: Token },
    UnexpectedToken { got: Token },
    UnhandledDecleration { got: Token },
    ExpectedCloseParen { got: Token },
    ExpectedTypeSpecifier { got: Token },
    RedefinitionOfFunction { name: String },
    UndeclaredIdentifier { name: String },
    NotANamespace { name: String },
    NoProperty { scope: String, name: String },
    InvalidOperands { left: TypeSpec, right: TypeSpec, op: Token },
    UnexpectedReturnType { declared: TypeSpec, actual: TypeSpec },
    ImproperScopeCheck,
    MissingSymbol,
    ImproperMemberAccess,
    UnhandledExprType,
    UnhandledFunctionBody,
    UnhandledValidateExpr,
    UnhandledValidateStmt,
}

impl View for CompileError {
    type V = ErrV;

    open spec fn view(&self) -> ErrV {
        match *self {
            CompileError::UnterminatedString => ErrV::UnterminatedString,
            CompileError::UnknownToken { ch } => ErrV::UnknownToken { ch },
            CompileError::ExpectedToken { expected, got } => ErrV::ExpectedToken {
                expected,
                got: got@,
            },
            CompileError::UnexpectedToken { got } => ErrV::UnexpectedToken { got: got@ },
            CompileError::UnhandledDecleration { got } => ErrV::UnhandledDecleration { got: got@ },
            CompileError::ExpectedCloseParen { got } => ErrV::ExpectedCloseParen { got: got@ },
            CompileError::ExpectedTypeSpecifier { got } => ErrV::ExpectedTypeSpecifier {
                got: got@,
            },
            CompileError::RedefinitionOfFunction { name } => ErrV::RedefinitionOfFunction {
                name: name@,
            },
            CompileError::UndeclaredIdentifier { name } => ErrV::UndeclaredIdentifier {
                name: name@,
            },
            CompileError::NotANamespace { name } => ErrV::NotANamespace { name: name@ },
            CompileError::NoProperty { scope, name } => ErrV::NoProperty {
                scope: scope@,
                name: name@,
            },
            CompileError::InvalidOperands { left, right, op } => ErrV::InvalidOperands {
                left,
                right,
                op: op@,
            },
            CompileError::UnexpectedReturnType { declared, actual } => ErrV::UnexpectedReturnType {
                declared,
                actual,
            },
            CompileError::ImproperScopeCheck => ErrV::ImproperScopeCheck,
            CompileError::MissingSymbol => ErrV::MissingSymbol,
            CompileError::ImproperMemberAccess => ErrV::ImproperMemberAccess,
            CompileError::UnhandledExprType => ErrV::UnhandledExprType,
            CompileError::UnhandledFunctionBody => ErrV::UnhandledFunctionBody,
            CompileError::UnhandledValidateExpr => ErrV::UnhandledValidateExpr,
            CompileError::UnhandledValidateStmt => ErrV::UnhandledValidateStmt,
        }
    }
}

/// The severity a compile error is reported at: implementation gaps are
/// internal errors, everything else is a user error.
pub open spec fn severity_of(e: ErrV) -> DiagType {
    match e {
        ErrV::UnhandledDecleration { .. } => DiagType::Ice,
        ErrV::ImproperScopeCheck => DiagType::Ice,
        ErrV::MissingSymbol => DiagType::Ice,
        ErrV::ImproperMemberAccess => DiagType::Ice,
        ErrV::UnhandledExprType => DiagType::Ice,
        ErrV::UnhandledFunctionBody => DiagType::Ice,
        ErrV::UnhandledValidateExpr => DiagType::Ice,
        ErrV::UnhandledValidateStmt => DiagType::Ice,
        _ => DiagType::Error,
    }
}

/// The message a compile error renders to.
pub open spec fn err_message(e: ErrV) -> Seq<char> {
    match e {
        ErrV::UnterminatedString => "Unterminated string"@,
        ErrV::UnknownToken { ch } => "Unknown token `"@ + seq![ch] + "`"@,
        ErrV::ExpectedToken { expected, got } => "Expected `"@ + dec_str(
            token_code(expected) as nat,
        ) + "` but got `"@ + tok_data(got) + "` instead"@,
        ErrV::UnexpectedToken { got } => "Unexpected token: `"@ + tok_data(got) + "`"@,
        ErrV::UnhandledDecleration { got } => "Unhandeld decleration token: `"@ + tok_data(got)
            + "`"@,
        ErrV::ExpectedCloseParen { got } => "Expected `)` but got `"@ + tok_data(got)
            + "` instead"@,
        ErrV::ExpectedTypeSpecifier { got } => "Expected type specifier, but got `"@ + tok_data(got)
            + "` instead"@,
        ErrV::RedefinitionOfFunction { name } => "Redefinition of function `"@ + name + "`"@,
        ErrV::UndeclaredIdentifier { name } => "Use of undeclared identifier `"@ + name + "`"@,
        ErrV::NotANamespace { name } => "Symbol `"@ + name + "` isn't a structure or a namespace"@,
        ErrV::NoProperty { scope, name } => "No property named `"@ + name + "` found in scope `"@
            + scope + "`"@,
        ErrV::InvalidOperands { left, right, op } => "Invalid operands of types `"@
            + type_spec_name(left) + "` and `"@ + type_spec_name(right)
            + "` to binary operator (`"@ + tok_data(op) + "`)"@,
        ErrV::UnexpectedReturnType { declared, actual } => "Unexpected return type, expected `"@
            + type_spec_name(declared) + "` but got `"@ + type_spec_name(actual) + "`"@,
        ErrV::ImproperScopeCheck => "Improper checking of scopes"@,
        ErrV::MissingSymbol => "Expected symbol to be in table"@,
        ErrV::ImproperMemberAccess => "Improper parsing of memberExpr"@,
        ErrV::UnhandledExprType => "Handle getting type for expression"@,
        ErrV::UnhandledFunctionBody => "Unhandled function body statement"@,
        ErrV::UnhandledValidateExpr => "Handle validating expression"@,
        ErrV::UnhandledValidateStmt => "Handle validating for statement"@,
    }
}

fn type_spec_string(t: TypeSpec) -> (r: String)
    ensures
        r@ == type_spec_name(t),
{
    match t {
        TypeSpec::Invalid => String::from_str("Invalid"),
        TypeSpec::Int => String::from_str("Int"),
        TypeSpec::String => String::from_str("String"),
    }
}

impl CompileError {
    /// The severity this error is reported at.
    pub fn severity(&self) -> (r: DiagType)
        ensures
            r == severity_of(self@),
    {
        match *self {
            CompileError::UnhandledDecleration { .. } => DiagType::Ice,
            CompileError::ImproperScopeCheck => DiagType::Ice,
            CompileError::MissingSymbol => DiagType::Ice,
            CompileError::ImproperMemberAccess => DiagType::Ice,
            CompileError::UnhandledExprType => DiagType::Ice,
            CompileError::UnhandledFunctionBody => DiagType::Ice,
            CompileError::UnhandledValidateExpr => DiagType::Ice,
            CompileError::UnhandledValidateStmt => DiagType::Ice,
            _ => DiagType::Error,
        }
    }

    /// The message this error renders to.
    pub fn message(&self) -> (r: String)
        ensures
            r@ == err_message(self@),
    {
        match self {
            CompileError::UnterminatedString => String::from_str("Unterminated string"),
            CompileError::UnknownToken { ch } => {
                let mut s = String::from_str("Unknown token `");
                s.push(*ch);
                s.append("`");
                proof {
                    assert(s@ =~= err_message(self@));
                }
                s
            },
            CompileError::ExpectedToken { expected, got } => {
                let mut s = String::from_str("Expected `");
                s.append(dec_string(expected.code()).as_str());
                s.append("` but got `");
                s.append(got.get_data().as_str());
                s.append("` instead");
                proof {
                    assert(s@ =~= err_message(self@));
                }
                s
            },
            CompileError::UnexpectedToken { got } => {
                let mut s = String::from_str("Unexpected token: `");
                s.append(got.get_data().as_str());
                s.append("`");
                proof {
                    assert(s@ =~= err_message(self@));
                }
                s
            },
            CompileError::UnhandledDecleration { got } => {
                let mut s = String::from_str("Unhandeld decleration token: `");
                s.append(got.get_data().as_str());
                s.append("`");
                proof {
                    assert(s@ =~= err_message(self@));
                }
                s
            },
            CompileError::ExpectedCloseParen { got } => {
                let mut s = String::from_str("Expected `)` but got `");
                s.append(got.get_data().as_str());
                s.append("` instead");
                proof {
                    assert(s@ =~= err_message(self@));
                }
                s
            },
            CompileError::ExpectedTypeSpecifier { got } => {
                let mut s = String::from_str("Expected type specifier, but got `");
                s.append(got.get_data().as_str());
                s.append("` instead");
                proof {
                    assert(s@ =~= err_message(self@));
                }
                s
            },
            CompileError::RedefinitionOfFunction { name } => {
                let mut s = String::from_str("Redefinition of function `");
                s.append(name.as_str());
                s.append("`");
                proof {
                    assert(s@ =~= err_message(self@));
                }
                s
            },
            CompileError::UndeclaredIdentifier { name } => {
                let mut s = String::from_str("Use of undeclared identifier `");
                s.append(name.as_str());
                s.append("`");
                proof {
                    assert(s@ =~= err_message(self@));
                }
                s
            },
            CompileError::NotANamespace { name } => {
                let mut s = String::from_str("Symbol `");
                s.append(name.as_str());
                s.append("` isn't a structure or a namespace");
                proof {
                    assert(s@ =~= err_message(self@));
                }
                s
            },
            CompileError::NoProperty { scope, name } => {
                let mut s = String::from_str("No property named `");
                s.append(name.as_str());
                s.append("` found in scope `");
                s.append(scope.as_str());
                s.append("`");
                proof {
                    assert(s@ =~= err_message(self@));
                }
                s
            },
            CompileError::InvalidOperands { left, right, op } => {
                let mut s = String::from_str("Invalid operands of types `");
                s.append(type_spec_string(*left).as_str());
                s.append("` and `");
                s.append(type_spec_string(*right).as_str());
                s.append("` to binary operator (`");
                s.append(op.get_data().as_str());
                s.append("`)");
                proof {
                    assert(s@ =~= err_message(self@));
                }
                s
            },
            CompileError::UnexpectedReturnType { declared, actual } => {
                let mut s = String::from_str("Unexpected return type, expected `");
                s.append(type_spec_string(*declared).as_str());
                s.append("` but got `");
                s.append(type_spec_string(*actual).as_str());
                s.append("`");
                proof {
                    assert(s@ =~= err_message(self@));
                }
                s
            },
            CompileError::ImproperScopeCheck => String::from_str("Improper checking of scopes"),
            CompileError::MissingSymbol => String::from_str("Expected symbol to be in table"),
            CompileError::ImproperMemberAccess => String::from_str("Improper parsing of memberExpr"),
            CompileError::UnhandledExprType => String::from_str("Handle getting type for expression"),
            CompileError::UnhandledFunctionBody => String::from_str(
                "Unhandled function body statement",
            ),
            CompileError::UnhandledValidateExpr => String::from_str("Handle validating expression"),
            CompileError::UnhandledValidateStmt => String::from_str(
                "Handle validating for statement",
            ),
        }
    }
}

// ---------------------------------------------------------------------------
// The diagnostic printer's pure half: which text a diagnostic renders to.
// Writing it to the terminal, and stopping the process on a fatal severity,
// is the driver's business, outside this library.
// ---------------------------------------------------------------------------

/// Settings of the diagnostic printer for one input file.
#[derive(Debug)]
pub struct DiagPrinter {
    pub verbose: bool,
    pub use_colors: bool,
    pub file_path: String,
}

/// The ANSI prefix a severity is shown with.
pub open spec fn color_seq(use_colors: bool, dt: DiagType) -> Seq<char> {
    if use_colors {
        match dt {
            DiagType::Note => "\x1b[1m"@ + "\x1b[36m"@,
            DiagType::Info => "\x1b[1m"@ + "\x1b[36m"@,
            DiagType::Debug => "\x1b[1m"@ + "\x1b[32m"@,
            DiagType::Warning => "\x1b[1m"@ + "\x1b[35m"@,
            DiagType::Ice => "\x1b[1m"@ + "\x1b[31m"@,
            DiagType::Error => "\x1b[1m"@ + "\x1b[31m"@,
        }
    } else {
        "\x1b[0m"@
    }
}

/// The label a severity is shown with.
pub open spec fn severity_name(dt: DiagType) -> Seq<char> {
    match dt {
        DiagType::Note => "Note"@,
        DiagType::Info => "Info"@,
        DiagType::Debug => "Debug"@,
        DiagType::Warning => "Warning"@,
        DiagType::Ice => "Ice"@,
        DiagType::Error => "Error"@,
    }
}

/// The full line a diagnostic renders to, or `None` when it is suppressed:
/// `Debug` messages are only shown when the printer is verbose.
pub open spec fn formatted_line(p: DiagPrinter, dt: DiagType, text: Seq<char>) -> Option<
    Seq<char>,
> {
    if dt == DiagType::Debug && !p.verbose {
        Option::None
    } else {
        Option::Some(
            color_seq(p.use_colors, dt) + severity_name(dt) + ": "@ + "\x1b[0m"@ + text,
        )
    }
}

/// The lines `print_info` yields: the settings, shown only when verbose.
pub open spec fn info_lines(p: DiagPrinter) -> Seq<Seq<char>> {
    if p.verbose {
        seq![
            "Verbose: true"@,
            "Using colors: "@ + (if p.use_colors {
                "true"@
            } else {
                "false"@
            }),
            "Path: "@ + p.file_path@,
        ]
    } else {
        Seq::empty()
    }
}

impl Clone for DiagPrinter {
    fn clone(&self) -> (r: Self)
        ensures
            r == *self,
    {
        DiagPrinter {
            verbose: self.verbose,
            use_colors: self.use_colors,
            file_path: self.file_path.clone(),
        }
    }
}

impl DiagPrinter {
    pub fn new(verbose: bool, use_colors: bool, file_path: String) -> (r: Self)
        ensures
            r.verbose == verbose,
            r.use_colors == use_colors,
            r.file_path@ == file_path@,
    {
        DiagPrinter { verbose, use_colors, file_path }
    }

    /// The lines describing the settings; empty unless verbose.
    pub fn print_info(&self) -> (r: Vec<String>)
        ensures
            r@.len() == info_lines(*self).len(),
            forall|i: int| 0 <= i < r@.len() ==> r@[i]@ == info_lines(*self)[i],
    {
        let mut r: Vec<String> = Vec::new();
        if self.verbose {
            r.push(String::from_str("Verbose: true"));
            let mut colors = String::from_str("Using colors: ");
            if self.use_colors {
                colors.append("true");
            } else {
                colors.append("false");
            }
            r.push(colors);
            let mut path = String::from_str("Path: ");
            path.append(self.file_path.as_str());
            r.push(path);
        }
        r
    }

    /// The ANSI color prefix for a severity, or the reset sequence when
    /// colors are off.
    pub fn get_color(&self, diag_type: &DiagType) -> (r: String)
        ensures
            r@ == color_seq(self.use_colors, *diag_type),
    {
        if self.use_colors {
            match diag_type {
                DiagType::Note => String::from_str("\x1b[1m").concat("\x1b[36m"),
                DiagType::Info => String::from_str("\x1b[1m").concat("\x1b[36m"),
                DiagType::Debug => String::from_str("\x1b[1m").concat("\x1b[32m"),
                DiagType::Warning => String::from_str("\x1b[1m").concat("\x1b[35m"),
                DiagType::Ice => String::from_str("\x1b[1m").concat("\x1b[31m"),
                DiagType::Error => String::from_str("\x1b[1m").concat("\x1b[31m"),
            }
        } else {
            String::from_str("\x1b[0m")
        }
    }

    /// The label for a severity.
    pub fn get_name(&self, diag_type: &DiagType) -> (r: String)
        ensures
            r@ == severity_name(*diag_type),
    {
        match diag_type {
            DiagType::Note => String::from_str("Note"),
            DiagType::Info => String::from_str("Info"),
            DiagType::Debug => String::from_str("Debug"),
            DiagType::Warning => String::from_str("Warning"),
            DiagType::Ice => String::from_str("Ice"),
            DiagType::Error => String::from_str("Error"),
        }
    }

    /// The rendered line for one diagnostic, or `None` when it is
    /// suppressed. The driver prints the line and, on `Error` or `Ice`,
    /// stops the process.
    pub fn format_line(&self, diag_type: DiagType, text: &String) -> (r: Option<String>)
        ensures
            match r {
                Option::Some(line) => formatted_line(*self, diag_type, text@) == Option::Some(
                    line@,
                ),
                Option::None => formatted_line(*self, diag_type, text@) is None,
            },
    {
        if diag_type == DiagType::Debug && !self.verbose {
            return Option::None;
        }
        let mut s = self.get_color(&diag_type);
        s.append(self.get_name(&diag_type).as_str());
        s.append(": ");
        s.append("\x1b[0m");
        s.append(text.as_str());
        proof {
            assert(s@ =~= formatted_line(*self, diag_type, text@).unwrap());
        }
        Option::Some(s)
    }
}

} // verus!
