//! A tree-walking interpreter for a small dynamically typed scripting language.
//!
//! Source text is scanned into tokens ([`scanner`]), the tokens are parsed
//! into statements ([`parser`], [`ast`]), and the statements are executed
//! against a chain of scopes ([`interpreter`]). [`JuniorBread`] runs the three
//! one after the other on a source text.
pub mod ast;
pub mod errors;
pub mod interpreter;
pub mod number;
pub mod parser;
pub mod precedence;
pub mod scanner;
pub mod text;
pub mod token;
pub mod tool;

pub use crate::errors::Error;
pub use crate::errors::JBreadErrors;
pub use crate::errors::JBreadResult;
pub use crate::interpreter::environment::Environment;
pub use crate::interpreter::interpret::Interpreter;
pub use crate::parser::Parser;
pub use crate::scanner::Scanner;
pub use crate::token::Literal;
pub use crate::token::Token;
pub use crate::token::TokenTypes;
pub use crate::tool::print_ast::AstPrinter;
pub use crate::tool::traits::AstNode;
pub use crate::tool::traits::AstStmt;

use crate::errors::report_text;
use crate::errors::Failure;
use crate::interpreter::interpret::execute_all;
use crate::interpreter::interpret::World;
use crate::parser::program;
use crate::parser::Parsed;
use crate::scanner::failures;
use crate::scanner::scan;
use vstd::prelude::*;

verus! {

/// What a run of a source text gives: the failures reported, in the order
/// in which they were found, and the world as the run left it.
pub struct Ran {
    pub failures: Seq<Failure>,
    pub world: World,
}

/// The run of a source text in a world.
///
/// The text is scanned to its end; what cannot be scanned is reported, and
/// the run goes on with the tokens found. The tokens are parsed; the first
/// failure of the parser is reported and ends the run, and nothing is
/// executed. The statements are executed in order; the first failure is
/// reported and ends the run, and what was done before it stays done.
pub open spec fn run_of(source: Seq<char>, world: World) -> Ran {
    let scanned = scan(source);
    match program(scanned.tokens, 0) {
        Parsed::Failed { error, at } => Ran { failures: scanned.errors.push(error), world },
        Parsed::Done { value, used } => {
            let executed = execute_all(value, world);
            Ran {
                failures: match executed.failure {
                    Some(f) => scanned.errors.push(f),
                    None => scanned.errors,
                },
                world: executed.world,
            }
        },
    }
}

/// The runner: it takes source text through scanner, parser and
/// interpreter, and remembers whether any run has reported a failure.
pub struct JuniorBread {
    has_error: bool,
}

impl JuniorBread {
    /// Whether a failure has been reported since the runner was made or
    /// [`remove_error`](JuniorBread::remove_error) was called.
    pub closed spec fn failed(&self) -> bool {
        self.has_error
    }

    /// A runner that has seen no failure.
    pub fn new() -> (r: Self)
        ensures
            !r.failed(),
    {
        Self { has_error: false }
    }

    /// Whether a failure has been reported.
    pub fn has_error(&self) -> (r: bool)
        ensures
            r == self.failed(),
    {
        self.has_error
    }

    /// Records that a failure was reported.
    pub fn set_error(&mut self)
        ensures
            final(self).failed(),
    {
        self.has_error = true;
    }

    /// Forgets that a failure was reported.
    pub fn remove_error(&mut self)
        ensures
            !final(self).failed(),
    {
        self.has_error = false;
    }

    /// Records the failure `err` and returns the line that reports it.
    pub fn error(&mut self, err: &JBreadErrors) -> (r: String)
        ensures
            final(self).failed(),
            r@ == report_text(err@.error()),
    {
        self.set_error();
        err.to_string()
    }

    /// Runs `source` in `interpreter` and returns the failures to report.
    /// The lines that the run writes are added to the interpreter's output.
    pub fn run(&mut self, source: &str, interpreter: &mut Interpreter) -> (r: Vec<JBreadErrors>)
        ensures
            failures(r@) == run_of(source@, old(interpreter).world()).failures,
            final(interpreter).world() == run_of(source@, old(interpreter).world()).world,
            final(self).failed() == (old(self).failed() || r@.len() > 0),
    {
        let mut scanner = Scanner::new(source);
        let parsed = {
            let tokens = scanner.scan_tokens();
            let mut parser = Parser::new(tokens);
            parser.parse()
        };
        let mut report = scanner.take_diagnostics();
        let ghost found = failures(report@);
        match parsed {
            Err(error) => {
                report.push(error);
                assert(failures(report@) =~= found.push(error@));
            },
            Ok(statements) => {
                match interpreter.interpret(statements.as_slice()) {
                    Err(error) => {
                        report.push(error);
                        assert(failures(report@) =~= found.push(error@));
                    },
                    Ok(_) => {},
                }
            },
        }
        if report.len() > 0 {
            self.set_error();
        }
        report
    }
}

} // verus!
