//! The pipeline from source text to execution: scanning, parsing,
//! resolving, evaluating; and a session that runs one source after another
//! in the same interpreter, whole or statement by statement.

use crate::ast::{stmt_models, Stmt};
use crate::errors::{error, faults, spec_error, Errors, LoxError, RuntimeError};
use crate::grammar::program;
use crate::interpreter::Interpreter;
use crate::parser::{only, parse};
use crate::resolver::{ClassType, FunctionType, Resolution, Resolver};
use crate::scanner::{scan, scan_tokens_from, tokens_match, MAX_SOURCE_BYTES};
use crate::semantics::{executes, interprets, through, Flow};
use crate::token::Token;
use vstd::prelude::*;
use vstd::string::StringSliceAdditionalSpecFns;

verus! {

/// The state in which the resolver takes up a program that is run in the
/// interpreter `before`: at the top level, with the depth map of `before`.
pub open spec fn resolution_at_start(before: Interpreter) -> Resolution {
    Resolution {
        scopes: Seq::empty(),
        locals: before.locals@,
        function: FunctionType::TopLevel,
        class: ClassType::TopLevel,
        seen: Map::empty(),
    }
}

/// Whether `after` is `before` with, at most, another depth map.
pub open spec fn same_but_depths(after: Interpreter, before: Interpreter) -> bool {
    &&& after.environments == before.environments
    &&& after.heap == before.heap
    &&& after.globals == before.globals
    &&& after.environment == before.environment
    &&& after.output == before.output
    &&& after.budget == before.budget
}

/// What loading the parsed program `statements` does.
///
/// Where the resolver finds an error, that error is the result and the
/// interpreter is untouched. Where it finds none, the result is the
/// program, and the interpreter has taken the depth map that the resolver
/// gives.
pub open spec fn resolved_program(
    before: Interpreter,
    after: Interpreter,
    statements: Seq<Stmt>,
    r: Result<Vec<Stmt>, Errors>,
) -> bool {
    match resolution_at_start(before).stmts(statements, 0) {
        Err(failure) => {
            &&& r matches Err(Errors::Parsing(errors))
            &&& faults(errors@) == seq![failure.fault]
            &&& after == before
        },
        Ok(resolution) => {
            &&& r matches Ok(program)
            &&& program@ == statements
            &&& after.locals@ == resolution.locals
            &&& same_but_depths(after, before)
        },
    }
}

/// What loading the scanned program `tokens` does: where it does not
/// parse, all the errors of the parser are the result and the interpreter
/// is untouched; where it parses, what `resolved_program` says of its
/// statements.
pub open spec fn parsed_program(
    before: Interpreter,
    after: Interpreter,
    tokens: Seq<Token>,
    r: Result<Vec<Stmt>, Errors>,
) -> bool {
    match program(tokens) {
        Err(found) => {
            &&& r matches Err(Errors::Parsing(errors))
            &&& faults(errors@) == found
            &&& after == before
        },
        Ok(models) => exists|statements: Seq<Stmt>|
            stmt_models(statements, statements.len()) == models && #[trigger] resolved_program(
                before,
                after,
                statements,
                r,
            ),
    }
}

/// What loading a source does, given its bytes and the offset `base` of
/// its first byte.
///
/// Where the scanner finds errors, they are the result and the interpreter
/// is untouched: the source is not parsed. Where it finds none, what
/// `parsed_program` says of the tokens of the source.
pub open spec fn loaded(
    before: Interpreter,
    after: Interpreter,
    bytes: Seq<u8>,
    base: usize,
    r: Result<Vec<Stmt>, Errors>,
) -> bool {
    if scan(bytes).errors.len() > 0 {
        &&& r matches Err(Errors::Parsing(errors))
        &&& faults(errors@) == scan(bytes).errors
        &&& after == before
    } else {
        exists|tokens: Seq<Token>|
            tokens_match(tokens, scan(bytes).tokens, bytes, base) && #[trigger] parsed_program(
                before,
                after,
                tokens,
                r,
            )
    }
}

/// What running a source does: it is loaded, and where that gives the
/// program, the program is executed. The result is the static errors of
/// loading, or the runtime error that stopped the program, or success.
pub open spec fn ran(
    before: Interpreter,
    after: Interpreter,
    bytes: Seq<u8>,
    base: usize,
    r: Result<(), Errors>,
) -> bool {
    exists|ready: Interpreter, program: Result<Vec<Stmt>, Errors>| #[trigger]
        through(ready, program) && loaded(before, ready, bytes, base, program) && match program {
            Err(errors) => after == ready && r == Err::<(), Errors>(errors),
            Ok(statements) => exists|outcome: Result<(), RuntimeError>| #[trigger]
                through(outcome, ()) && interprets(ready, statements@, after, outcome)
                    && match outcome {
                    Ok(_) => r is Ok,
                    Err(error) => r == Err::<(), Errors>(Errors::Runtime(error)),
                },
        }
}

/// Loads `source` into `interpreter`: scans it, parses it and resolves it.
/// Each pass is only made where the one before found no error. `base` is
/// the offset given to the first byte of the source; the tokens of sources
/// that are loaded into one interpreter must not share offsets.
pub fn load(interpreter: &mut Interpreter, source: &str, base: usize) -> (r: Result<
    Vec<Stmt>,
    Errors,
>)
    requires
        old(interpreter).wf(),
        source.spec_bytes().len() <= MAX_SOURCE_BYTES,
        base + source.spec_bytes().len() < usize::MAX,
    ensures
        final(interpreter).wf(),
        loaded(*old(interpreter), *final(interpreter), source.spec_bytes(), base, r),
{
    let mut errors: Vec<LoxError> = Vec::new();
    let tokens = scan_tokens_from(source, base).unwrap(&mut errors);
    assert(errors@ =~= Seq::<LoxError>::empty() + errors@);
    if errors.len() > 0 {
        return Err(Errors::Parsing(errors));
    }
    let ghost scanned = tokens@;
    let statements = match parse(tokens) {
        Ok(statements) => statements,
        Err(found) => {
            let r = Err(found);
            assert(parsed_program(*old(interpreter), *interpreter, scanned, r));
            return r;
        },
    };
    let mut resolver = Resolver::new(interpreter.locals.clone());
    match resolver.resolve(&statements) {
        Ok(_) => {},
        Err(e) => {
            let r = Err(Errors::Parsing(only(e)));
            assert(resolved_program(*old(interpreter), *interpreter, statements@, r));
            assert(parsed_program(*old(interpreter), *interpreter, scanned, r));
            return r;
        },
    }
    interpreter.locals = resolver.into_locals();
    let ghost program = statements@;
    let r = Ok(statements);
    assert(resolved_program(*old(interpreter), *interpreter, program, r));
    assert(parsed_program(*old(interpreter), *interpreter, scanned, r));
    r
}

/// Runs `source` in `interpreter`: loads it, and executes the program
/// where loading found no error.
pub fn run(interpreter: &mut Interpreter, source: &str, base: usize) -> (r: Result<(), Errors>)
    requires
        old(interpreter).wf(),
        source.spec_bytes().len() <= MAX_SOURCE_BYTES,
        base + source.spec_bytes().len() < usize::MAX,
    ensures
        final(interpreter).wf(),
        ran(*old(interpreter), *final(interpreter), source.spec_bytes(), base, r),
{
    let program = load(interpreter, source, base);
    let ghost ready = *interpreter;
    assert(through(ready, program));
    match program {
        Err(errors) => Err(errors),
        Ok(statements) => {
            let outcome = interpreter.interpret(&statements);
            assert(through(outcome, ()));
            match outcome {
                Ok(_) => Ok(()),
                Err(e) => Err(Errors::Runtime(e)),
            }
        },
    }
}

/// Whether a session whose next offset is `offset` can take a source of
/// `len` bytes: the source has fewer than 2^31 bytes, and its offsets and
/// the next one fit.
pub open spec fn fits(offset: usize, len: nat) -> bool {
    len <= MAX_SOURCE_BYTES && offset + len + 1 < usize::MAX
}

/// A session: an interpreter that runs one source after another, so that
/// what one source defines the next can use.
pub struct Lox {
    pub interpreter: Interpreter,
    /// Whether an error was reported through `error`.
    pub had_error: bool,
    /// The reports made through `error`, in order.
    pub reports: Vec<String>,
    /// The offset that the first byte of the next source gets.
    pub offset: usize,
}

impl Lox {
    /// The interpreter of the session is in order.
    pub open spec fn wf(&self) -> bool {
        self.interpreter.wf()
    }

    /// A new session, with a fresh interpreter and nothing reported.
    pub fn new() -> (lox: Lox)
        ensures
            lox.wf(),
            !lox.had_error,
            lox.reports@ == Seq::<String>::empty(),
            lox.offset == 0,
    {
        Lox { interpreter: Interpreter::new(), had_error: false, reports: Vec::new(), offset: 0 }
    }

    /// Reports a static error on `line` that has no location.
    pub fn error(&mut self, line: usize, message: &str)
        ensures
            final(self).had_error,
            final(self).reports@.len() == old(self).reports@.len() + 1,
            final(self).reports@.last()@ == crate::errors::report_of(spec_error(line, message@)),
            final(self).reports@.drop_last() == old(self).reports@,
            final(self).interpreter == old(self).interpreter,
            final(self).offset == old(self).offset,
    {
        self.report(line, "", message);
        proof {
            reveal_strlit("");
            assert(""@ =~= Seq::<char>::empty());
        }
    }

    /// Reports a static error on `line` at `location`.
    pub fn report(&mut self, line: usize, location: &str, message: &str)
        ensures
            final(self).had_error,
            final(self).reports@.len() == old(self).reports@.len() + 1,
            final(self).reports@.last()@ == crate::errors::report_of(
                crate::errors::Fault { line, location: location@, message: message@ },
            ),
            final(self).reports@.drop_last() == old(self).reports@,
            final(self).interpreter == old(self).interpreter,
            final(self).offset == old(self).offset,
    {
        let text = crate::errors::error_with_location(line, location, message).to_string();
        self.reports.push(text);
        self.had_error = true;
        assert(self.reports@.drop_last() =~= old(self).reports@);
    }

    /// Loads `source` into the session's interpreter, as `load` does, with
    /// offsets that no earlier source of the session had. A source too
    /// long for that is not loaded: the result is then a static error on
    /// line 0, and nothing changes.
    pub fn load(&mut self, source: &str) -> (r: Result<Vec<Stmt>, Errors>)
        requires
            old(self).wf(),
        ensures
            final(self).wf(),
            final(self).had_error == old(self).had_error,
            final(self).reports == old(self).reports,
            fits(old(self).offset, source.spec_bytes().len()) ==> {
                &&& final(self).offset == old(self).offset + source.spec_bytes().len() + 1
                &&& loaded(
                    old(self).interpreter,
                    final(self).interpreter,
                    source.spec_bytes(),
                    old(self).offset,
                    r,
                )
            },
            !fits(old(self).offset, source.spec_bytes().len()) ==> {
                &&& *final(self) == *old(self)
                &&& r matches Err(Errors::Parsing(errors))
                &&& faults(errors@) == seq![spec_error(0, "Source too long."@)]
            },
    {
        let len = source.as_bytes().len();
        if len > MAX_SOURCE_BYTES || self.offset >= usize::MAX - 1 - len {
            return Err(Errors::Parsing(only(error(0, "Source too long."))));
        }
        let base = self.offset;
        self.offset = base + len + 1;
        load(&mut self.interpreter, source, base)
    }

    /// Executes one statement of a loaded program in the session's
    /// interpreter. The result is success, also where the statement
    /// returned at the top level, or the runtime error that stopped it.
    pub fn execute(&mut self, statement: &Stmt) -> (r: Result<(), Errors>)
        requires
            old(self).wf(),
        ensures
            final(self).wf(),
            final(self).had_error == old(self).had_error,
            final(self).reports == old(self).reports,
            final(self).offset == old(self).offset,
            final(self).interpreter.extends(&old(self).interpreter),
            exists|flow: Flow| #[trigger]
                through(flow, ()) && executes(
                    old(self).interpreter,
                    *statement,
                    final(self).interpreter,
                    flow,
                ) && match flow {
                    Ok(_) => r is Ok,
                    Err(error) => r == Err::<(), Errors>(Errors::Runtime(error)),
                },
    {
        let flow = self.interpreter.visit_stmt(statement);
        assert(through(flow, ()));
        match flow {
            Ok(_) => Ok(()),
            Err(e) => Err(Errors::Runtime(e)),
        }
    }

    /// Runs `source` in the session's interpreter, as `run` does, with
    /// offsets that no earlier source of the session had. A source too
    /// long for that is not run: the result is then a static error on line
    /// 0, and nothing changes.
    pub fn run(&mut self, source: &str) -> (r: Result<(), Errors>)
        requires
            old(self).wf(),
        ensures
            final(self).wf(),
            final(self).had_error == old(self).had_error,
            final(self).reports == old(self).reports,
            fits(old(self).offset, source.spec_bytes().len()) ==> {
                &&& final(self).offset == old(self).offset + source.spec_bytes().len() + 1
                &&& ran(
                    old(self).interpreter,
                    final(self).interpreter,
                    source.spec_bytes(),
                    old(self).offset,
                    r,
                )
            },
            !fits(old(self).offset, source.spec_bytes().len()) ==> {
                &&& *final(self) == *old(self)
                &&& r matches Err(Errors::Parsing(errors))
                &&& faults(errors@) == seq![spec_error(0, "Source too long."@)]
            },
    {
        let len = source.as_bytes().len();
        if len > MAX_SOURCE_BYTES || self.offset >= usize::MAX - 1 - len {
            return Err(Errors::Parsing(only(error(0, "Source too long."))));
        }
        let base = self.offset;
        self.offset = base + len + 1;
        run(&mut self.interpreter, source, base)
    }
}

} // verus!
