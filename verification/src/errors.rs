//! The two kinds of error report: static errors, found before the program
//! runs, and runtime errors.

use crate::text::{decimal, decimal_digits};
use vstd::prelude::*;
use vstd::string::StringExecFns;

verus! {

/// A static error: one found while scanning, parsing or resolving.
/// `location` is empty, `" at end"`, or `" at '<lexeme>'"`.
#[derive(Debug)]
pub struct LoxError {
    pub line: usize,
    pub location: String,
    pub message: String,
}

impl Clone for LoxError {
    fn clone(&self) -> (r: Self)
        ensures
            r == *self,
    {
        LoxError {
            line: self.line,
            location: self.location.clone(),
            message: self.message.clone(),
        }
    }
}

/// What a static error says: its line, its location and its message.
pub struct Fault {
    pub line: usize,
    pub location: Seq<char>,
    pub message: Seq<char>,
}

impl View for LoxError {
    type V = Fault;

    open spec fn view(&self) -> Fault {
        Fault { line: self.line, location: self.location@, message: self.message@ }
    }
}

/// The report line of a static error: `[line L] Error<location>: <message>`.
pub open spec fn report_of(fault: Fault) -> Seq<char> {
    "[line "@ + decimal_digits(fault.line as nat) + "] Error"@ + fault.location + ": "@
        + fault.message
}

impl LoxError {
    /// The report line of this error.
    pub open spec fn report(&self) -> Seq<char> {
        report_of(self@)
    }

    /// The report line of this error.
    pub fn to_string(&self) -> (s: String)
        ensures
            s@ == self.report(),
    {
        let mut s = String::from_str("[line ");
        s.append(decimal(self.line).as_str());
        s.append("] Error");
        s.append(self.location.as_str());
        s.append(": ");
        s.append(self.message.as_str());
        s
    }
}

/// An error raised while the program runs. It ends the statement that was
/// being executed.
#[derive(Debug)]
pub struct RuntimeError {
    pub line: usize,
    pub message: String,
}

impl Clone for RuntimeError {
    fn clone(&self) -> (r: Self)
        ensures
            r == *self,
    {
        RuntimeError { line: self.line, message: self.message.clone() }
    }
}

impl RuntimeError {
    /// The report of a runtime error: the message, then `[line L]` on a line
    /// of its own.
    pub open spec fn report(&self) -> Seq<char> {
        self.message@ + "\n[line "@ + decimal_digits(self.line as nat) + "]"@
    }

    /// The report of this error.
    pub fn to_string(&self) -> (s: String)
        ensures
            s@ == self.report(),
    {
        let mut s = self.message.clone();
        s.append("\n[line ");
        s.append(decimal(self.line).as_str());
        s.append("]");
        s
    }
}

/// What a run can fail with: the static errors that a pass collected, or the
/// one runtime error that stopped execution.
#[derive(Debug)]
pub enum Errors {
    Parsing(Vec<LoxError>),
    Runtime(RuntimeError),
}

/// The reports of `errors[from..]`, each followed by a newline.
pub open spec fn reports_from(errors: Seq<LoxError>, from: int) -> Seq<char>
    decreases errors.len() - from,
{
    if from < 0 || from >= errors.len() {
        Seq::empty()
    } else {
        errors[from].report() + "\n"@ + reports_from(errors, from + 1)
    }
}

impl Errors {
    /// The text to put on the error stream: one line per static error, or
    /// the runtime error's report, each ended by a newline.
    pub open spec fn report(&self) -> Seq<char> {
        match *self {
            Errors::Parsing(errors) => reports_from(errors@, 0),
            Errors::Runtime(error) => error.report() + "\n"@,
        }
    }

    /// The text to put on the error stream.
    pub fn to_string(&self) -> (s: String)
        ensures
            s@ == self.report(),
    {
        match self {
            Errors::Parsing(errors) => {
                let mut s = String::new();
                let mut i: usize = errors.len();
                assert(s@ =~= reports_from(errors@, i as int));
                while i > 0
                    invariant
                        i <= errors.len(),
                        s@ == reports_from(errors@, i as int),
                    decreases i,
                {
                    i -= 1;
                    let mut line = errors[i].to_string();
                    line.append("\n");
                    s = line.concat(s.as_str());
                    assert(s@ =~= reports_from(errors@, i as int));
                }
                s
            },
            Errors::Runtime(error) => {
                let mut s = error.to_string();
                s.append("\n");
                s
            },
        }
    }

    /// The exit code of a process that ends on this error: 70 for a runtime
    /// error, 65 for static errors.
    pub fn exit_code(&self) -> (code: u8)
        ensures
            code == (if *self is Runtime {
                70u8
            } else {
                65u8
            }),
    {
        match self {
            Errors::Runtime(_) => 70,
            Errors::Parsing(_) => 65,
        }
    }
}

/// What `error` reports: `message` on `line`, with no location.
pub open spec fn spec_error(line: usize, message: Seq<char>) -> Fault {
    Fault { line, location: Seq::empty(), message }
}

/// A static error on `line` with no location.
pub fn error(line: usize, message: &str) -> (e: LoxError)
    ensures
        e@ == spec_error(line, message@),
{
    LoxError { line, location: String::new(), message: String::from_str(message) }
}

/// A static error on `line` at `location`.
pub fn error_with_location(line: usize, location: &str, message: &str) -> (e: LoxError)
    ensures
        e@ == (Fault { line, location: location@, message: message@ }),
{
    LoxError { line, location: String::from_str(location), message: String::from_str(message) }
}

/// What a sequence of static errors says.
pub open spec fn faults(errors: Seq<LoxError>) -> Seq<Fault> {
    Seq::new(errors.len(), |i: int| errors[i]@)
}

/// What a sequence of errors with one more error says.
pub proof fn faults_push(errors: Seq<LoxError>, e: LoxError)
    ensures
        faults(errors.push(e)) == faults(errors).push(e@),
{
    assert(faults(errors.push(e)) =~= faults(errors).push(e@));
}

/// What two sequences of errors say, one after the other.
pub proof fn faults_concat(first: Seq<LoxError>, second: Seq<LoxError>)
    ensures
        faults(first + second) == faults(first) + faults(second),
{
    assert(faults(first + second) =~= faults(first) + faults(second));
}

/// What a single error says.
pub proof fn faults_of_one(e: LoxError)
    ensures
        faults(seq![e]) == seq![e@],
        faults(Seq::empty()) == Seq::<Fault>::empty(),
{
    assert(faults(seq![e]) =~= seq![e@]);
    assert(faults(Seq::empty()) =~= Seq::<Fault>::empty());
}

} // verus!
