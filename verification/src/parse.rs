//! Per-file parse validation against the external TypeScript grammar.
//!
//! The grammar itself lives in an outside crate; the library consumes it
//! through one trusted call whose verdict is a function of the source text
//! alone. Everything around the call — what outcome a file gets, and which
//! path and diagnostic the outcome carries — is verified.

use vstd::prelude::*;

use swc_common::input::StringInput;
use swc_common::sync::Lrc;
use swc_common::FileName;
use swc_common::SourceMap;
use swc_common::Spanned;
use swc_ecma_parser::Parser;
use swc_ecma_parser::Syntax;

verus! {

/// A structured syntax-error report: the grammar's message and the byte
/// position it points at.
#[derive(Debug)]
pub struct Diagnostic {
    pub message: String,
    pub position: u32,
}

impl Clone for Diagnostic {
    fn clone(&self) -> (r: Self)
        ensures
            r == *self,
    {
        Diagnostic { message: self.message.clone(), position: self.position }
    }
}

/// The outcome of validating one file: grammatical well-formedness, or a
/// failure carrying the file's path and the diagnostic.
#[derive(Debug)]
pub enum ParseOutcome {
    Success,
    Failure { file_path: String, diagnostic: Diagnostic },
}

impl Clone for ParseOutcome {
    fn clone(&self) -> (r: Self)
        ensures
            r == *self,
    {
        match self {
            ParseOutcome::Success => ParseOutcome::Success,
            ParseOutcome::Failure { file_path, diagnostic } => ParseOutcome::Failure {
                file_path: file_path.clone(),
                diagnostic: diagnostic.clone(),
            },
        }
    }
}

/// What the external TypeScript grammar decides about one module source:
/// `None` when the source parses as a complete module, otherwise the
/// message and byte position of the syntax error it reports.
pub uninterp spec fn ts_grammar_verdict(src: Seq<char>) -> Option<(Seq<char>, u32)>;

/// Relies on swc_ecma_parser::Parser::parse_typescript_module and
/// Parser::take_errors: the source parses cleanly when the first gives a
/// module back and the second reports no recovered error; otherwise the
/// grammar's first error is surfaced. Either way the verdict depends on
/// the source text alone.
#[verifier::external_body]
fn parse_ts_module(src: &String) -> (r: Result<(), (String, u32)>)
    ensures
        r is Ok <==> ts_grammar_verdict(src@) is None,
        r matches Err(e) ==> ts_grammar_verdict(src@) == Some((e.0@, e.1)),
{
    let cm = SourceMap::default();
    let fm = cm.new_source_file(Lrc::new(FileName::Anon), src.clone());
    let input = StringInput::from(&*fm);
    let mut parser = Parser::new(Syntax::Typescript(Default::default()), input, None);
    let result = parser.parse_typescript_module();
    let recovered = parser.take_errors().into_iter().next();
    match result.err().or(recovered) {
        None => Ok(()),
        Some(e) => Err((e.kind().msg().into_owned(), e.span().lo.0)),
    }
}

/// Packages what the grammar reported about one file: success for a clean
/// verdict, otherwise a failure carrying exactly this file's path and the
/// reported message and position.
pub fn outcome_of(file_path: String, verdict: Result<(), (String, u32)>) -> (o: ParseOutcome)
    ensures
        o is Success <==> verdict is Ok,
        verdict matches Err(e) ==> o == (ParseOutcome::Failure {
            file_path,
            diagnostic: Diagnostic { message: e.0, position: e.1 },
        }),
{
    match verdict {
        Ok(()) => ParseOutcome::Success,
        Err((message, position)) => ParseOutcome::Failure {
            file_path,
            diagnostic: Diagnostic { message, position },
        },
    }
}

/// Validates one file's contents: success exactly when the grammar accepts
/// the source as a module, otherwise a failure carrying this file's path
/// and the grammar's diagnostic. No semantic analysis: only grammatical
/// well-formedness.
pub fn validate_source(file_path: String, src: &String) -> (o: ParseOutcome)
    ensures
        o is Success <==> ts_grammar_verdict(src@) is None,
        o matches ParseOutcome::Failure { file_path: p, diagnostic: d } ==> p == file_path
            && ts_grammar_verdict(src@) == Some((d.message@, d.position)),
{
    outcome_of(file_path, parse_ts_module(src))
}

/// Validates one file as handed over by whoever loaded it: contents that
/// could not be decoded as source text are a failure with the loader's
/// message, and loaded contents get the grammar's verdict.
pub fn validate_loaded(file_path: String, loaded: Result<String, String>) -> (o: ParseOutcome)
    ensures
        loaded matches Ok(src) ==> {
            &&& (o is Success <==> ts_grammar_verdict(src@) is None)
            &&& (o matches ParseOutcome::Failure { file_path: p, diagnostic: d } ==> p == file_path
                && ts_grammar_verdict(src@) == Some((d.message@, d.position)))
        },
        loaded matches Err(m) ==> o == (ParseOutcome::Failure {
            file_path,
            diagnostic: Diagnostic { message: m, position: 0 },
        }),
{
    match loaded {
        Ok(src) => validate_source(file_path, &src),
        Err(message) => ParseOutcome::Failure {
            file_path,
            diagnostic: Diagnostic { message, position: 0 },
        },
    }
}

} // verus!
