//! Drives one source text through the pipeline: scanner, parser, printer.
//! The runner computes the printed form and the diagnostics as values and
//! raises its error flag; reading files, prompting and printing belong to
//! the program around the library.

use crate::ast_printer::{render_spec, AstPrinter};
use crate::parser::{sp_parse, Parsed, Parser};
use crate::scan_model::{lemma_scan_tokens_wf, scan_diags_spec, scan_tokens_spec, DiagV};
use crate::scanner::Scanner;
use crate::token_error_spec;
use crate::{line_error_spec, token_error};
use vstd::prelude::*;

verus! {

/// What one run yields: the canonical print of the parsed expression when
/// parsing succeeded, and every diagnostic the scanner and the parser
/// raised, already rendered, in order.
pub struct RunOutput {
    pub output: Option<String>,
    pub diagnostics: Vec<String>,
}

/// The diagnostics a run over `src` yields: the scanner's, each rendered
/// line-tagged, then the parser's syntax error when parsing fails.
pub open spec fn run_diags_spec(src: Seq<char>) -> Seq<Seq<char>> {
    let rendered = scan_diags_spec(src).map(
        |i: int, d: DiagV| line_error_spec(d.line, d.message),
    );
    match sp_parse(scan_tokens_spec(src)) {
        Parsed::Done { expr, n } => rendered,
        Parsed::Fail { token, message } => rendered.push(token_error_spec(token, message)),
    }
}

/// The printed form a run over `src` yields: the canonical text of the
/// parsed expression, or nothing when parsing fails.
pub open spec fn run_output_spec(src: Seq<char>) -> Option<Seq<char>> {
    match sp_parse(scan_tokens_spec(src)) {
        Parsed::Done { expr, n } => Some(render_spec(expr)),
        Parsed::Fail { token, message } => None,
    }
}

/// Drives single source texts through the pipeline and remembers whether
/// any of them raised a diagnostic.
pub struct Runner {
    had_error: bool,
}

impl Runner {
    /// Whether some run so far raised a diagnostic.
    pub closed spec fn spec_had_error(self) -> bool {
        self.had_error
    }

    /// A runner that has seen no error yet.
    pub fn new() -> (r: Self)
        ensures
            !r.spec_had_error(),
    {
        Runner { had_error: false }
    }

    /// Whether some run so far raised a diagnostic; a caller declines to
    /// continue when this is set.
    pub fn had_error(&self) -> (r: bool)
        ensures
            r == self.spec_had_error(),
    {
        self.had_error
    }

    /// Runs one source text through scanner, parser and printer. The
    /// printed form and the diagnostics are exactly [`run_output_spec`]
    /// and [`run_diags_spec`]; the error flag is raised if and only if
    /// some diagnostic arose (and stays raised from earlier runs).
    pub fn run(&mut self, source: String) -> (r: RunOutput)
        ensures
            match r.output {
                Some(s) => run_output_spec(source@) == Some(s@),
                None => run_output_spec(source@) is None,
            },
            r.diagnostics.deep_view() == run_diags_spec(source@),
            final(self).spec_had_error() == (old(self).spec_had_error() || run_diags_spec(
                source@,
            ).len() > 0),
    {
        let ghost src = source@;
        let mut scanner = Scanner::new(source);
        let tokens = scanner.scan_tokens();
        let scanner_diags = scanner.diagnostics();
        let mut diagnostics: Vec<String> = Vec::new();
        let ghost rendered = scan_diags_spec(src).map(
            |i: int, d: DiagV| line_error_spec(d.line, d.message),
        );
        let mut idx: usize = 0;
        while idx < scanner_diags.len()
            invariant
                idx <= scanner_diags.len(),
                scanner_diags.deep_view() == scan_diags_spec(src),
                rendered == scan_diags_spec(src).map(
                    |i: int, d: DiagV| line_error_spec(d.line, d.message),
                ),
                diagnostics.deep_view().len() == idx as int,
                forall|k: int|
                    0 <= k < idx ==> diagnostics.deep_view()[k] == rendered[k],
            decreases scanner_diags.len() - idx,
        {
            let d = &scanner_diags[idx];
            proof {
                assert(scanner_diags[idx as int].deep_view() == scan_diags_spec(src)[idx as int]);
            }
            diagnostics.push(crate::line_error(d.line, d.message.as_str()));
            idx = idx + 1;
        }
        proof {
            assert(diagnostics.deep_view() =~= rendered);
            lemma_scan_tokens_wf(src);
        }
        let mut parser = Parser::new(tokens);
        match parser.parse() {
            Ok(expr) => {
                let printer = AstPrinter::new();
                let output = printer.print(&expr);
                if diagnostics.len() > 0 {
                    self.had_error = true;
                }
                RunOutput { output: Some(output), diagnostics }
            },
            Err(pe) => {
                diagnostics.push(token_error(&pe.token, pe.message.as_str()));
                self.had_error = true;
                proof {
                    assert(diagnostics.deep_view() =~= run_diags_spec(src));
                }
                RunOutput { output: None, diagnostics }
            },
        }
    }
}

impl Default for Runner {
    /// A runner that has seen no error yet.
    fn default() -> (r: Self)
        ensures
            !r.spec_had_error(),
    {
        Runner::new()
    }
}

} // verus!
