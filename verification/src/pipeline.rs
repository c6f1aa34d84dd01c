use vstd::prelude::*;
use crate::errors::{Diag, spec_code_text};
use crate::file_handler::{FileHandler, spec_ready, spec_error_text, spec_first_match};
use crate::lexer::{spec_lex_lines, grid_dv};
use crate::parser::{Parser, spec_parse_program, ast_nodes_v, AstNode};
use crate::validator::{check_types, spec_check_program};
use crate::bytecode::{compile, spec_compile_program};
use crate::vm::{Interpreter, RunOutcome, StepOut, run_program, strs_dv};
use crate::textops::spec_trim;

verus! {

/// How a whole source run ends: an exit code, a formatted diagnostic
/// (the text the user is shown), or an exhausted step budget.
#[derive(Debug, Clone, PartialEq)]
pub enum SourceOutcome {
    Exited(i32),
    Failed(String),
    OutOfFuel,
}

/// Every line trimmed: the raw file diagnostics are shown against.
pub open spec fn spec_raw_lines(lines: Seq<Seq<char>>) -> Seq<Seq<char>> {
    Seq::new(lines.len(), |i: int| spec_trim(lines[i]))
}

/// The user-facing form of a diagnostic: the raw source line it
/// points at and the catalogue text; a line index past the
/// preprocessed file (the missing `main`) is shown bare.
pub open spec fn spec_format_diag(raw: Seq<Seq<char>>, ready: Seq<Seq<char>>, d: Diag) -> Seq<
    char,
> {
    if (d.line as int) < ready.len() {
        spec_error_text(
            spec_first_match(raw, ready[d.line as int], 0, d.line as int) as nat,
            ready[d.line as int],
            spec_code_text(d.kind),
        )
    } else if d.line < usize::MAX {
        spec_error_text(d.line as nat, Seq::empty(), spec_code_text(d.kind))
    } else {
        spec_error_text(0, Seq::empty(), spec_code_text(d.kind))
    }
}

/// What the whole pipeline owes for a given source file, input lines
/// and step budget: each stage's outcome is the one its specification
/// gives, the transcript is the machine's, and a fatal diagnostic is
/// shown as the formatted text. The parsed tree is quantified: it is
/// any tree whose mathematical shadow is the one the grammar fixes.
pub open spec fn spec_source_outcome(
    filev: Seq<Seq<char>>,
    inputs: Seq<Seq<char>>,
    fuel: nat,
    transcript: Seq<Seq<char>>,
    outcome: SourceOutcome,
) -> bool {
    let raw = spec_raw_lines(filev);
    let ready = spec_ready(filev);
    match spec_lex_lines(ready) {
        Err(d) => transcript.len() == 0 && diag_shown(raw, ready, d, outcome),
        Ok(grid) => match spec_parse_program(grid) {
            Err(d) => transcript.len() == 0 && diag_shown(raw, ready, d, outcome),
            Ok(treev) => exists|tree: Seq<AstNode>|
                #[trigger] ast_nodes_v(tree) == treev && stages_after_parse(
                    raw,
                    ready,
                    tree,
                    inputs,
                    fuel,
                    transcript,
                    outcome,
                ),
        },
    }
}

/// The checker, the compiler and the machine, over the parsed tree.
pub open spec fn stages_after_parse(
    raw: Seq<Seq<char>>,
    ready: Seq<Seq<char>>,
    tree: Seq<AstNode>,
    inputs: Seq<Seq<char>>,
    fuel: nat,
    transcript: Seq<Seq<char>>,
    outcome: SourceOutcome,
) -> bool {
    match spec_check_program(tree) {
        Err(d) => transcript.len() == 0 && diag_shown(raw, ready, d, outcome),
        Ok(_) => match spec_compile_program(tree) {
            Err(d) => transcript.len() == 0 && diag_shown(raw, ready, d, outcome),
            Ok(pc) => match run_program(pc.0, pc.1, inputs, fuel) {
                StepOut::Exited { m, code } => transcript == m.transcript && outcome
                    == SourceOutcome::Exited(code),
                StepOut::Failed { m, line, kind } => transcript == m.transcript && diag_shown(
                    raw,
                    ready,
                    Diag { line, kind },
                    outcome,
                ),
                StepOut::OutOfFuel { m } => transcript == m.transcript && outcome is OutOfFuel,
                StepOut::Done { .. } => false,
            },
        },
    }
}

/// The outcome carries exactly the formatted diagnostic.
pub open spec fn diag_shown(
    raw: Seq<Seq<char>>,
    ready: Seq<Seq<char>>,
    d: Diag,
    outcome: SourceOutcome,
) -> bool {
    match outcome {
        SourceOutcome::Failed(t) => t@ == spec_format_diag(raw, ready, d),
        _ => false,
    }
}

/// The whole pipeline on one source file: preprocess, scan, parse,
/// check, compile, run.
pub fn run_source(file: Vec<String>, inputs: Vec<String>, fuel: u64) -> (r: (
    Vec<String>,
    SourceOutcome,
))
    ensures
        spec_source_outcome(strs_dv(file@), strs_dv(inputs@), fuel as nat, strs_dv(r.0@), r.1),
{
    let ghost filev = strs_dv(file@);
    let handler = FileHandler::new(file);
    proof {
        assert(handler.raw_view() =~= spec_raw_lines(filev));
    }
    let grid = match crate::lexer::tokenize_file(&handler) {
        Ok(g) => g,
        Err(d) => {
            let out: Vec<String> = Vec::new();
            proof {
                assert(strs_dv(out@) =~= Seq::<Seq<char>>::empty());
            }
            return (out, SourceOutcome::Failed(format_diag(&handler, d)));
        },
    };
    let mut parser = Parser::new(grid);
    let tree = match parser.start() {
        Ok(t) => t,
        Err(d) => {
            let out: Vec<String> = Vec::new();
            proof {
                assert(strs_dv(out@) =~= Seq::<Seq<char>>::empty());
            }
            return (out, SourceOutcome::Failed(format_diag(&handler, d)));
        },
    };
    match check_types(&tree) {
        Ok(_) => {},
        Err(d) => {
            let out: Vec<String> = Vec::new();
            proof {
                assert(strs_dv(out@) =~= Seq::<Seq<char>>::empty());
            }
            return (out, SourceOutcome::Failed(format_diag(&handler, d)));
        },
    }
    let (procs, const_code) = match compile(&tree) {
        Ok(pc) => pc,
        Err(d) => {
            let out: Vec<String> = Vec::new();
            proof {
                assert(strs_dv(out@) =~= Seq::<Seq<char>>::empty());
            }
            return (out, SourceOutcome::Failed(format_diag(&handler, d)));
        },
    };
    let machine = Interpreter::new(procs, const_code);
    let (transcript, outcome) = machine.run(inputs, fuel);
    match outcome {
        RunOutcome::Exited(c) => (transcript, SourceOutcome::Exited(c)),
        RunOutcome::Failed(d) => {
            let text = format_diag(&handler, d);
            (transcript, SourceOutcome::Failed(text))
        },
        RunOutcome::OutOfFuel => (transcript, SourceOutcome::OutOfFuel),
    }
}

/// The formatted text of a diagnostic against the preprocessed file.
pub fn format_diag(handler: &FileHandler, d: Diag) -> (r: String)
    ensures
        r@ == spec_format_diag(handler.raw_view(), handler.ready_view(), d),
{
    let text = d.kind.code_text();
    if d.line < handler.ready_file.len() {
        handler.show_error(d.line, text.as_str())
    } else if d.line < usize::MAX {
        proof {
            reveal_strlit("");
        }
        FileHandler::get_error(d.line, "", text.as_str())
    } else {
        proof {
            reveal_strlit("");
        }
        FileHandler::get_error(0, "", text.as_str())
    }
}

} // verus!
