use cylium::pipeline::{run_source, SourceOutcome};

const FUEL: u64 = 1_000_000;

fn lines(src: &[&str]) -> Vec<String> {
    src.iter().map(|s| s.to_string()).collect()
}

fn run(src: &[&str]) -> (Vec<String>, SourceOutcome) {
    run_source(lines(src), Vec::new(), FUEL)
}

#[test]
fn precedence_echo() {
    let (out, rc) = run(&["proc main", "echo 1 + 2 * 3", "end"]);
    assert_eq!(out, vec!["7".to_string()]);
    assert_eq!(rc, SourceOutcome::Exited(0));
}

#[test]
fn while_loop_counts() {
    let (out, rc) = run(&[
        "proc main",
        "number i = 0",
        "while i < 3",
        "echo i",
        "i += 1",
        "endwhile",
        "end",
    ]);
    assert_eq!(out, vec!["0".to_string(), "1".to_string(), "2".to_string()]);
    assert_eq!(rc, SourceOutcome::Exited(0));
}

#[test]
fn for_counts_down() {
    let (out, rc) = run(&["proc main", "for i from 3 to 0", "echo i", "endfor", "end"]);
    assert_eq!(out, vec!["3".to_string(), "2".to_string(), "1".to_string()]);
    assert_eq!(rc, SourceOutcome::Exited(0));
}

#[test]
fn top_level_const() {
    let (out, rc) = run(&["const number K = 10", "proc main", "echo K as string", "end"]);
    assert_eq!(out, vec!["10".to_string()]);
    assert_eq!(rc, SourceOutcome::Exited(0));
}

#[test]
fn call_with_arguments() {
    let (out, rc) = run(&[
        "proc add a:number b:number",
        "echo a + b",
        "end",
        "proc main",
        "call add 2 3",
        "end",
    ]);
    assert_eq!(out, vec!["5".to_string()]);
    assert_eq!(rc, SourceOutcome::Exited(0));
}

#[test]
fn string_repetition() {
    let (out, rc) = run(&["proc main", "echo \"hi\" * 3", "end"]);
    assert_eq!(out, vec!["hihihi".to_string()]);
    assert_eq!(rc, SourceOutcome::Exited(0));
}

#[test]
fn exit_code_propagates() {
    let (out, rc) = run(&["proc main", "exit 7", "end"]);
    assert!(out.is_empty());
    assert_eq!(rc, SourceOutcome::Exited(7));
}

#[test]
fn bad_numeric_cast_is_fatal() {
    let (out, rc) = run(&["proc main", "number x = \"abc\" as number", "end"]);
    assert!(out.is_empty());
    match rc {
        SourceOutcome::Failed(text) => {
            assert!(text.contains("A02"));
            // The diagnostic names the raw line (one-based).
            assert!(text.contains("2|"));
        },
        other => panic!("expected a diagnostic, got {:?}", other),
    }
}

#[test]
fn comments_and_blanks_are_skipped() {
    let (out, rc) = run(&[
        "# a program",
        "",
        "proc main",
        "   echo 2 - 3   ",
        "end",
    ]);
    assert_eq!(out, vec!["-1".to_string()]);
    assert_eq!(rc, SourceOutcome::Exited(0));
}

#[test]
fn if_else_branches() {
    let (out, rc) = run(&[
        "proc main",
        "number x = 2",
        "if x == 1",
        "echo \"one\"",
        "else",
        "echo \"other\"",
        "endif",
        "end",
    ]);
    assert_eq!(out, vec!["other".to_string()]);
    assert_eq!(rc, SourceOutcome::Exited(0));
}

#[test]
fn else_if_chain() {
    let (out, rc) = run(&[
        "proc main",
        "number x = 2",
        "if x == 1",
        "echo \"one\"",
        "else if x == 2",
        "echo \"two\"",
        "else",
        "echo \"many\"",
        "endif",
        "end",
    ]);
    assert_eq!(out, vec!["two".to_string()]);
    assert_eq!(rc, SourceOutcome::Exited(0));
}

#[test]
fn scope_isolation_after_call() {
    // The callee reassigns its parameter; the caller's local is
    // untouched.
    let (out, rc) = run(&[
        "proc shuffle x:number",
        "x = 99",
        "end",
        "proc main",
        "number y = 1",
        "call shuffle y",
        "echo y",
        "end",
    ]);
    assert_eq!(out, vec!["1".to_string()]);
    assert_eq!(rc, SourceOutcome::Exited(0));
}

#[test]
fn for_with_step() {
    let (out, rc) = run(&[
        "proc main",
        "for i from 0 to 10 step 4",
        "echo i",
        "endfor",
        "echo i",
        "end",
    ]);
    // Three passes (ceil(10 / 4)); on exit the variable holds the
    // first value that failed the bound.
    assert_eq!(
        out,
        vec!["0".to_string(), "4".to_string(), "8".to_string(), "12".to_string()]
    );
    assert_eq!(rc, SourceOutcome::Exited(0));
}

#[test]
fn input_is_read_and_trimmed() {
    let (out, rc) = run_source(
        lines(&["proc main", "string s = input", "echo s", "end"]),
        vec!["  hello  ".to_string()],
        FUEL,
    );
    assert_eq!(out, vec!["hello".to_string()]);
    assert_eq!(rc, SourceOutcome::Exited(0));
}

#[test]
fn missing_input_warns_and_continues() {
    let (out, rc) = run_source(
        lines(&["proc main", "string s = input", "echo s + \"!\"", "end"]),
        Vec::new(),
        FUEL,
    );
    assert_eq!(out.len(), 3);
    assert!(out[0].contains("C02"));
    assert_eq!(out[2], "!".to_string());
    assert_eq!(rc, SourceOutcome::Exited(0));
}

#[test]
fn integer_division_by_zero_is_fatal() {
    let (out, rc) = run(&["proc main", "echo 1 / 0", "end"]);
    assert!(out.is_empty());
    match rc {
        SourceOutcome::Failed(text) => assert!(text.contains("A31")),
        other => panic!("expected a diagnostic, got {:?}", other),
    }
}

#[test]
fn determinism_same_source_same_transcript() {
    let src = [
        "proc main",
        "number n = 3",
        "number acc = 1",
        "while n > 0",
        "acc *= n",
        "n -= 1",
        "endwhile",
        "echo acc",
        "end",
    ];
    let first = run(&src);
    let second = run(&src);
    assert_eq!(first.0, second.0);
    assert_eq!(first.1, second.1);
    assert_eq!(first.0, vec!["6".to_string()]);
}

#[test]
fn number_string_round_trip() {
    let (out, rc) = run(&["proc main", "echo ((0 - 42) as string) as number", "end"]);
    assert_eq!(out, vec!["-42".to_string()]);
    assert_eq!(rc, SourceOutcome::Exited(0));
}

#[test]
fn float_string_round_trip() {
    let (out, rc) = run(&["proc main", "echo ((2.5 as string) as float) as string", "end"]);
    assert_eq!(out, vec!["2.5".to_string()]);
    assert_eq!(rc, SourceOutcome::Exited(0));
}

#[test]
fn float_arithmetic() {
    let (out, rc) = run(&["proc main", "echo (1.5 + 2.25) as string", "end"]);
    assert_eq!(out, vec!["3.75".to_string()]);
    assert_eq!(rc, SourceOutcome::Exited(0));
}

#[test]
fn compound_assignment_subtracts_from_target() {
    let (out, rc) = run(&["proc main", "number x = 10", "x -= 3", "echo x", "end"]);
    assert_eq!(out, vec!["7".to_string()]);
    assert_eq!(rc, SourceOutcome::Exited(0));
}

#[test]
fn unknown_identifier_is_reported() {
    let (out, rc) = run(&["proc main", "echo ghost_value", "end"]);
    assert!(out.is_empty());
    match rc {
        SourceOutcome::Failed(text) => assert!(text.contains("A03")),
        other => panic!("expected a diagnostic, got {:?}", other),
    }
}

#[test]
fn condition_must_be_boolean() {
    let (_, rc) = run(&["proc main", "if 1 + 1", "echo \"no\"", "endif", "end"]);
    match rc {
        SourceOutcome::Failed(text) => assert!(text.contains("A15")),
        other => panic!("expected a diagnostic, got {:?}", other),
    }
}

#[test]
fn duplicate_procedure_is_reported() {
    let (_, rc) = run(&["proc main", "end", "proc main", "end"]);
    match rc {
        SourceOutcome::Failed(text) => assert!(text.contains("A38")),
        other => panic!("expected a diagnostic, got {:?}", other),
    }
}

#[test]
fn missing_main_is_reported() {
    let (_, rc) = run(&["proc helper", "echo 1", "end"]);
    match rc {
        SourceOutcome::Failed(text) => assert!(text.contains("A22")),
        other => panic!("expected a diagnostic, got {:?}", other),
    }
}

#[test]
fn unclosed_string_is_reported() {
    let (_, rc) = run(&["proc main", "echo \"oops", "end"]);
    match rc {
        SourceOutcome::Failed(text) => assert!(text.contains("A21")),
        other => panic!("expected a diagnostic, got {:?}", other),
    }
}

#[test]
fn arity_mismatch_is_reported() {
    let (_, rc) = run(&[
        "proc add a:number b:number",
        "echo a + b",
        "end",
        "proc main",
        "call add 2",
        "end",
    ]);
    match rc {
        SourceOutcome::Failed(text) => assert!(text.contains("A27")),
        other => panic!("expected a diagnostic, got {:?}", other),
    }
}

#[test]
fn declared_type_must_match() {
    let (_, rc) = run(&["proc main", "number x = true", "end"]);
    match rc {
        SourceOutcome::Failed(text) => assert!(text.contains("A43")),
        other => panic!("expected a diagnostic, got {:?}", other),
    }
}

#[test]
fn redundant_cast_is_rejected() {
    let (_, rc) = run(&["proc main", "echo 1 as number", "end"]);
    match rc {
        SourceOutcome::Failed(text) => assert!(text.contains("A40")),
        other => panic!("expected a diagnostic, got {:?}", other),
    }
}

#[test]
fn sqrt_of_a_perfect_square() {
    let (out, rc) = run(&["proc main", "echo (4.0 as sqrt) as string", "end"]);
    assert_eq!(rc, SourceOutcome::Exited(0));
    assert_eq!(out.len(), 1);
    let shown: f64 = out[0].parse().expect("a numeric echo");
    assert!((shown - 2.0).abs() < 1e-9);
}

#[test]
fn builtin_constants_are_seeded() {
    let (out, rc) = run(&["proc main", "echo (PI > 3.1) and (PI < 3.2)", "end"]);
    assert_eq!(out, vec!["true".to_string()]);
    assert_eq!(rc, SourceOutcome::Exited(0));
}

#[test]
fn delete_then_use_is_fatal() {
    let (out, rc) = run(&[
        "proc main",
        "number x = 1",
        "delete x",
        "echo x",
        "end",
    ]);
    assert!(out.is_empty());
    match rc {
        SourceOutcome::Failed(text) => assert!(text.contains("A03")),
        other => panic!("expected a diagnostic, got {:?}", other),
    }
}
