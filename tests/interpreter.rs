use break_a_loop::frontend::{fill_placeholder, preprocess};
use break_a_loop::language::{
    compile, compile_diagnosed, CallInterface, CallLog, CompilationStatus, Diagnostic, Expr, Loop, Stmt, UNWIND_ALL,
};
use break_a_loop::sequencer::Sequencer;

struct Recorder {
    calls: Vec<String>,
    truthy: Vec<&'static str>,
}

impl Recorder {
    fn new(truthy: Vec<&'static str>) -> Self {
        Recorder { calls: Vec::new(), truthy }
    }
}

impl CallInterface for Recorder {
    // Specification-only; never run. The calls are recorded in `calls`.
    fn log(&self) -> CallLog {
        CallLog::empty()
    }

    fn call(&mut self, name: &str) -> bool {
        self.calls.push(name.to_string());
        self.truthy.contains(&name)
    }
}

fn call(name: &str) -> Expr {
    Expr::Call(name.to_string())
}

fn effect(name: &str) -> Stmt {
    Stmt::Effectful(name.to_string())
}

fn blocks(status: &CompilationStatus) -> &Vec<Loop> {
    match status {
        CompilationStatus::Success(loops) => loops,
        other => panic!("expected a compiled program, got {:?}", other),
    }
}

#[test]
fn absent_entry_compiles_to_empty_program() {
    let status = compile("void helper() { while (1) { jump(); } }");
    assert_eq!(status, CompilationStatus::Success(vec![]));
    let mut seq = Sequencer::from_status(status);
    let mut host = Recorder::new(vec![]);
    assert!(seq.advance(&mut host));
    assert!(host.calls.is_empty());
}

#[test]
fn empty_entry_finishes_on_first_tick() {
    let mut seq = Sequencer::new();
    seq.recompile("int main() {}");
    assert_eq!(seq.status(), &CompilationStatus::Success(vec![]));
    let mut host = Recorder::new(vec![]);
    assert!(seq.advance(&mut host));
    assert!(host.calls.is_empty());
}

#[test]
fn break_stops_the_pass() {
    let block = Loop::new(vec![effect("a"), Stmt::Break, effect("b")]);
    let mut host = Recorder::new(vec![]);
    assert_eq!(block.iteration(&mut host), 1);
    assert_eq!(host.calls, vec!["a".to_string()]);
}

#[test]
fn return_retires_every_block() {
    let status = CompilationStatus::Success(vec![
        Loop::new(vec![Stmt::Return]),
        Loop::new(vec![effect("never")]),
    ]);
    let mut seq = Sequencer::from_status(status);
    let mut host = Recorder::new(vec![]);
    assert!(seq.advance(&mut host));
    assert_eq!(seq.status(), &CompilationStatus::Success(vec![]));
    assert!(host.calls.is_empty());
}

#[test]
fn return_signals_unwind_all() {
    let block = Loop::new(vec![Stmt::Return, effect("b")]);
    let mut host = Recorder::new(vec![]);
    assert_eq!(block.iteration(&mut host), UNWIND_ALL);
    assert!(host.calls.is_empty());
}

#[test]
fn false_left_side_skips_right_side() {
    let cond = Expr::LogicalAnd(Box::new(call("x")), Box::new(call("y")));
    let block = Loop::new(vec![Stmt::Conditional(cond, Box::new(Stmt::Break)), effect("z")]);
    let mut host = Recorder::new(vec![]);
    assert_eq!(block.iteration(&mut host), 0);
    assert_eq!(host.calls, vec!["x".to_string(), "z".to_string()]);
}

#[test]
fn true_conjunction_runs_branch() {
    let cond = Expr::LogicalAnd(Box::new(call("x")), Box::new(call("y")));
    let block = Loop::new(vec![Stmt::Conditional(cond, Box::new(Stmt::Break)), effect("z")]);
    let mut host = Recorder::new(vec!["x", "y"]);
    assert_eq!(block.iteration(&mut host), 1);
    assert_eq!(host.calls, vec!["x".to_string(), "y".to_string()]);
}

#[test]
fn true_conditional_ends_the_pass() {
    let block = Loop::new(vec![
        Stmt::Conditional(call("x"), Box::new(effect("a"))),
        effect("b"),
    ]);
    let mut host = Recorder::new(vec!["x"]);
    assert_eq!(block.iteration(&mut host), 0);
    assert_eq!(host.calls, vec!["x".to_string(), "a".to_string()]);
}

#[test]
fn unsupported_statement_does_nothing() {
    let block = Loop::new(vec![Stmt::Unsupported, effect("a")]);
    let mut host = Recorder::new(vec![]);
    assert_eq!(block.iteration(&mut host), 0);
    assert_eq!(host.calls, vec!["a".to_string()]);
}

#[test]
fn break_retires_one_block() {
    let mut seq = Sequencer::new();
    seq.recompile("int main() { while (1) { a(); break; } while (1) { b(); } }");
    let mut host = Recorder::new(vec![]);
    assert!(!seq.advance(&mut host));
    assert_eq!(blocks(seq.status()).len(), 1);
    assert!(!seq.advance(&mut host));
    assert_eq!(host.calls, vec!["a".to_string(), "b".to_string()]);
    assert_eq!(blocks(seq.status()).len(), 1);
}

#[test]
fn recompile_replaces_progress() {
    let code = "int main() { while (1) { break; } while (1) { b(); } }";
    let mut seq = Sequencer::new();
    seq.recompile(code);
    let mut host = Recorder::new(vec![]);
    assert!(!seq.advance(&mut host));
    assert_eq!(blocks(seq.status()).len(), 1);
    seq.recompile(code);
    assert_eq!(blocks(seq.status()).len(), 2);
    assert_eq!(seq.status(), &compile(code));
}

#[test]
fn compiling_twice_gives_the_same_blocks() {
    let code = "int main() {\n  while (1) {\n    if (player_is_jumping() && ready()) break;\n    shrink_player();\n  }\n}";
    let first = compile(code);
    let second = compile(code);
    assert_eq!(first, second);
    let expected = CompilationStatus::Success(vec![Loop::new(vec![
        Stmt::Conditional(
            Expr::LogicalAnd(Box::new(call("player_is_jumping")), Box::new(call("ready"))),
            Box::new(Stmt::Break),
        ),
        effect("shrink_player"),
    ])]);
    assert_eq!(first, expected);
}

#[test]
fn else_branch_is_dropped_and_compiles() {
    let status = compile("int main() { while (1) { if (a()) b(); else c(); for (;;) {} } }");
    let expected = CompilationStatus::Success(vec![Loop::new(vec![
        Stmt::Conditional(call("a"), Box::new(effect("b"))),
        Stmt::Unsupported,
    ])]);
    assert_eq!(status, expected);
}

#[test]
fn other_operators_and_declarations() {
    let status = compile("int main() { int x; while (1) { int y; if (a() || b()) break; x = 1; return 0; } }");
    let expected = CompilationStatus::Success(vec![Loop::new(vec![
        Stmt::Conditional(Expr::Unsupported, Box::new(Stmt::Break)),
        Stmt::Unsupported,
        Stmt::Return,
    ])]);
    assert_eq!(status, expected);
}

#[test]
fn goto_is_refused_explicitly() {
    let status = compile("int main() { while (1) { goto end; } end: return 0; }");
    assert_eq!(status, CompilationStatus::Unimplemented);
}

#[test]
fn syntax_error_is_rejected() {
    assert_eq!(compile("int main() { while (1) { break } }"), CompilationStatus::Failure);
}

#[test]
fn rejected_program_never_finishes() {
    let mut seq = Sequencer::from_status(CompilationStatus::Failure);
    let mut host = Recorder::new(vec![]);
    assert!(!seq.advance(&mut host));
    assert_eq!(seq.status(), &CompilationStatus::Failure);
}

#[test]
fn preprocess_drops_directives_comments_and_placeholders() {
    let text = "#include <stdio.h>\n  // note\nint main() {\n  $\n  a($);\n}";
    assert_eq!(preprocess(text), "int main() {\n  \n  a();\n}");
}

#[test]
fn preprocess_keeps_plain_text() {
    assert_eq!(preprocess("a\nb"), "a\nb");
    assert_eq!(preprocess(""), "");
    assert_eq!(preprocess("# x"), "");
}

#[test]
fn placeholder_in_source_compiles() {
    let status = compile("#include <game.h>\nint main() {\n  while (1) {\n    $\n    // hint\n  }\n}");
    assert_eq!(status, CompilationStatus::Success(vec![Loop::new(vec![])]));
}

#[test]
fn comment_after_unicode_space_is_dropped() {
    assert_eq!(preprocess("\u{a0}\t// note\nx"), "x");
    assert_eq!(preprocess("a // trailing\n #keep"), "a // trailing\n #keep");
}

#[test]
fn only_loops_directly_in_main_count() {
    let status = compile("int helper() { while (1) { a(); } }\nint main() { b(); while (1) c(); while (1) { d(); } }");
    assert_eq!(status, CompilationStatus::Success(vec![Loop::new(vec![effect("d")])]));
}

#[test]
fn unknown_callee_shape_is_unsupported() {
    let status = compile("int main() { while (1) { (*f)(); if ((*g)()) break; } }");
    let expected = CompilationStatus::Success(vec![Loop::new(vec![
        Stmt::Unsupported,
        Stmt::Conditional(Expr::Unsupported, Box::new(Stmt::Break)),
    ])]);
    assert_eq!(status, expected);
}

#[test]
fn fill_placeholder_replaces_the_first_only() {
    assert_eq!(fill_placeholder("a $ b $", "break;"), "a break; b $");
    assert_eq!(fill_placeholder("if ($) $", "x()"), "if (x()) $");
    assert_eq!(fill_placeholder("no marker", "x"), "no marker");
    assert_eq!(fill_placeholder("", "x"), "");
}

#[test]
fn diagnostics_name_each_unsupported_construct() {
    let (status, diags) = compile_diagnosed(
        "int main() { while (1) { if (a() || b()) break; else c(); (*f)(); x = 1; if (1) d(); } }",
    );
    assert!(matches!(status, CompilationStatus::Success(_)));
    assert_eq!(
        diags,
        vec![
            Diagnostic::UnsupportedOperator,
            Diagnostic::ElseDropped,
            Diagnostic::UnsupportedCallee,
            Diagnostic::UnsupportedStatement,
            Diagnostic::UnsupportedExpression,
        ]
    );
}

#[test]
fn clean_program_has_no_diagnostics() {
    let (_, diags) = compile_diagnosed("int main() { while (1) { if (a() && b()) break; c(); } }");
    assert!(diags.is_empty());
    let (status, diags) = compile_diagnosed("int main( {");
    assert_eq!(status, CompilationStatus::Failure);
    assert!(diags.is_empty());
}

#[test]
fn recompile_reports_diagnostics() {
    let mut seq = Sequencer::new();
    let diags = seq.recompile("int main() { while (1) { for (;;) {} } }");
    assert_eq!(diags, vec![Diagnostic::UnsupportedStatement]);
}

#[test]
fn empty_block_makes_no_call() {
    let block = Loop::new(vec![]);
    let mut host = Recorder::new(vec!["a"]);
    assert_eq!(block.iteration(&mut host), 0);
    assert!(host.calls.is_empty());
}
