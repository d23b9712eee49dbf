//! The restricted statement and expression model, its lowering from the
//! generic syntax tree, and the extraction of the program's blocks.
use vstd::prelude::*;

use crate::frontend::{parse_source, parsed_unit, preprocess, preprocess_spec};
use crate::syntax::{SyntaxDecl, SyntaxExpr, SyntaxItem, SyntaxStmt, SyntaxUnit};

verus! {

/// The unwind signal that asks to retire every remaining block.
pub const UNWIND_ALL: u32 = 0xffff_ffff;

/// A boolean expression of the restricted model.
#[derive(Debug, PartialEq)]
pub enum Expr {
    /// Asks the host call interface, yielding its answer.
    Call(String),
    /// Short-circuit conjunction: the right side is evaluated only when the
    /// left side is true.
    LogicalAnd(Box<Expr>, Box<Expr>),
    /// Any other expression; evaluates to false.
    Unsupported,
}

/// An executable statement of the restricted model.
#[derive(Debug, PartialEq)]
pub enum Stmt {
    /// A bare call, made for its effect; the answer is discarded.
    Effectful(String),
    /// Retires the current block.
    Break,
    /// Retires every remaining block.
    Return,
    /// Runs the statement only when the condition is true.
    Conditional(Expr, Box<Stmt>),
    /// Any other statement; does nothing.
    Unsupported,
}

/// The lowering of a syntax expression into the restricted model.
pub open spec fn lower_expr_spec(e: SyntaxExpr) -> Expr
    decreases e,
{
    match e {
        SyntaxExpr::Call(callee) => match *callee {
            SyntaxExpr::Identifier(name) => Expr::Call(name),
            _ => Expr::Unsupported,
        },
        SyntaxExpr::Binary(is_and, lhs, rhs) => if is_and {
            Expr::LogicalAnd(Box::new(lower_expr_spec(*lhs)), Box::new(lower_expr_spec(*rhs)))
        } else {
            Expr::Unsupported
        },
        _ => Expr::Unsupported,
    }
}

/// The lowering of a syntax statement into the restricted model; `None` when
/// the statement is, or conditionally runs, a `goto`.
pub open spec fn lower_stmt_spec(s: SyntaxStmt) -> Option<Stmt>
    decreases s,
{
    match s {
        SyntaxStmt::Expression(Some(SyntaxExpr::Call(callee))) => match *callee {
            SyntaxExpr::Identifier(name) => Some(Stmt::Effectful(name)),
            _ => Some(Stmt::Unsupported),
        },
        SyntaxStmt::Break => Some(Stmt::Break),
        SyntaxStmt::Return => Some(Stmt::Return),
        SyntaxStmt::If(condition, then_branch, _) => match lower_stmt_spec(*then_branch) {
            Some(then_stmt) => Some(
                Stmt::Conditional(lower_expr_spec(condition), Box::new(then_stmt)),
            ),
            None => None,
        },
        SyntaxStmt::Goto => None,
        _ => Some(Stmt::Unsupported),
    }
}

/// Why a construct of the source was lowered to an unsupported form.
#[derive(Clone, Copy, Debug, PartialEq, Eq)]
pub enum Diagnostic {
    /// A call whose callee is not a plain name.
    UnsupportedCallee,
    /// A binary operator other than the logical and.
    UnsupportedOperator,
    /// Any other expression in a condition.
    UnsupportedExpression,
    /// A statement outside the model; it does nothing.
    UnsupportedStatement,
    /// The `else` branch of an `if`, which is dropped.
    ElseDropped,
}

/// The diagnostics of lowering an expression, in source order.
pub open spec fn expr_diagnostics(e: SyntaxExpr) -> Seq<Diagnostic>
    decreases e,
{
    match e {
        SyntaxExpr::Call(callee) => match *callee {
            SyntaxExpr::Identifier(_) => seq![],
            _ => seq![Diagnostic::UnsupportedCallee],
        },
        SyntaxExpr::Binary(is_and, lhs, rhs) => if is_and {
            expr_diagnostics(*lhs) + expr_diagnostics(*rhs)
        } else {
            seq![Diagnostic::UnsupportedOperator]
        },
        _ => seq![Diagnostic::UnsupportedExpression],
    }
}

/// The diagnostics of lowering a statement, in source order.
pub open spec fn stmt_diagnostics(s: SyntaxStmt) -> Seq<Diagnostic>
    decreases s,
{
    match s {
        SyntaxStmt::Expression(Some(SyntaxExpr::Call(callee))) => match *callee {
            SyntaxExpr::Identifier(_) => seq![],
            _ => seq![Diagnostic::UnsupportedCallee],
        },
        SyntaxStmt::Break => seq![],
        SyntaxStmt::Return => seq![],
        SyntaxStmt::Goto => seq![],
        SyntaxStmt::If(condition, then_branch, else_branch) => expr_diagnostics(condition)
            + stmt_diagnostics(*then_branch) + if else_branch is Some {
            seq![Diagnostic::ElseDropped]
        } else {
            seq![]
        },
        _ => seq![Diagnostic::UnsupportedStatement],
    }
}

/// Lowers a syntax expression, appending a diagnostic for each unsupported
/// part.
pub fn lower_expression(e: SyntaxExpr, diags: &mut Vec<Diagnostic>) -> (r: Expr)
    ensures
        r == lower_expr_spec(e),
        final(diags)@ == old(diags)@ + expr_diagnostics(e),
    decreases e,
{
    let ghost start = diags@;
    match e {
        SyntaxExpr::Call(callee) => match *callee {
            SyntaxExpr::Identifier(name) => {
                proof {
                    assert(start + seq![] =~= start);
                }
                Expr::Call(name)
            },
            _ => {
                diags.push(Diagnostic::UnsupportedCallee);
                Expr::Unsupported
            },
        },
        SyntaxExpr::Binary(is_and, lhs, rhs) => {
            if is_and {
                let ghost le = *lhs;
                let ghost re = *rhs;
                let l = lower_expression(*lhs, diags);
                let r = lower_expression(*rhs, diags);
                proof {
                    assert(diags@ =~= start + (expr_diagnostics(le) + expr_diagnostics(re)));
                }
                Expr::LogicalAnd(Box::new(l), Box::new(r))
            } else {
                diags.push(Diagnostic::UnsupportedOperator);
                Expr::Unsupported
            }
        },
        _ => {
            diags.push(Diagnostic::UnsupportedExpression);
            Expr::Unsupported
        },
    }
}

/// Lowers a syntax statement, appending a diagnostic for each unsupported
/// part; `None` when a `goto` would be constructed.
pub fn lower_statement(s: SyntaxStmt, diags: &mut Vec<Diagnostic>) -> (r: Option<Stmt>)
    ensures
        r == lower_stmt_spec(s),
        final(diags)@ == old(diags)@ + stmt_diagnostics(s),
    decreases s,
{
    let ghost start = diags@;
    proof {
        assert(start + seq![] =~= start);
    }
    match s {
        SyntaxStmt::Expression(Some(SyntaxExpr::Call(callee))) => match *callee {
            SyntaxExpr::Identifier(name) => Some(Stmt::Effectful(name)),
            _ => {
                diags.push(Diagnostic::UnsupportedCallee);
                Some(Stmt::Unsupported)
            },
        },
        SyntaxStmt::Break => Some(Stmt::Break),
        SyntaxStmt::Return => Some(Stmt::Return),
        SyntaxStmt::If(condition, then_branch, else_branch) => {
            let ghost ce = condition;
            let ghost te = *then_branch;
            let c = lower_expression(condition, diags);
            let t = lower_statement(*then_branch, diags);
            let ghost mid = diags@;
            if else_branch.is_some() {
                diags.push(Diagnostic::ElseDropped);
            }
            proof {
                let tail: Seq<Diagnostic> = if else_branch is Some {
                    seq![Diagnostic::ElseDropped]
                } else {
                    seq![]
                };
                assert(diags@ =~= mid + tail);
                assert(diags@ =~= start + (expr_diagnostics(ce) + stmt_diagnostics(te) + tail));
            }
            match t {
                Some(then_stmt) => Some(Stmt::Conditional(c, Box::new(then_stmt))),
                None => None,
            }
        },
        SyntaxStmt::Goto => None,
        _ => {
            diags.push(Diagnostic::UnsupportedStatement);
            Some(Stmt::Unsupported)
        },
    }
}

} // verus!

verus! {

/// The statements among the items of a compound statement, in order.
pub open spec fn item_statements(items: Seq<SyntaxItem>) -> Seq<SyntaxStmt>
    decreases items.len(),
{
    if items.len() == 0 {
        seq![]
    } else {
        let rest = item_statements(items.drop_last());
        match items.last() {
            SyntaxItem::Statement(s) => rest.push(s),
            SyntaxItem::Declaration => rest,
        }
    }
}

/// The body statements of an item of the entry function that is a `while`
/// loop with a braced body.
pub open spec fn loop_body(item: SyntaxItem) -> Option<Seq<SyntaxStmt>> {
    match item {
        SyntaxItem::Statement(SyntaxStmt::While(_, body)) => match *body {
            SyntaxStmt::Compound(items) => Some(item_statements(items@)),
            _ => None,
        },
        _ => None,
    }
}

/// The loop bodies among the top-level items of the entry function, in order.
pub open spec fn entry_loops(items: Seq<SyntaxItem>) -> Seq<Seq<SyntaxStmt>>
    decreases items.len(),
{
    if items.len() == 0 {
        seq![]
    } else {
        let rest = entry_loops(items.drop_last());
        match loop_body(items.last()) {
            Some(body) => rest.push(body),
            None => rest,
        }
    }
}

/// Whether a function name is the entry point.
pub open spec fn is_entry_name(name: Option<String>) -> bool {
    name is Some && name->0@ == "main"@
}

/// The loop bodies that a top-level item contributes: those of the entry
/// function when its body is braced, none otherwise.
pub open spec fn decl_loops(d: SyntaxDecl) -> Seq<Seq<SyntaxStmt>> {
    match d {
        SyntaxDecl::Function(name, SyntaxStmt::Compound(items)) => if is_entry_name(name) {
            entry_loops(items@)
        } else {
            seq![]
        },
        _ => seq![],
    }
}

/// The loop bodies of a whole unit, in source order.
pub open spec fn unit_loops(decls: Seq<SyntaxDecl>) -> Seq<Seq<SyntaxStmt>>
    decreases decls.len(),
{
    if decls.len() == 0 {
        seq![]
    } else {
        unit_loops(decls.drop_last()) + decl_loops(decls.last())
    }
}

/// The statement sequences of a vector of loop bodies.
pub open spec fn bodies_view(v: Seq<Vec<SyntaxStmt>>) -> Seq<Seq<SyntaxStmt>> {
    v.map_values(|b: Vec<SyntaxStmt>| b@)
}

fn statements_of_items(items: Vec<SyntaxItem>) -> (r: Vec<SyntaxStmt>)
    ensures
        r@ == item_statements(items@),
{
    let ghost all = items@;
    let mut items = items;
    let n: usize = items.len();
    let mut out: Vec<SyntaxStmt> = Vec::new();
    let mut k: usize = 0;
    while items.len() > 0
        invariant
            k + items@.len() == all.len(),
            all.len() == n,
            items@ == all.skip(k as int),
            out@ == item_statements(all.take(k as int)),
        decreases items.len(),
    {
        let item = items.remove(0);
        proof {
            assert(all.take(k + 1).drop_last() =~= all.take(k as int));
            assert(all.skip(k + 1) =~= all.skip(k as int).remove(0));
        }
        match item {
            SyntaxItem::Statement(s) => out.push(s),
            SyntaxItem::Declaration => {},
        }
        k = k + 1;
    }
    proof {
        assert(all.take(k as int) =~= all);
    }
    out
}

fn push_entry_loops(items: Vec<SyntaxItem>, bodies: &mut Vec<Vec<SyntaxStmt>>)
    ensures
        bodies_view(final(bodies)@) == bodies_view(old(bodies)@) + entry_loops(items@),
{
    let ghost all = items@;
    let ghost start = bodies_view(bodies@);
    let mut items = items;
    let n: usize = items.len();
    let mut k: usize = 0;
    while items.len() > 0
        invariant
            k + items@.len() == all.len(),
            all.len() == n,
            items@ == all.skip(k as int),
            bodies_view(bodies@) == start + entry_loops(all.take(k as int)),
        decreases items.len(),
    {
        let item = items.remove(0);
        proof {
            assert(all.take(k + 1).drop_last() =~= all.take(k as int));
            assert(all.skip(k + 1) =~= all.skip(k as int).remove(0));
        }
        let ghost before = bodies@;
        match item {
            SyntaxItem::Statement(SyntaxStmt::While(_, body)) => match *body {
                SyntaxStmt::Compound(inner) => {
                    let stmts = statements_of_items(inner);
                    bodies.push(stmts);
                    proof {
                        assert(bodies_view(bodies@) =~= bodies_view(before).push(stmts@));
                    }
                },
                _ => {},
            },
            _ => {},
        }
        k = k + 1;
    }
    proof {
        assert(all.take(k as int) =~= all);
    }
}

fn collect_unit_loops(unit: SyntaxUnit) -> (r: Vec<Vec<SyntaxStmt>>)
    ensures
        bodies_view(r@) == unit_loops(unit.items@),
{
    let ghost all = unit.items@;
    let mut decls = unit.items;
    let n: usize = decls.len();
    let mut bodies: Vec<Vec<SyntaxStmt>> = Vec::new();
    let mut k: usize = 0;
    proof {
        assert(bodies_view(bodies@) =~= unit_loops(all.take(0)));
    }
    while decls.len() > 0
        invariant
            k + decls@.len() == all.len(),
            all.len() == n,
            decls@ == all.skip(k as int),
            bodies_view(bodies@) == unit_loops(all.take(k as int)),
        decreases decls.len(),
    {
        let decl = decls.remove(0);
        proof {
            assert(all.take(k + 1).drop_last() =~= all.take(k as int));
            assert(all.skip(k + 1) =~= all.skip(k as int).remove(0));
        }
        match decl {
            SyntaxDecl::Function(Some(name), SyntaxStmt::Compound(items)) => {
                proof {
                    reveal_strlit("main");
                }
                if crate::text::str_equal(name.as_str(), "main") {
                    push_entry_loops(items, &mut bodies);
                } else {
                    proof {
                        assert(bodies_view(bodies@) + decl_loops(all[k as int]) =~= bodies_view(bodies@));
                    }
                }
            },
            _ => {
                proof {
                    assert(bodies_view(bodies@) + decl_loops(all[k as int]) =~= bodies_view(bodies@));
                }
            },
        }
        k = k + 1;
    }
    proof {
        assert(all.take(k as int) =~= all);
    }
    bodies
}

} // verus!

verus! {

/// One loop body of the program: the statements run on each pass.
#[derive(Debug, PartialEq)]
pub struct Loop {
    statements: Vec<Stmt>,
}

impl View for Loop {
    type V = Seq<Stmt>;

    closed spec fn view(&self) -> Seq<Stmt> {
        self.statements@
    }
}

/// The result of compiling a source text.
#[derive(Debug, PartialEq)]
pub enum CompilationStatus {
    /// Nothing was compiled yet.
    Unattempted,
    /// The source parsed; the extracted blocks in source order.
    Success(Vec<Loop>),
    /// The source is not syntactically valid.
    Failure,
    /// The source parsed, but a block holds a `goto`, which cannot be run.
    Unimplemented,
}

/// The mathematical value of a [`CompilationStatus`].
pub enum Outcome {
    Unattempted,
    Compiled(Seq<Seq<Stmt>>),
    Rejected,
    Unimplemented,
}

/// The statement sequences of a list of blocks.
pub open spec fn loops_view(v: Seq<Loop>) -> Seq<Seq<Stmt>> {
    v.map_values(|l: Loop| l@)
}

impl View for CompilationStatus {
    type V = Outcome;

    open spec fn view(&self) -> Outcome {
        match self {
            CompilationStatus::Unattempted => Outcome::Unattempted,
            CompilationStatus::Success(loops) => Outcome::Compiled(loops_view(loops@)),
            CompilationStatus::Failure => Outcome::Rejected,
            CompilationStatus::Unimplemented => Outcome::Unimplemented,
        }
    }
}

/// The lowering of a block's statements; `None` when one of them holds a `goto`.
pub open spec fn lower_block_spec(stmts: Seq<SyntaxStmt>) -> Option<Seq<Stmt>>
    decreases stmts.len(),
{
    if stmts.len() == 0 {
        Some(seq![])
    } else {
        match (lower_block_spec(stmts.drop_last()), lower_stmt_spec(stmts.last())) {
            (Some(rest), Some(s)) => Some(rest.push(s)),
            _ => None,
        }
    }
}

/// The lowering of every block; `None` when one of them holds a `goto`.
pub open spec fn lower_blocks_spec(bodies: Seq<Seq<SyntaxStmt>>) -> Option<Seq<Seq<Stmt>>>
    decreases bodies.len(),
{
    if bodies.len() == 0 {
        Some(seq![])
    } else {
        match (lower_blocks_spec(bodies.drop_last()), lower_block_spec(bodies.last())) {
            (Some(rest), Some(b)) => Some(rest.push(b)),
            _ => None,
        }
    }
}

/// What compiling a parsed unit yields: the lowered loops of the entry
/// function, or `Unimplemented` when one of them holds a `goto`.
pub open spec fn compile_unit_spec(unit: SyntaxUnit) -> Outcome {
    match lower_blocks_spec(unit_loops(unit.items@)) {
        Some(blocks) => Outcome::Compiled(blocks),
        None => Outcome::Unimplemented,
    }
}

/// The diagnostics of lowering a block's statements, in order.
pub open spec fn block_diagnostics(stmts: Seq<SyntaxStmt>) -> Seq<Diagnostic>
    decreases stmts.len(),
{
    if stmts.len() == 0 {
        seq![]
    } else {
        block_diagnostics(stmts.drop_last()) + stmt_diagnostics(stmts.last())
    }
}

/// The diagnostics of lowering every block, in order.
pub open spec fn blocks_diagnostics(bodies: Seq<Seq<SyntaxStmt>>) -> Seq<Diagnostic>
    decreases bodies.len(),
{
    if bodies.len() == 0 {
        seq![]
    } else {
        blocks_diagnostics(bodies.drop_last()) + block_diagnostics(bodies.last())
    }
}

/// The diagnostics of compiling a parsed unit: those of every statement of
/// every extracted loop body, in source order.
pub open spec fn unit_diagnostics(unit: SyntaxUnit) -> Seq<Diagnostic> {
    blocks_diagnostics(unit_loops(unit.items@))
}

fn lower_block(stmts: Vec<SyntaxStmt>, diags: &mut Vec<Diagnostic>) -> (r: Option<Vec<Stmt>>)
    ensures
        match r {
            Some(v) => lower_block_spec(stmts@) == Some(v@),
            None => lower_block_spec(stmts@) is None,
        },
        final(diags)@ == old(diags)@ + block_diagnostics(stmts@),
{
    let ghost all = stmts@;
    let ghost start = diags@;
    let mut rest = stmts;
    let n: usize = rest.len();
    let mut out: Vec<Stmt> = Vec::new();
    let mut failed = false;
    let mut k: usize = 0;
    proof {
        assert(all.take(0) =~= seq![]);
        assert(start + seq![] =~= start);
    }
    while rest.len() > 0
        invariant
            k + rest@.len() == all.len(),
            all.len() == n,
            rest@ == all.skip(k as int),
            all == stmts@,
            failed ==> lower_block_spec(all.take(k as int)) is None,
            !failed ==> lower_block_spec(all.take(k as int)) == Some(out@),
            diags@ == start + block_diagnostics(all.take(k as int)),
        decreases rest.len(),
    {
        let ghost before = diags@;
        let s = rest.remove(0);
        proof {
            assert(all.take(k + 1).drop_last() =~= all.take(k as int));
            assert(all.take(k + 1).last() == all[k as int]);
            assert(all.skip(k + 1) =~= all.skip(k as int).remove(0));
        }
        match lower_statement(s, diags) {
            Some(lowered) => {
                if !failed {
                    out.push(lowered);
                }
            },
            None => {
                failed = true;
            },
        }
        proof {
            assert(diags@ =~= start + block_diagnostics(all.take(k + 1)));
        }
        k = k + 1;
    }
    proof {
        assert(all.take(k as int) =~= all);
    }
    if failed {
        None
    } else {
        Some(out)
    }
}

/// Compiles a parsed unit: each `while` loop with a braced body directly
/// inside `main` becomes a block, in source order; everything else at the top
/// level of `main` is skipped. A `goto` in a block yields `Unimplemented`.
pub fn compile_unit(unit: SyntaxUnit) -> (r: CompilationStatus)
    ensures
        r@ == compile_unit_spec(unit),
{
    compile_unit_diagnosed(unit).0
}

/// Compiles a parsed unit as `compile_unit` does, together with the
/// diagnostics of every unsupported construct in the extracted loop bodies.
pub fn compile_unit_diagnosed(unit: SyntaxUnit) -> (r: (CompilationStatus, Vec<Diagnostic>))
    ensures
        r.0@ == compile_unit_spec(unit),
        r.1@ == unit_diagnostics(unit),
{
    let bodies = collect_unit_loops(unit);
    let ghost all = bodies_view(bodies@);
    let mut bodies = bodies;
    let n: usize = bodies.len();
    let mut loops: Vec<Loop> = Vec::new();
    let mut diags: Vec<Diagnostic> = Vec::new();
    let mut failed = false;
    let mut k: usize = 0;
    proof {
        assert(all.take(0) =~= seq![]);
        assert(diags@ =~= blocks_diagnostics(all.take(0)));
    }
    while bodies.len() > 0
        invariant
            k + bodies@.len() == all.len(),
            all.len() == n,
            bodies_view(bodies@) == all.skip(k as int),
            all == unit_loops(unit.items@),
            failed ==> lower_blocks_spec(all.take(k as int)) is None,
            !failed ==> lower_blocks_spec(all.take(k as int)) == Some(loops_view(loops@)),
            diags@ == blocks_diagnostics(all.take(k as int)),
        decreases bodies.len(),
    {
        let ghost before = bodies@;
        let body = bodies.remove(0);
        proof {
            assert(all.take(k + 1).drop_last() =~= all.take(k as int));
            assert(all.take(k + 1).last() == all[k as int]);
            assert(bodies_view(before)[0] == body@);
            assert(bodies_view(bodies@) =~= bodies_view(before).remove(0));
            assert(all.skip(k + 1) =~= all.skip(k as int).remove(0));
        }
        match lower_block(body, &mut diags) {
            Some(statements) => {
                if !failed {
                    let ghost prev = loops@;
                    loops.push(Loop { statements });
                    proof {
                        assert(loops_view(loops@) =~= loops_view(prev).push(statements@));
                    }
                }
            },
            None => {
                failed = true;
            },
        }
        k = k + 1;
    }
    proof {
        assert(all.take(k as int) =~= all);
    }
    if failed {
        (CompilationStatus::Unimplemented, diags)
    } else {
        (CompilationStatus::Success(loops), diags)
    }
}

} // verus!

verus! {

/// The host side of the program: every call that the program makes goes
/// through here, by name, and yields the host's answer.
/// A record of calls made to a host: each name with the answer given.
pub type CallLog = Seq<(Seq<char>, bool)>;

pub trait CallInterface {
    /// Every call received so far, with the answer given, in order. This is a
    /// specification-only view of the host: it is never run, and the
    /// contract of `call` is what the host promises about it.
    spec fn log(&self) -> CallLog;

    /// Performs the named call and returns its answer; the call and its
    /// answer are appended to the log. Names that the host does not know
    /// should answer false.
    fn call(&mut self, name: &str) -> (r: bool)
        ensures
            final(self).log() == old(self).log().push((name@, r)),
    ;
}

/// The calls that a host received between two states of its log.
pub open spec fn calls_since(before: CallLog, after: CallLog) -> CallLog {
    after.skip(before.len() as int)
}

/// The names of a sequence of calls made to the host, with their answers.
pub open spec fn call_names(t: CallLog) -> Seq<Seq<char>> {
    t.map_values(|p: (Seq<char>, bool)| p.0)
}

/// The answers of a sequence of calls made to the host.
pub open spec fn call_answers(t: CallLog) -> Seq<bool> {
    t.map_values(|p: (Seq<char>, bool)| p.1)
}

/// Evaluates an expression when the host gives the answers `a`, in order:
/// the value, and the names called.
pub open spec fn eval_spec(e: Expr, a: Seq<bool>) -> (bool, Seq<Seq<char>>)
    decreases e,
{
    match e {
        Expr::Call(name) => (a[0], seq![name@]),
        Expr::LogicalAnd(lhs, rhs) => {
            let l = eval_spec(*lhs, a);
            if l.0 {
                let r = eval_spec(*rhs, a.skip(l.1.len() as int));
                (r.0, l.1 + r.1)
            } else {
                (false, l.1)
            }
        },
        Expr::Unsupported => (false, seq![]),
    }
}

/// Executes a statement when the host gives the answers `a`, in order:
/// whether the pass over the block stops here, the unwind signal, and the
/// names called.
pub open spec fn exec_spec(s: Stmt, a: Seq<bool>) -> (bool, u32, Seq<Seq<char>>)
    decreases s,
{
    match s {
        Stmt::Effectful(name) => (false, 0, seq![name@]),
        Stmt::Break => (true, 1, seq![]),
        Stmt::Return => (true, UNWIND_ALL, seq![]),
        Stmt::Conditional(condition, then_stmt) => {
            let c = eval_spec(condition, a);
            if c.0 {
                let t = exec_spec(*then_stmt, a.skip(c.1.len() as int));
                (true, t.1, c.1 + t.2)
            } else {
                (false, 0, c.1)
            }
        },
        Stmt::Unsupported => (false, 0, seq![]),
    }
}

/// One pass over a block's statements when the host gives the answers `a`:
/// the unwind signal, and the names called. The pass ends at the first
/// `Break`, `Return` or conditional whose condition holds.
pub open spec fn pass_spec(stmts: Seq<Stmt>, a: Seq<bool>) -> (u32, Seq<Seq<char>>)
    decreases stmts.len(),
{
    if stmts.len() == 0 {
        (0, seq![])
    } else {
        let first = exec_spec(stmts[0], a);
        if first.0 {
            (first.1, first.2)
        } else {
            let rest = pass_spec(stmts.skip(1), a.skip(first.2.len() as int));
            (rest.0, first.2 + rest.1)
        }
    }
}

proof fn lemma_trace_concat(t1: CallLog, t2: CallLog)
    ensures
        call_answers(t1 + t2) == call_answers(t1) + call_answers(t2),
        call_names(t1 + t2) == call_names(t1) + call_names(t2),
        call_answers(t1).len() == t1.len(),
        call_names(t1).len() == t1.len(),
{
    assert(call_answers(t1 + t2) =~= call_answers(t1) + call_answers(t2));
    assert(call_names(t1 + t2) =~= call_names(t1) + call_names(t2));
}

/// Answers past those that an expression consumes do not change its evaluation.
proof fn lemma_eval_prefix(e: Expr, a: Seq<bool>, b: Seq<bool>)
    requires
        eval_spec(e, a).1.len() <= a.len(),
    ensures
        eval_spec(e, a + b) == eval_spec(e, a),
    decreases e,
{
    match e {
        Expr::Call(_) => {},
        Expr::LogicalAnd(lhs, rhs) => {
            let l = eval_spec(*lhs, a);
            lemma_eval_prefix(*lhs, a, b);
            if l.0 {
                let k = l.1.len() as int;
                assert((a + b).skip(k) =~= a.skip(k) + b);
                lemma_eval_prefix(*rhs, a.skip(k), b);
            }
        },
        Expr::Unsupported => {},
    }
}

/// Answers past those that a statement consumes do not change its execution.
proof fn lemma_exec_prefix(s: Stmt, a: Seq<bool>, b: Seq<bool>)
    requires
        exec_spec(s, a).2.len() <= a.len(),
    ensures
        exec_spec(s, a + b) == exec_spec(s, a),
    decreases s,
{
    match s {
        Stmt::Conditional(condition, then_stmt) => {
            let c = eval_spec(condition, a);
            lemma_eval_prefix(condition, a, b);
            if c.0 {
                let k = c.1.len() as int;
                assert((a + b).skip(k) =~= a.skip(k) + b);
                lemma_exec_prefix(*then_stmt, a.skip(k), b);
            }
        },
        _ => {},
    }
}

fn evaluate<A: CallInterface>(api: &mut A, e: &Expr) -> (r: (bool, Ghost<CallLog>))
    ensures
        eval_spec(*e, call_answers(r.1@)) == (r.0, call_names(r.1@)),
        final(api).log() == old(api).log() + r.1@,
    decreases e,
{
    match e {
        Expr::Call(name) => {
            let ghost before = api.log();
            let answer = api.call(name.as_str());
            let ghost t = seq![(name@, answer)];
            assert(api.log() =~= before + t);
            proof {
                assert(call_answers(t) =~= seq![answer]);
                assert(call_names(t) =~= seq![name@]);
            }
            (answer, Ghost(t))
        },
        Expr::LogicalAnd(lhs, rhs) => {
            let ghost before = api.log();
            let (l, Ghost(t1)) = evaluate(api, lhs);
            if l {
                let (r, Ghost(t2)) = evaluate(api, rhs);
                proof {
                    lemma_trace_concat(t1, t2);
                    lemma_trace_concat(t2, seq![]);
                    lemma_eval_prefix(**lhs, call_answers(t1), call_answers(t2));
                    assert((call_answers(t1) + call_answers(t2)).skip(t1.len() as int)
                        =~= call_answers(t2));
                    assert(api.log() =~= before + (t1 + t2));
                }
                (r, Ghost(t1 + t2))
            } else {
                (false, Ghost(t1))
            }
        },
        Expr::Unsupported => {
            let ghost none = CallLog::empty();
            proof {
                assert(call_answers(none) =~= seq![]);
                assert(call_names(none) =~= seq![]);
                assert(api.log() + none =~= api.log());
            }
            (false, Ghost(none))
        },
    }
}

fn execute<A: CallInterface>(api: &mut A, s: &Stmt) -> (r: (bool, u32, Ghost<CallLog>))
    ensures
        exec_spec(*s, call_answers(r.2@)) == (r.0, r.1, call_names(r.2@)),
        final(api).log() == old(api).log() + r.2@,
    decreases s,
{
    let ghost none = CallLog::empty();
    proof {
        assert(call_answers(none) =~= seq![]);
        assert(call_names(none) =~= seq![]);
        assert(api.log() + none =~= api.log());
    }
    match s {
        Stmt::Effectful(name) => {
            let ghost before = api.log();
            let answer = api.call(name.as_str());
            let ghost t = seq![(name@, answer)];
            assert(api.log() =~= before + t);
            proof {
                assert(call_names(t) =~= seq![name@]);
            }
            (false, 0, Ghost(t))
        },
        Stmt::Break => (true, 1, Ghost(none)),
        Stmt::Return => (true, UNWIND_ALL, Ghost(none)),
        Stmt::Conditional(condition, then_stmt) => {
            let ghost before = api.log();
            let (c, Ghost(t1)) = evaluate(api, condition);
            if c {
                let (_, signal, Ghost(t2)) = execute(api, then_stmt);
                proof {
                    lemma_trace_concat(t1, t2);
                    lemma_trace_concat(t2, seq![]);
                    lemma_eval_prefix(*condition, call_answers(t1), call_answers(t2));
                    assert((call_answers(t1) + call_answers(t2)).skip(t1.len() as int)
                        =~= call_answers(t2));
                    assert(api.log() =~= before + (t1 + t2));
                }
                (true, signal, Ghost(t1 + t2))
            } else {
                (false, 0, Ghost(t1))
            }
        },
        Stmt::Unsupported => (false, 0, Ghost(none)),
    }
}

} // verus!

verus! {

impl Loop {
    /// A block of the given statements.
    pub fn new(statements: Vec<Stmt>) -> (r: Self)
        ensures
            r@ == statements@,
    {
        Self { statements }
    }

    /// The block's statements, in order.
    pub fn statements(&self) -> (r: &Vec<Stmt>)
        ensures
            r@ == self@,
    {
        &self.statements
    }

    fn run_from<A: CallInterface>(&self, api: &mut A, i: usize) -> (r: (u32, Ghost<CallLog>))
        requires
            i <= self@.len(),
        ensures
            pass_spec(self@.skip(i as int), call_answers(r.1@)) == (r.0, call_names(r.1@)),
            final(api).log() == old(api).log() + r.1@,
        decreases self@.len() - i,
    {
        if i == self.statements.len() {
            let ghost none = CallLog::empty();
            proof {
                assert(call_names(none) =~= seq![]);
                assert(api.log() + none =~= api.log());
            }
            return (0, Ghost(none));
        }
        let ghost before = api.log();
        let (stop, signal, Ghost(t1)) = execute(api, &self.statements[i]);
        let ghost stmts = self@.skip(i as int);
        proof {
            assert(stmts[0] == self@[i as int]);
        }
        if stop {
            return (signal, Ghost(t1));
        }
        let (rest, Ghost(t2)) = self.run_from(api, i + 1);
        proof {
            lemma_trace_concat(t1, t2);
            lemma_trace_concat(t2, seq![]);
            lemma_exec_prefix(stmts[0], call_answers(t1), call_answers(t2));
            assert((call_answers(t1) + call_answers(t2)).skip(t1.len() as int) =~= call_answers(t2));
            assert(stmts.skip(1) =~= self@.skip(i + 1));
            assert(api.log() =~= before + (t1 + t2));
        }
        (rest, Ghost(t1 + t2))
    }

    /// Runs one pass over the block, as `pass_spec` describes, together with
    /// the calls made and their answers.
    pub(crate) fn iteration_traced<A: CallInterface>(&self, api: &mut A) -> (r: (u32, Ghost<CallLog>))
        ensures
            pass_spec(self@, call_answers(r.1@)) == (r.0, call_names(r.1@)),
            final(api).log() == old(api).log() + r.1@,
    {
        let r = self.run_from(api, 0);
        proof {
            assert(self@.skip(0) =~= self@);
        }
        r
    }

    /// Runs one pass over the block: its statements in order, up to the
    /// first `Break` (signal 1), `Return` (signal `UNWIND_ALL`) or
    /// conditional whose condition holds (the signal of its statement).
    /// A pass that reaches the end of the block signals 0. The calls that
    /// the host receives, and the signal, are those of `pass_spec` under the
    /// host's answers.
    pub fn iteration<A: CallInterface>(&self, api: &mut A) -> (r: u32)
        ensures
            old(api).log().is_prefix_of(final(api).log()),
            ({
                let d = calls_since(old(api).log(), final(api).log());
                pass_spec(self@, call_answers(d)) == (r, call_names(d))
            }),
    {
        let ghost before = api.log();
        let (r, Ghost(t)) = self.iteration_traced(api);
        proof {
            assert(before.is_prefix_of(api.log()));
            assert(calls_since(before, api.log()) =~= t);
        }
        r
    }
}

} // verus!

verus! {

/// What compiling a source text yields: `Rejected` when the filtered text
/// does not parse, the compiled unit otherwise.
pub open spec fn compile_spec(code: Seq<char>) -> Outcome {
    match parsed_unit(preprocess_spec(code)) {
        Some(unit) => compile_unit_spec(unit),
        None => Outcome::Rejected,
    }
}

/// The diagnostics of compiling a source text: none when it does not parse.
pub open spec fn compile_diagnostics_spec(code: Seq<char>) -> Seq<Diagnostic> {
    match parsed_unit(preprocess_spec(code)) {
        Some(unit) => unit_diagnostics(unit),
        None => seq![],
    }
}

/// Compiles a source text: filters it, parses it, and extracts the loops of
/// `main` as blocks.
pub fn compile(code: &str) -> (r: CompilationStatus)
    ensures
        r@ == compile_spec(code@),
{
    compile_diagnosed(code).0
}

/// Compiles a source text as `compile` does, together with the diagnostics
/// of every unsupported construct in the extracted loop bodies.
pub fn compile_diagnosed(code: &str) -> (r: (CompilationStatus, Vec<Diagnostic>))
    ensures
        r.0@ == compile_spec(code@),
        r.1@ == compile_diagnostics_spec(code@),
{
    let text = preprocess(code);
    match parse_source(text) {
        Some(unit) => compile_unit_diagnosed(unit),
        None => (CompilationStatus::Failure, Vec::new()),
    }
}

} // verus!
