//! Facts about compiling and running programs, stated over the models.
use vstd::prelude::*;

use crate::frontend::{parsed_unit, preprocess_spec};
use crate::language::{
    compile_spec, compile_unit_spec, decl_loops, entry_loops, exec_spec, is_entry_name,
    lower_blocks_spec, lower_stmt_spec, stmt_diagnostics, unit_loops, Diagnostic, Outcome, Stmt,
};
use crate::sequencer::{advance_outcome, recompile_spec};
use crate::syntax::{SyntaxDecl, SyntaxExpr, SyntaxStmt, SyntaxUnit};

verus! {

/// A top-level item that defines the entry function with a braced body that
/// holds at least one item.
pub open spec fn defines_nonempty_entry(d: SyntaxDecl) -> bool {
    match d {
        SyntaxDecl::Function(name, SyntaxStmt::Compound(items)) => is_entry_name(name)
            && items@.len() > 0,
        _ => false,
    }
}

proof fn lemma_no_entry_no_loops(decls: Seq<SyntaxDecl>)
    requires
        forall|i: int| 0 <= i < decls.len() ==> !defines_nonempty_entry(#[trigger] decls[i]),
    ensures
        unit_loops(decls) == Seq::<Seq<SyntaxStmt>>::empty(),
    decreases decls.len(),
{
    if decls.len() > 0 {
        let init = decls.drop_last();
        assert forall|i: int| 0 <= i < init.len() implies !defines_nonempty_entry(
            #[trigger] init[i],
        ) by {
            assert(init[i] == decls[i]);
        }
        lemma_no_entry_no_loops(init);
        assert(!defines_nonempty_entry(decls[decls.len() - 1]));
        match decls.last() {
            SyntaxDecl::Function(name, SyntaxStmt::Compound(items)) => {
                if is_entry_name(name) {
                    assert(items@.len() == 0);
                    assert(entry_loops(items@) =~= seq![]);
                }
            },
            _ => {},
        }
        assert(decl_loops(decls.last()) =~= seq![]);
        assert(unit_loops(decls) =~= seq![]);
    }
}

/// When the entry function is absent, or its body is empty, the text
/// compiles to a program without blocks, and the first tick of that program
/// reports it finished without calling the host.
pub proof fn law_empty_entry_finishes_at_once(code: Seq<char>, unit: SyntaxUnit, a: Seq<bool>)
    requires
        parsed_unit(preprocess_spec(code)) == Some(unit),
        forall|i: int|
            0 <= i < unit.items@.len() ==> !defines_nonempty_entry(#[trigger] unit.items@[i]),
    ensures
        compile_spec(code) == Outcome::Compiled(Seq::empty()),
        advance_outcome(compile_spec(code), a) == (
            Outcome::Compiled(Seq::empty()),
            true,
            Seq::<Seq<char>>::empty(),
        ),
{
    lemma_no_entry_no_loops(unit.items@);
    assert(lower_blocks_spec(Seq::<Seq<SyntaxStmt>>::empty()) == Some(Seq::<Seq<Stmt>>::empty()));
}

/// Recompiling replaces the whole program: whatever two programs were held
/// before, recompiling both from one text leaves the same program, and the
/// next tick behaves the same on both, so no progress made on an earlier
/// program carries over.
pub proof fn law_recompile_replaces_program(
    before_a: Outcome,
    before_b: Outcome,
    code: Seq<char>,
    a: Seq<bool>,
)
    ensures
        recompile_spec(before_a, code) == compile_spec(code),
        recompile_spec(before_a, code) == recompile_spec(before_b, code),
        advance_outcome(recompile_spec(before_a, code), a) == advance_outcome(
            recompile_spec(before_b, code),
            a,
        ),
{
}

/// Compiling is a function of the source text: two compilations of the same
/// text yield the same blocks.
pub proof fn law_compile_is_repeatable(first: Seq<char>, second: Seq<char>)
    requires
        first == second,
    ensures
        compile_spec(first) == compile_spec(second),
{
}

/// Compilation of a parsed text never reports a syntax rejection: what the
/// restricted model cannot express is lowered, not refused.
pub proof fn law_parsed_text_is_never_rejected(code: Seq<char>)
    requires
        parsed_unit(preprocess_spec(code)) is Some,
    ensures
        compile_spec(code) != Outcome::Rejected,
{
}

/// A loop, a braced block or any other statement kind outside the model is
/// lowered to the unsupported statement, which ends no pass, signals
/// nothing and calls nothing; the lowering reports it.
pub proof fn law_unsupported_statement_is_noop(s: SyntaxStmt, a: Seq<bool>)
    requires
        s is Other || s is Compound || s is While || s matches SyntaxStmt::Expression(None),
    ensures
        lower_stmt_spec(s) == Some(Stmt::Unsupported),
        stmt_diagnostics(s) == seq![Diagnostic::UnsupportedStatement],
        exec_spec(Stmt::Unsupported, a) == (false, 0u32, Seq::<Seq<char>>::empty()),
{
}

/// An `else` branch is dropped: an `if` with one lowers exactly as the same
/// `if` without it.
pub proof fn law_else_branch_is_dropped(
    condition: SyntaxExpr,
    then_branch: Box<SyntaxStmt>,
    else_branch: Box<SyntaxStmt>,
)
    ensures
        lower_stmt_spec(SyntaxStmt::If(condition, then_branch, Some(else_branch)))
            == lower_stmt_spec(SyntaxStmt::If(condition, then_branch, None)),
{
}

} // verus!
