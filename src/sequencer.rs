//! The program sequencer: holds the compiled blocks and runs one pass of the
//! first block per tick, retiring blocks as the pass's unwind signal asks.
use vstd::prelude::*;

use crate::language::{
    call_answers, call_names, calls_since, compile_diagnosed, compile_diagnostics_spec,
    compile_spec, loops_view, pass_spec, CallInterface, CallLog, Diagnostic,
    CompilationStatus, Outcome, Stmt,
};

verus! {

/// One tick over the blocks when the host gives the answers `a`: the
/// remaining blocks, whether none remain, and the names called. An empty
/// program is finished without a call; otherwise the first block runs one
/// pass and up to as many blocks as its signal asks are retired.
pub open spec fn advance_spec(blocks: Seq<Seq<Stmt>>, a: Seq<bool>) -> (Seq<Seq<Stmt>>, bool, Seq<Seq<char>>) {
    if blocks.len() == 0 {
        (blocks, true, seq![])
    } else {
        let p = pass_spec(blocks[0], a);
        let k = if p.0 as int >= blocks.len() {
            blocks.len() as int
        } else {
            p.0 as int
        };
        let rest = blocks.skip(k);
        (rest, rest.len() == 0, p.1)
    }
}

/// One tick over a compilation outcome: only a compiled program runs; any
/// other outcome stays, is not finished, and makes no call.
pub open spec fn advance_outcome(o: Outcome, a: Seq<bool>) -> (Outcome, bool, Seq<Seq<char>>) {
    match o {
        Outcome::Compiled(blocks) => {
            let s = advance_spec(blocks, a);
            (Outcome::Compiled(s.0), s.1, s.2)
        },
        _ => (o, false, seq![]),
    }
}

/// The program after recompiling from a source text; the earlier program
/// plays no part.
pub open spec fn recompile_spec(before: Outcome, code: Seq<char>) -> Outcome {
    compile_spec(code)
}

/// Drives a compiled program, one tick at a time.
pub struct Sequencer {
    status: CompilationStatus,
}

impl View for Sequencer {
    type V = Outcome;

    closed spec fn view(&self) -> Outcome {
        self.status@
    }
}

impl Sequencer {
    /// A sequencer with nothing compiled.
    pub fn new() -> (r: Self)
        ensures
            r@ == Outcome::Unattempted,
    {
        Sequencer { status: CompilationStatus::Unattempted }
    }

    /// A sequencer that holds the given compilation outcome.
    pub fn from_status(status: CompilationStatus) -> (r: Self)
        ensures
            r@ == status@,
    {
        Sequencer { status }
    }

    /// The current compilation outcome, with the blocks that remain.
    pub fn status(&self) -> (r: &CompilationStatus)
        ensures
            r@ == self@,
    {
        &self.status
    }

    /// Compiles a new source text and replaces the whole program with it,
    /// dropping whatever progress was made on the earlier one. Returns the
    /// diagnostics of the compilation.
    pub fn recompile(&mut self, code: &str) -> (diags: Vec<Diagnostic>)
        ensures
            final(self)@ == recompile_spec(old(self)@, code@),
            diags@ == compile_diagnostics_spec(code@),
    {
        let (status, diags) = compile_diagnosed(code);
        self.status = status;
        diags
    }

    /// Runs one tick: when a program is compiled, one pass over its first
    /// block, then retires blocks as its signal asks. Returns whether the
    /// program has finished, that is no block remains.
    pub fn advance<A: CallInterface>(&mut self, api: &mut A) -> (finished: bool)
        ensures
            old(api).log().is_prefix_of(final(api).log()),
            ({
                let d = calls_since(old(api).log(), final(api).log());
                advance_outcome(old(self)@, call_answers(d)) == (final(self)@, finished, call_names(d))
            }),
    {
        let ghost before = api.log();
        let ghost none = CallLog::empty();
        proof {
            assert(before.is_prefix_of(before));
            assert(calls_since(before, before) =~= none);
            assert(call_names(none) =~= seq![]);
        }
        let mut status = CompilationStatus::Unattempted;
        std::mem::swap(&mut status, &mut self.status);
        match status {
            CompilationStatus::Success(loops) => {
                let mut loops = loops;
                if loops.len() == 0 {
                    self.status = CompilationStatus::Success(loops);
                    return true;
                }
                let ghost blocks = loops_view(loops@);
                let (signal, Ghost(t)) = loops[0].iteration_traced(api);
                proof {
                    assert(blocks[0] == loops@[0]@);
                    assert(blocks.skip(0) =~= blocks);
                    assert(blocks.len() == loops@.len());
                }
                let mut removed: u32 = 0;
                while removed < signal && loops.len() > 0
                    invariant
                        removed as int <= blocks.len(),
                        loops@.len() + removed == blocks.len(),
                        loops_view(loops@) == blocks.skip(removed as int),
                        removed <= signal,
                    decreases loops@.len(),
                {
                    let ghost prev = loops@;
                    loops.remove(0);
                    proof {
                        assert(loops_view(prev).len() == prev.len());
                        assert(loops_view(loops@) =~= loops_view(prev).skip(1));
                        assert(blocks.skip(removed as int).skip(1) =~= blocks.skip(removed + 1));
                    }
                    removed = removed + 1;
                }
                let finished = loops.len() == 0;
                self.status = CompilationStatus::Success(loops);
                proof {
                    assert(before.is_prefix_of(api.log()));
                    assert(calls_since(before, api.log()) =~= t);
                }
                finished
            },
            other => {
                self.status = other;
                false
            },
        }
    }
}

} // verus!
