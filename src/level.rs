//! The tokens that the player carries into the placeholder of the program.
use vstd::prelude::*;

use crate::text::str_equal;

verus! {

/// The text that a token's text inserts into the program: an `if` opens a
/// condition and a statement, each with a new placeholder; any other token
/// inserts itself.
pub open spec fn format_spec(token: Seq<char>) -> Seq<char> {
    if token == "if"@ {
        "if ($) $"@
    } else {
        token
    }
}

/// A token lying in the level, or flying to the placeholder once collected.
/// `P` is the position type of the host's geometry.
pub struct Token<P> {
    token: &'static str,
    position: P,
    font_size: i32,
    finished: bool,
    target: Option<P>,
}

impl<P: Copy> Token<P> {
    /// The token's text.
    pub closed spec fn text(&self) -> Seq<char> {
        self.token@
    }

    /// Where the token is now.
    pub closed spec fn at(&self) -> P {
        self.position
    }

    /// Where the token flies to, once collected.
    pub closed spec fn goal(&self) -> Option<P> {
        self.target
    }

    /// Whether the token has reached its goal.
    pub closed spec fn is_finished(&self) -> bool {
        self.finished
    }

    /// The size of the token's text.
    pub closed spec fn size(&self) -> i32 {
        self.font_size
    }

    /// A token with the given text at the given position, not collected.
    pub fn new(token: &'static str, position: P) -> (r: Self)
        ensures
            r.text() == token@,
            r.at() == position,
            r.goal() is None,
            !r.is_finished(),
            r.size() == 20,
    {
        Self { token, font_size: 20, position, finished: false, target: None }
    }

    /// The token's text.
    pub fn token(&self) -> (r: &'static str)
        ensures
            r@ == self.text(),
    {
        self.token
    }

    /// The text that the token inserts into the program.
    pub fn format(&self) -> (r: &'static str)
        ensures
            r@ == format_spec(self.text()),
    {
        proof {
            reveal_strlit("if");
            reveal_strlit("if ($) $");
        }
        if str_equal(self.token, "if") {
            "if ($) $"
        } else {
            self.token
        }
    }

    /// The size of the token's text.
    pub fn font_size(&self) -> (r: i32)
        ensures
            r == self.size(),
    {
        self.font_size
    }

    /// Whether the token has reached the placeholder.
    pub fn finished(&self) -> (r: bool)
        ensures
            r == self.is_finished(),
    {
        self.finished
    }

    /// Where the token is now.
    pub fn position(&self) -> (r: P)
        ensures
            r == self.at(),
    {
        self.position
    }

    /// Where the token flies to, once collected.
    pub fn target(&self) -> (r: Option<P>)
        ensures
            r == self.goal(),
    {
        self.target
    }

    /// Collects the token towards the placeholder position, when there is
    /// one and the token was not collected before. Returns whether it was
    /// collected now.
    pub fn collect(&mut self, target: Option<P>) -> (collected: bool)
        ensures
            collected == (old(self).goal() is None && target is Some),
            final(self).goal() == if collected {
                target
            } else {
                old(self).goal()
            },
            final(self).text() == old(self).text(),
            final(self).at() == old(self).at(),
            final(self).is_finished() == old(self).is_finished(),
            final(self).size() == old(self).size(),
    {
        if self.target.is_none() && target.is_some() {
            self.target = target;
            true
        } else {
            false
        }
    }

    /// Moves the token along its flight; `arrived` marks it finished.
    pub fn move_to(&mut self, position: P, arrived: bool)
        ensures
            final(self).at() == position,
            final(self).is_finished() == (old(self).is_finished() || arrived),
            final(self).text() == old(self).text(),
            final(self).goal() == old(self).goal(),
            final(self).size() == old(self).size(),
    {
        self.position = position;
        if arrived {
            self.finished = true;
        }
    }
}

} // verus!
