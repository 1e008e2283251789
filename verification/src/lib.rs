//! A compact textual notation for hierarchical musical structure, and the
//! parser that turns it into a typed tree.
//!
//! A text in the notation is a list of nodes. A node is a one-character tag
//! with its arguments; the nodes that it governs follow in parentheses.
//! White space and comments (`;` to the end of the line) may stand between
//! any two tokens.
//!
//! ```text
//! ; a short tune
//! S 'Ode' (
//!     a 'Ludwig'  Y 1824
//!     T 120 ( l 4 v mf )
//! )
//! ```
//!
//! | Tag | Node           | Arguments                                         |
//! |-----|----------------|---------------------------------------------------|
//! | `S` | song           | a string                                          |
//! | `A` | album          | a string                                          |
//! | `a` | artist         | a string                                          |
//! | `C` | channel        | a string                                          |
//! | `Y` | year           | a decimal integer of 16 bits                      |
//! | `T` | tempo          | a decimal integer of 16 bits                      |
//! | `l` | note length    | a decimal integer of 8 bits                       |
//! | `o` | octave         | a decimal integer of 8 bits                       |
//! | `x` | loop           | a decimal integer of 8 bits                       |
//! | `t` | tempo ramp     | two decimal integers of 16 bits                   |
//! | `G` | glissando      | two durations                                     |
//! | `V` | vibrato        | two hexadecimal integers and two durations        |
//! | `v` | volume         | a dynamics marking                                |
//! | `F` | volume fade    | two dynamics markings and a flag, `0` or `1`      |
//!
//! A string stands in single or double quotes, or is a bare run of bytes up
//! to the next space. A duration is `'` and decimal milliseconds, or a
//! hexadecimal percentage of the note's length. A dynamics marking is one of
//! `ppp`, `pp`, `p`, `mp`, `mf`, `f`, `ff` and `fff`.
//!
//! The modules:
//!
//! * [`structure`] holds the value model: the tree and what its nodes carry.
//! * [`grammar`] states the notation as mathematics, over the bytes of a
//!   text.
//! * [`parsers`] reads a text; each function is proved to return what
//!   [`grammar`] says.
//! * [`laws`] proves what holds of the notation as a whole.
//! * [`equality`] compares trees by value.
//! * [`error`] is what a failed parse reports.
//! * [`text`] holds the bytes and numerals that the rest is built on.

use vstd::prelude::*;

pub mod equality;
pub mod error;
pub mod grammar;
pub mod laws;
pub mod parsers;
pub mod structure;
pub mod text;

verus! {

/// The sum of two sizes.
pub fn add(left: usize, right: usize) -> (sum: usize)
    requires
        left + right <= usize::MAX,
    ensures
        sum == left + right,
{
    left + right
}

} // verus!
