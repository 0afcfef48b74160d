//! A small interactive shell core: command dispatch, path resolution,
//! tab-completion and history, verified against explicit contracts.
//!
//! The library is pure logic: it never touches the filesystem itself.
//! A front end drives a [`terminal::TerminalApp`]: each entered line yields
//! a [`proto::Action`] describing the one filesystem or process step the
//! front end must perform; the front end answers with a [`proto::Event`],
//! and the session steps forward until the action is `Done`.

pub mod complete;
pub mod fsmodel;
pub mod lsfmt;
pub mod msgs;
pub mod numfmt;
pub mod order;
pub mod path;
pub mod proto;
pub mod rmopts;
pub mod terminal;
pub mod text;

use vstd::prelude::*;

verus! {

/// Whitespace as the tokenizer understands it.
pub open spec fn is_space(c: char) -> bool {
    c == ' ' || c == '\t' || c == '\n' || c == '\r'
}

/// Executable mirror of [`is_space`].
pub fn is_space_char(c: char) -> (r: bool)
    ensures
        r == is_space(c),
{
    c == ' ' || c == '\t' || c == '\n' || c == '\r'
}

} // verus!
