//! Interactive rendering and blocking-input layer of a terminal record
//! browser: a queued-command drawing toolkit (lines, headers, screen
//! clearing), four blocking prompt primitives with their validation and
//! retry policies, and the renderer that paints a full frame for a screen
//! descriptor. Draw commands are modelled explicitly and only become
//! output when flushed; the flushed transcript is encoded to the terminal's
//! control language in one write.

use vstd::prelude::*;

pub mod ansi;
pub mod command;
pub mod input;
pub mod mode;
pub mod screen;
pub mod source;
pub mod text;

verus! {

/// The single error kind of this layer: an opaque I/O failure, covering
/// both draw-command failures and input-read failures. It is returned
/// upward at once, with no local recovery; the deliberate retry loops of
/// the prompts are not errors.
#[derive(Clone, Copy, Debug, PartialEq, Eq, Structural)]
pub enum UiError {
    Io,
}

} // verus!
