use vstd::prelude::*;
use vstd::string::StringExecFns;
use crate::UiError;
use crate::command::{clear_cmds, CmdModel, TermCommand};
use crate::screen::{
    clear, default_header, emit_iter, emit_line, header, header_cmds, line_cmds, emitted_lines,
    push_cmd, welcome_title, Screen,
};
use crate::text::{dec_str, lines_of, split_lines, u32_to_string};

verus! {

/// The record entity as this layer sees it: an identifier and the
/// multi-line text that renders it. Everything else about a record belongs
/// to the external controller.
#[derive(Debug, PartialEq, Eq)]
pub struct Item {
    pub part_id: u32,
    pub text: String,
}

/// Which screen to show: the home screen with some information text, one
/// record on display, or one record under edit. Exactly one case is active;
/// each owns its payload.
#[derive(Debug, PartialEq, Eq)]
pub enum Mode {
    Default { info: String },
    DisplayItem { item: Item },
    EditItem { item: Item },
}

/// The title over a record on display.
pub open spec fn viewing_title(id: nat) -> Seq<char> {
    "Viewing item with part ID "@ + dec_str(id)
}

/// The title over a record under edit.
pub open spec fn editing_title(id: nat) -> Seq<char> {
    "Now editing item with part ID "@ + dec_str(id)
}

/// The instruction line closing an edit screen; the commands themselves are
/// the external controller's.
pub open spec fn edit_hint() -> Seq<char> {
    "use any of the following commands to edit the item"@
}

/// The full frame a mode paints: always a screen clear first, then the
/// mode's own content.
pub open spec fn mode_cmds(m: Mode) -> Seq<CmdModel> {
    clear_cmds() + match m {
        Mode::Default { info } => header_cmds(welcome_title()) + seq![
            CmdModel::Print(info@),
            CmdModel::NextLine(2u16),
        ],
        Mode::DisplayItem { item } => header_cmds(viewing_title(item.part_id as nat))
            + emitted_lines(lines_of(item.text@)),
        Mode::EditItem { item } => header_cmds(editing_title(item.part_id as nat)) + emitted_lines(
            lines_of(item.text@),
        ) + line_cmds(edit_hint()),
    }
}

/// Paint the full frame for `m`: clear the screen, then the mode's header
/// and body, exactly as `mode_cmds` lays them out.
pub fn render_mode(m: &Mode, w: &mut Screen) -> (r: Result<(), UiError>)
    ensures
        r is Ok,
        final(w)@.queued == old(w)@.queued + mode_cmds(*m),
        final(w)@.flushed == old(w)@.flushed,
{
    let _ = clear(w);
    match m {
        Mode::Default { info } => {
            let _ = default_header(w);
            push_cmd(w, TermCommand::Print(info.clone()));
            push_cmd(w, TermCommand::NextLine(2));
            proof {
                assert(final(w)@.queued =~= old(w)@.queued + mode_cmds(*m));
            }
        },
        Mode::DisplayItem { item } => {
            let title = "Viewing item with part ID ".to_owned().concat(
                u32_to_string(item.part_id).as_str(),
            );
            let _ = header(w, title.as_str());
            let body = split_lines(item.text.as_str());
            let _ = emit_iter(w, &body);
            proof {
                assert(title@ == viewing_title(item.part_id as nat));
                assert(final(w)@.queued =~= old(w)@.queued + mode_cmds(*m));
            }
        },
        Mode::EditItem { item } => {
            let title = "Now editing item with part ID ".to_owned().concat(
                u32_to_string(item.part_id).as_str(),
            );
            let _ = header(w, title.as_str());
            let body = split_lines(item.text.as_str());
            let _ = emit_iter(w, &body);
            let _ = emit_line(w, "use any of the following commands to edit the item");
            proof {
                assert(title@ == editing_title(item.part_id as nat));
                assert(final(w)@.queued =~= old(w)@.queued + mode_cmds(*m));
            }
        },
    }
    Ok(())
}

/// What a screen descriptor can do: paint its full frame onto a screen.
pub trait EmitMode {
    fn emit_mode(&self, w: &mut Screen) -> Result<(), UiError>;
}

impl EmitMode for Mode {
    /// Paint the full frame for this mode, exactly as `mode_cmds` lays it
    /// out: the same guarantee as `render_mode`, at the trait's door.
    fn emit_mode(&self, w: &mut Screen) -> (r: Result<(), UiError>)
        ensures
            r is Ok,
            final(w)@.queued == old(w)@.queued + mode_cmds(*self),
            final(w)@.flushed == old(w)@.flushed,
    {
        render_mode(self, w)
    }
}

} // verus!
