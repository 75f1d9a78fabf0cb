use vstd::prelude::*;
use vstd::string::StringExecFns;
use crate::command::{cmd_views, CmdModel, TermCommand};
use crate::text::dec_str;

verus! {

/// The control sequence introducer that opens every terminal control code.
pub open spec fn csi() -> Seq<char> {
    seq!['\u{1b}', '[']
}

/// The exact character stream the terminal receives for one draw command.
pub open spec fn ansi_of(c: CmdModel) -> Seq<char> {
    match c {
        CmdModel::Print(s) => s,
        CmdModel::NextLine(n) => csi() + dec_str(n as nat) + seq!['E'],
        CmdModel::PrevLine(n) => csi() + dec_str(n as nat) + seq!['F'],
        CmdModel::ClearLine => csi() + seq!['2', 'K'],
        CmdModel::ClearAll => csi() + seq!['2', 'J'],
        CmdModel::ShowCursor => csi() + seq!['?', '2', '5', 'h'],
        CmdModel::HideCursor => csi() + seq!['?', '2', '5', 'l'],
        CmdModel::MoveToOrigin => csi() + seq!['1', ';', '1', 'H'],
        CmdModel::ResetColor => csi() + seq!['0', 'm'],
    }
}

pub open spec fn ansi_of_all(cs: Seq<CmdModel>) -> Seq<char>
    decreases cs.len(),
{
    if cs.len() == 0 {
        Seq::empty()
    } else {
        ansi_of(cs[0]) + ansi_of_all(cs.drop_first())
    }
}

pub proof fn lemma_ansi_of_all_add(a: Seq<CmdModel>, b: Seq<CmdModel>)
    ensures
        ansi_of_all(a + b) == ansi_of_all(a) + ansi_of_all(b),
    decreases a.len(),
{
    if a.len() == 0 {
        assert(a + b =~= b);
        assert(ansi_of_all(a) + ansi_of_all(b) =~= ansi_of_all(b));
    } else {
        assert((a + b).drop_first() =~= a.drop_first() + b);
        lemma_ansi_of_all_add(a.drop_first(), b);
        assert(ansi_of(a[0]) + (ansi_of_all(a.drop_first()) + ansi_of_all(b)) =~= (ansi_of(a[0])
            + ansi_of_all(a.drop_first())) + ansi_of_all(b));
    }
}

/// Relies on crossterm's `style::Print`: its control stream is the printed
/// text itself, unchanged.
#[verifier::external_body]
fn ansi_print(s: &str) -> (r: String)
    ensures
        r@ == s@,
{
    let mut out = String::new();
    let _ = crossterm::Command::write_ansi(&crossterm::style::Print(s), &mut out);
    out
}

/// Relies on crossterm's `cursor::MoveToNextLine`: CSI, the count in
/// decimal, `E`.
#[verifier::external_body]
fn ansi_next_line(n: u16) -> (r: String)
    ensures
        r@ == csi() + dec_str(n as nat) + seq!['E'],
{
    let mut out = String::new();
    let _ = crossterm::Command::write_ansi(&crossterm::cursor::MoveToNextLine(n), &mut out);
    out
}

/// Relies on crossterm's `cursor::MoveToPreviousLine`: CSI, the count in
/// decimal, `F`.
#[verifier::external_body]
fn ansi_prev_line(n: u16) -> (r: String)
    ensures
        r@ == csi() + dec_str(n as nat) + seq!['F'],
{
    let mut out = String::new();
    let _ = crossterm::Command::write_ansi(&crossterm::cursor::MoveToPreviousLine(n), &mut out);
    out
}

/// Relies on crossterm's `terminal::Clear` with `ClearType::CurrentLine`:
/// CSI `2K`.
#[verifier::external_body]
fn ansi_clear_line() -> (r: String)
    ensures
        r@ == csi() + seq!['2', 'K'],
{
    let mut out = String::new();
    let _ = crossterm::Command::write_ansi(
        &crossterm::terminal::Clear(crossterm::terminal::ClearType::CurrentLine),
        &mut out,
    );
    out
}

/// Relies on crossterm's `terminal::Clear` with `ClearType::All`: CSI `2J`.
#[verifier::external_body]
fn ansi_clear_all() -> (r: String)
    ensures
        r@ == csi() + seq!['2', 'J'],
{
    let mut out = String::new();
    let _ = crossterm::Command::write_ansi(
        &crossterm::terminal::Clear(crossterm::terminal::ClearType::All),
        &mut out,
    );
    out
}

/// Relies on crossterm's `cursor::Show`: CSI `?25h`.
#[verifier::external_body]
fn ansi_show() -> (r: String)
    ensures
        r@ == csi() + seq!['?', '2', '5', 'h'],
{
    let mut out = String::new();
    let _ = crossterm::Command::write_ansi(&crossterm::cursor::Show, &mut out);
    out
}

/// Relies on crossterm's `cursor::Hide`: CSI `?25l`.
#[verifier::external_body]
fn ansi_hide() -> (r: String)
    ensures
        r@ == csi() + seq!['?', '2', '5', 'l'],
{
    let mut out = String::new();
    let _ = crossterm::Command::write_ansi(&crossterm::cursor::Hide, &mut out);
    out
}

/// Relies on crossterm's `cursor::MoveTo` at the origin, which it encodes
/// one-based: CSI `1;1H`.
#[verifier::external_body]
fn ansi_move_origin() -> (r: String)
    ensures
        r@ == csi() + seq!['1', ';', '1', 'H'],
{
    let mut out = String::new();
    let _ = crossterm::Command::write_ansi(&crossterm::cursor::MoveTo(0, 0), &mut out);
    out
}

/// Relies on crossterm's `style::ResetColor`: CSI `0m`.
#[verifier::external_body]
fn ansi_reset_color() -> (r: String)
    ensures
        r@ == csi() + seq!['0', 'm'],
{
    let mut out = String::new();
    let _ = crossterm::Command::write_ansi(&crossterm::style::ResetColor, &mut out);
    out
}

/// The control stream of one draw command.
fn encode_cmd(c: &TermCommand) -> (r: String)
    ensures
        r@ == ansi_of(c@),
{
    match c {
        TermCommand::Print(s) => ansi_print(s.as_str()),
        TermCommand::NextLine(n) => ansi_next_line(*n),
        TermCommand::PrevLine(n) => ansi_prev_line(*n),
        TermCommand::ClearLine => ansi_clear_line(),
        TermCommand::ClearAll => ansi_clear_all(),
        TermCommand::ShowCursor => ansi_show(),
        TermCommand::HideCursor => ansi_hide(),
        TermCommand::MoveToOrigin => ansi_move_origin(),
        TermCommand::ResetColor => ansi_reset_color(),
    }
}

/// Turn a flushed batch of draw commands into the one character stream that
/// a single write hands to the terminal.
pub fn render_ansi(cmds: &Vec<TermCommand>) -> (r: String)
    ensures
        r@ == ansi_of_all(cmd_views(cmds@)),
{
    let mut out = String::new();
    let mut i: usize = 0;
    proof {
        assert(ansi_of_all(cmd_views(cmds@).take(0)) =~= out@);
    }
    while i < cmds.len()
        invariant
            i <= cmds.len(),
            out@ == ansi_of_all(cmd_views(cmds@).take(i as int)),
        decreases cmds.len() - i,
    {
        let piece = encode_cmd(&cmds[i]);
        out.append(piece.as_str());
        proof {
            let cv = cmd_views(cmds@);
            let single = seq![cv[i as int]];
            assert(cv.take(i + 1) =~= cv.take(i as int) + single);
            lemma_ansi_of_all_add(cv.take(i as int), single);
            assert(single.drop_first() =~= Seq::<CmdModel>::empty());
            assert(ansi_of_all(single.drop_first()) == Seq::<char>::empty());
            assert(ansi_of_all(single) =~= ansi_of(cv[i as int]));
            assert(out@ =~= ansi_of_all(cv.take(i + 1)));
        }
        i += 1;
    }
    proof {
        assert(cmd_views(cmds@).take(cmds@.len() as int) =~= cmd_views(cmds@));
    }
    out
}

} // verus!
