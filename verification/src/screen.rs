use vstd::prelude::*;
use crate::UiError;
use crate::command::{clear_cmds, cmd_views, CmdModel, TermCommand};
use crate::text::{lines_of, split_lines, str_views};

verus! {

/// What a `Screen` is mathematically: the draw commands still queued, and
/// the transcript of every command flushed so far, oldest first.
pub struct ScreenView {
    pub queued: Seq<CmdModel>,
    pub flushed: Seq<CmdModel>,
}

/// The output sink of this layer. Draw commands are queued here and become
/// part of the flushed transcript only when `flush` runs; the caller that
/// owns the terminal takes the transcript and hands it to the device as one
/// write.
pub struct Screen {
    queued: Vec<TermCommand>,
    flushed: Vec<TermCommand>,
}

impl View for Screen {
    type V = ScreenView;

    closed spec fn view(&self) -> ScreenView {
        ScreenView { queued: cmd_views(self.queued@), flushed: cmd_views(self.flushed@) }
    }
}

impl Screen {
    /// A fresh screen: nothing queued, nothing flushed.
    pub fn new() -> (s: Screen)
        ensures
            s@.queued == Seq::<CmdModel>::empty(),
            s@.flushed == Seq::<CmdModel>::empty(),
    {
        let s = Screen { queued: Vec::new(), flushed: Vec::new() };
        proof {
            assert(s@.queued =~= Seq::<CmdModel>::empty());
            assert(s@.flushed =~= Seq::<CmdModel>::empty());
        }
        s
    }

    /// The commands still queued, in order.
    pub fn queued_cmds(&self) -> (r: &Vec<TermCommand>)
        ensures
            cmd_views(r@) == self@.queued,
    {
        &self.queued
    }

    /// The transcript of every command flushed so far, in order.
    pub fn flushed_cmds(&self) -> (r: &Vec<TermCommand>)
        ensures
            cmd_views(r@) == self@.flushed,
    {
        &self.flushed
    }

    /// Hand the flushed transcript out for writing to the device, emptying
    /// it; what is still queued stays queued.
    pub fn take_output(&mut self) -> (r: Vec<TermCommand>)
        ensures
            cmd_views(r@) == old(self)@.flushed,
            final(self)@.flushed == Seq::<CmdModel>::empty(),
            final(self)@.queued == old(self)@.queued,
    {
        let mut out: Vec<TermCommand> = Vec::new();
        out.append(&mut self.flushed);
        proof {
            assert(cmd_views(out@) =~= cmd_views(old(self).flushed@));
            assert(final(self)@.flushed =~= Seq::<CmdModel>::empty());
        }
        out
    }
}

/// The two commands that putting one line on screen queues: the text, then
/// one advance-cursor command.
pub open spec fn line_cmds(l: Seq<char>) -> Seq<CmdModel> {
    seq![CmdModel::Print(l), CmdModel::NextLine(1u16)]
}

/// The separator line of a header.
pub open spec fn dash_str() -> Seq<char> {
    "---------------------------------------------"@
}

pub open spec fn dash_cmds() -> Seq<CmdModel> {
    line_cmds(dash_str())
}

/// The commands queued for a sequence of lines, one `line_cmds` group per
/// line, in order.
pub open spec fn emitted_lines(ls: Seq<Seq<char>>) -> Seq<CmdModel>
    decreases ls.len(),
{
    if ls.len() == 0 {
        Seq::empty()
    } else {
        line_cmds(ls[0]) + emitted_lines(ls.drop_first())
    }
}

/// The full header block for a title: separator, the title's lines, another
/// separator, then one blank line.
pub open spec fn header_cmds(t: Seq<char>) -> Seq<CmdModel> {
    dash_cmds() + emitted_lines(lines_of(t)) + dash_cmds() + seq![CmdModel::NextLine(1u16)]
}

pub open spec fn welcome_title() -> Seq<char> {
    "Welcome to TUI Bricks"@
}

pub(crate) fn push_cmd(w: &mut Screen, c: TermCommand)
    ensures
        final(w)@.queued == old(w)@.queued.push(c@),
        final(w)@.flushed == old(w)@.flushed,
{
    let ghost cv = c@;
    w.queued.push(c);
    proof {
        assert(final(w)@.queued =~= old(w)@.queued.push(cv));
    }
}

/// Queue `line`, then one advance-cursor command. Embedded newlines are not
/// treated specially: the caller splits first.
pub fn emit_line(w: &mut Screen, line: &str) -> (r: Result<(), UiError>)
    ensures
        r is Ok,
        final(w)@.queued == old(w)@.queued + line_cmds(line@),
        final(w)@.flushed == old(w)@.flushed,
{
    push_cmd(w, TermCommand::Print(line.to_owned()));
    push_cmd(w, TermCommand::NextLine(1));
    proof {
        assert(final(w)@.queued =~= old(w)@.queued + line_cmds(line@));
    }
    Ok(())
}

/// Queue the fixed-width separator line.
pub fn emit_dash(w: &mut Screen) -> (r: Result<(), UiError>)
    ensures
        r is Ok,
        final(w)@.queued == old(w)@.queued + dash_cmds(),
        final(w)@.flushed == old(w)@.flushed,
{
    emit_line(w, "---------------------------------------------")
}

pub proof fn lemma_emitted_lines_add(a: Seq<Seq<char>>, b: Seq<Seq<char>>)
    ensures
        emitted_lines(a + b) == emitted_lines(a) + emitted_lines(b),
    decreases a.len(),
{
    if a.len() == 0 {
        assert(a + b =~= b);
        assert(emitted_lines(a) + emitted_lines(b) =~= emitted_lines(b));
    } else {
        assert((a + b).drop_first() =~= a.drop_first() + b);
        lemma_emitted_lines_add(a.drop_first(), b);
        assert(line_cmds(a[0]) + (emitted_lines(a.drop_first()) + emitted_lines(b)) =~= (line_cmds(
            a[0],
        ) + emitted_lines(a.drop_first())) + emitted_lines(b));
    }
}

pub proof fn lemma_emitted_lines_one(l: Seq<char>)
    ensures
        emitted_lines(seq![l]) == line_cmds(l),
{
    assert(seq![l].drop_first() =~= Seq::<Seq<char>>::empty());
    assert(emitted_lines(seq![l].drop_first()) == Seq::<CmdModel>::empty());
    assert(emitted_lines(seq![l]) =~= line_cmds(l));
}

/// Queue each given line in order, one `line_cmds` group per element.
pub fn emit_iter(w: &mut Screen, lines: &Vec<String>) -> (r: Result<(), UiError>)
    ensures
        r is Ok,
        final(w)@.queued == old(w)@.queued + emitted_lines(str_views(lines@)),
        final(w)@.flushed == old(w)@.flushed,
{
    let ghost ls = str_views(lines@);
    let mut i: usize = 0;
    proof {
        assert(ls.take(0) =~= Seq::<Seq<char>>::empty());
        assert(old(w)@.queued + emitted_lines(ls.take(0)) =~= old(w)@.queued);
    }
    while i < lines.len()
        invariant
            i <= lines.len(),
            ls == str_views(lines@),
            ls.len() == lines@.len(),
            w@.queued == old(w)@.queued + emitted_lines(ls.take(i as int)),
            w@.flushed == old(w)@.flushed,
        decreases lines.len() - i,
    {
        let _ = emit_line(w, lines[i].as_str());
        proof {
            assert(ls.take(i + 1) =~= ls.take(i as int) + seq![ls[i as int]]);
            lemma_emitted_lines_add(ls.take(i as int), seq![ls[i as int]]);
            lemma_emitted_lines_one(ls[i as int]);
            assert(lines@[i as int]@ == ls[i as int]);
            assert(w@.queued =~= old(w)@.queued + emitted_lines(ls.take(i + 1)));
        }
        i += 1;
    }
    proof {
        assert(ls.take(lines@.len() as int) =~= ls);
    }
    Ok(())
}

/// Queue the header block: separator, the title split on newlines, another
/// separator, one blank line.
pub fn header(w: &mut Screen, title: &str) -> (r: Result<(), UiError>)
    ensures
        r is Ok,
        final(w)@.queued == old(w)@.queued + header_cmds(title@),
        final(w)@.flushed == old(w)@.flushed,
{
    let _ = emit_dash(w);
    let ls = split_lines(title);
    let _ = emit_iter(w, &ls);
    let _ = emit_dash(w);
    push_cmd(w, TermCommand::NextLine(1));
    proof {
        assert(final(w)@.queued =~= old(w)@.queued + header_cmds(title@));
    }
    Ok(())
}

/// Queue the fixed welcome header.
pub fn default_header(w: &mut Screen) -> (r: Result<(), UiError>)
    ensures
        r is Ok,
        final(w)@.queued == old(w)@.queued + header_cmds(welcome_title()),
        final(w)@.flushed == old(w)@.flushed,
{
    header(w, "Welcome to TUI Bricks")
}

/// Queue a full reset of the visible screen: reset color, clear everything,
/// hide the cursor, move to the origin.
pub fn clear(w: &mut Screen) -> (r: Result<(), UiError>)
    ensures
        r is Ok,
        final(w)@.queued == old(w)@.queued + clear_cmds(),
        final(w)@.flushed == old(w)@.flushed,
{
    push_cmd(w, TermCommand::ResetColor);
    push_cmd(w, TermCommand::ClearAll);
    push_cmd(w, TermCommand::HideCursor);
    push_cmd(w, TermCommand::MoveToOrigin);
    proof {
        assert(final(w)@.queued =~= old(w)@.queued + clear_cmds());
    }
    Ok(())
}

/// Queue the command that makes the cursor visible.
pub fn show_cursor(w: &mut Screen)
    ensures
        final(w)@.queued == old(w)@.queued + seq![CmdModel::ShowCursor],
        final(w)@.flushed == old(w)@.flushed,
{
    push_cmd(w, TermCommand::ShowCursor);
    proof {
        assert(final(w)@.queued =~= old(w)@.queued + seq![CmdModel::ShowCursor]);
    }
}

/// Queue the command that hides the cursor.
pub fn hide_cursor(w: &mut Screen)
    ensures
        final(w)@.queued == old(w)@.queued + seq![CmdModel::HideCursor],
        final(w)@.flushed == old(w)@.flushed,
{
    push_cmd(w, TermCommand::HideCursor);
    proof {
        assert(final(w)@.queued =~= old(w)@.queued + seq![CmdModel::HideCursor]);
    }
}

/// Queue one bare advance-cursor command (a blank line).
pub fn advance_line(w: &mut Screen)
    ensures
        final(w)@.queued == old(w)@.queued + seq![CmdModel::NextLine(1u16)],
        final(w)@.flushed == old(w)@.flushed,
{
    push_cmd(w, TermCommand::NextLine(1));
    proof {
        assert(final(w)@.queued =~= old(w)@.queued + seq![CmdModel::NextLine(1u16)]);
    }
}

/// The two commands that take back the line the operator just entered:
/// move up one line, then blank it.
pub open spec fn erase_cmds() -> Seq<CmdModel> {
    seq![CmdModel::PrevLine(1u16), CmdModel::ClearLine]
}

/// Queue the erasure of the previous line.
pub fn erase_prev_line(w: &mut Screen)
    ensures
        final(w)@.queued == old(w)@.queued + erase_cmds(),
        final(w)@.flushed == old(w)@.flushed,
{
    push_cmd(w, TermCommand::PrevLine(1));
    push_cmd(w, TermCommand::ClearLine);
    proof {
        assert(final(w)@.queued =~= old(w)@.queued + erase_cmds());
    }
}

/// Move everything queued onto the flushed transcript: the single point at
/// which queued commands become visible output.
pub fn flush(w: &mut Screen)
    ensures
        final(w)@.flushed == old(w)@.flushed + old(w)@.queued,
        final(w)@.queued == Seq::<CmdModel>::empty(),
{
    w.flushed.append(&mut w.queued);
    proof {
        assert(final(w)@.flushed =~= old(w)@.flushed + old(w)@.queued);
        assert(final(w)@.queued =~= Seq::<CmdModel>::empty());
    }
}

/// Number of advance-cursor commands in a batch.
pub open spec fn advance_count(cs: Seq<CmdModel>) -> nat
    decreases cs.len(),
{
    if cs.len() == 0 {
        0
    } else {
        (if cs[0] is NextLine {
            1nat
        } else {
            0nat
        }) + advance_count(cs.drop_first())
    }
}

/// The texts printed by a batch, in order.
pub open spec fn printed(cs: Seq<CmdModel>) -> Seq<Seq<char>>
    decreases cs.len(),
{
    if cs.len() == 0 {
        Seq::empty()
    } else {
        match cs[0] {
            CmdModel::Print(s) => seq![s] + printed(cs.drop_first()),
            _ => printed(cs.drop_first()),
        }
    }
}

pub proof fn lemma_advance_count_add(a: Seq<CmdModel>, b: Seq<CmdModel>)
    ensures
        advance_count(a + b) == advance_count(a) + advance_count(b),
    decreases a.len(),
{
    if a.len() == 0 {
        assert(a + b =~= b);
    } else {
        assert((a + b).drop_first() =~= a.drop_first() + b);
        lemma_advance_count_add(a.drop_first(), b);
    }
}

pub proof fn lemma_printed_add(a: Seq<CmdModel>, b: Seq<CmdModel>)
    ensures
        printed(a + b) == printed(a) + printed(b),
    decreases a.len(),
{
    if a.len() == 0 {
        assert(a + b =~= b);
        assert(printed(a) + printed(b) =~= printed(b));
    } else {
        assert((a + b).drop_first() =~= a.drop_first() + b);
        lemma_printed_add(a.drop_first(), b);
        if a[0] is Print {
            assert(seq![a[0]->Print_0] + (printed(a.drop_first()) + printed(b)) =~= (seq![
                a[0]->Print_0,
            ] + printed(a.drop_first())) + printed(b));
        }
    }
}

proof fn lemma_line_cmds_shape(l: Seq<char>)
    ensures
        advance_count(line_cmds(l)) == 1,
        printed(line_cmds(l)) == seq![l],
{
    reveal_with_fuel(advance_count, 4);
    reveal_with_fuel(printed, 4);
    let lc = line_cmds(l);
    assert(lc.drop_first() =~= seq![CmdModel::NextLine(1u16)]);
    assert(lc.drop_first().drop_first() =~= Seq::<CmdModel>::empty());
    assert(advance_count(lc.drop_first().drop_first()) == 0);
    assert(printed(lc.drop_first().drop_first()) =~= Seq::<Seq<char>>::empty());
    assert(printed(lc) =~= seq![l]);
}

/// Emitting a sequence of lines queues exactly one advance-cursor command
/// per line, and prints exactly those lines, in their original order.
pub proof fn lemma_emit_iter_shape(ls: Seq<Seq<char>>)
    ensures
        advance_count(emitted_lines(ls)) == ls.len(),
        printed(emitted_lines(ls)) == ls,
    decreases ls.len(),
{
    if ls.len() == 0 {
        assert(printed(emitted_lines(ls)) =~= ls);
    } else {
        lemma_emit_iter_shape(ls.drop_first());
        lemma_advance_count_add(line_cmds(ls[0]), emitted_lines(ls.drop_first()));
        lemma_printed_add(line_cmds(ls[0]), emitted_lines(ls.drop_first()));
        lemma_line_cmds_shape(ls[0]);
        assert(printed(emitted_lines(ls)) =~= ls);
    }
}

/// The header block always prints: separator, the title's lines in order,
/// separator; it advances the cursor once per printed line plus once for
/// the closing blank line; and for an empty title the two separators stand
/// adjacent, with nothing between them.
pub proof fn lemma_header_shape(t: Seq<char>)
    ensures
        printed(header_cmds(t)) == seq![dash_str()] + lines_of(t) + seq![dash_str()],
        advance_count(header_cmds(t)) == lines_of(t).len() + 3,
        t.len() == 0 ==> header_cmds(t) == dash_cmds() + dash_cmds() + seq![
            CmdModel::NextLine(1u16),
        ],
{
    reveal_with_fuel(advance_count, 3);
    reveal_with_fuel(printed, 3);
    let e = emitted_lines(lines_of(t));
    let tail = seq![CmdModel::NextLine(1u16)];
    lemma_emit_iter_shape(lines_of(t));
    lemma_line_cmds_shape(dash_str());
    lemma_advance_count_add(dash_cmds(), e);
    lemma_advance_count_add(dash_cmds() + e, dash_cmds());
    lemma_advance_count_add(dash_cmds() + e + dash_cmds(), tail);
    lemma_printed_add(dash_cmds(), e);
    lemma_printed_add(dash_cmds() + e, dash_cmds());
    lemma_printed_add(dash_cmds() + e + dash_cmds(), tail);
    assert(tail.drop_first() =~= Seq::<CmdModel>::empty());
    assert(advance_count(tail) == 1);
    assert(printed(tail) =~= Seq::<Seq<char>>::empty());
    assert(printed(header_cmds(t)) =~= seq![dash_str()] + lines_of(t) + seq![dash_str()]);
    if t.len() == 0 {
        assert(e == Seq::<CmdModel>::empty());
        assert(header_cmds(t) =~= dash_cmds() + dash_cmds() + tail);
    }
}

} // verus!
