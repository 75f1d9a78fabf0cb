use vstd::prelude::*;

verus! {

/// One queued terminal draw command. `Print` carries the text of a single
/// line fragment; the cursor commands mirror the terminal's own control set.
#[derive(Debug, PartialEq, Eq)]
pub enum TermCommand {
    Print(String),
    NextLine(u16),
    PrevLine(u16),
    ClearLine,
    ClearAll,
    ShowCursor,
    HideCursor,
    MoveToOrigin,
    ResetColor,
}

/// The mathematical model of a draw command: text as a sequence of
/// characters, everything else as plain values.
pub enum CmdModel {
    Print(Seq<char>),
    NextLine(u16),
    PrevLine(u16),
    ClearLine,
    ClearAll,
    ShowCursor,
    HideCursor,
    MoveToOrigin,
    ResetColor,
}

impl View for TermCommand {
    type V = CmdModel;

    open spec fn view(&self) -> CmdModel {
        match self {
            TermCommand::Print(s) => CmdModel::Print(s@),
            TermCommand::NextLine(n) => CmdModel::NextLine(*n),
            TermCommand::PrevLine(n) => CmdModel::PrevLine(*n),
            TermCommand::ClearLine => CmdModel::ClearLine,
            TermCommand::ClearAll => CmdModel::ClearAll,
            TermCommand::ShowCursor => CmdModel::ShowCursor,
            TermCommand::HideCursor => CmdModel::HideCursor,
            TermCommand::MoveToOrigin => CmdModel::MoveToOrigin,
            TermCommand::ResetColor => CmdModel::ResetColor,
        }
    }
}

pub open spec fn cmd_views(v: Seq<TermCommand>) -> Seq<CmdModel> {
    v.map_values(|c: TermCommand| c@)
}

/// Abstract state of the terminal: what each row shows, where the cursor
/// stands, whether it is visible, and whether a color/style is active.
/// A row absent from `grid` is blank.
#[verifier::ext_equal]
pub struct TermState {
    pub grid: Map<nat, Seq<char>>,
    pub row: nat,
    pub col: nat,
    pub cursor_shown: bool,
    pub styled: bool,
}

pub open spec fn row_content(st: TermState, r: nat) -> Seq<char> {
    if st.grid.contains_key(r) {
        st.grid[r]
    } else {
        Seq::empty()
    }
}

/// Extend `s` with blanks up to length `n` (no-op if already long enough).
pub open spec fn pad_to(s: Seq<char>, n: nat) -> Seq<char> {
    if s.len() >= n {
        s
    } else {
        s + Seq::new((n - s.len()) as nat, |i: int| ' ')
    }
}

/// Overwrite `s` with `t` starting at column `at`, padding with blanks
/// if the row is shorter than the write position.
pub open spec fn splice(s: Seq<char>, at: nat, t: Seq<char>) -> Seq<char> {
    let p = pad_to(s, at + t.len());
    Seq::new(p.len(), |i: int| if at <= i < at + t.len() { t[i - at] } else { p[i] })
}

/// What one command does to the terminal state.
pub open spec fn apply(st: TermState, c: CmdModel) -> TermState {
    match c {
        CmdModel::Print(s) => TermState {
            grid: st.grid.insert(st.row, splice(row_content(st, st.row), st.col, s)),
            col: st.col + s.len(),
            ..st
        },
        CmdModel::NextLine(n) => TermState { row: (st.row + n) as nat, col: 0, ..st },
        CmdModel::PrevLine(n) => TermState {
            row: if st.row >= n { (st.row - n) as nat } else { 0 },
            col: 0,
            ..st
        },
        CmdModel::ClearLine => TermState { grid: st.grid.insert(st.row, Seq::empty()), ..st },
        CmdModel::ClearAll => TermState { grid: Map::empty(), ..st },
        CmdModel::ShowCursor => TermState { cursor_shown: true, ..st },
        CmdModel::HideCursor => TermState { cursor_shown: false, ..st },
        CmdModel::MoveToOrigin => TermState { row: 0, col: 0, ..st },
        CmdModel::ResetColor => TermState { styled: false, ..st },
    }
}

pub open spec fn apply_all(st: TermState, cs: Seq<CmdModel>) -> TermState
    decreases cs.len(),
{
    if cs.len() == 0 {
        st
    } else {
        apply_all(apply(st, cs[0]), cs.drop_first())
    }
}

/// The command batch queued by a full-screen clear: reset color, clear the
/// whole screen, hide the cursor, move to the origin.
pub open spec fn clear_cmds() -> Seq<CmdModel> {
    seq![
        CmdModel::ResetColor,
        CmdModel::ClearAll,
        CmdModel::HideCursor,
        CmdModel::MoveToOrigin,
    ]
}

/// The terminal state right after a clear: blank screen, hidden cursor at
/// the origin, no active style.
pub open spec fn cleared_state() -> TermState {
    TermState { grid: Map::empty(), row: 0, col: 0, cursor_shown: false, styled: false }
}

/// Running a batch `a + b` is running `a`, then `b`.
pub proof fn lemma_apply_all_add(st: TermState, a: Seq<CmdModel>, b: Seq<CmdModel>)
    ensures
        apply_all(st, a + b) == apply_all(apply_all(st, a), b),
    decreases a.len(),
{
    if a.len() == 0 {
        assert(a + b =~= b);
    } else {
        assert((a + b).drop_first() =~= a.drop_first() + b);
        lemma_apply_all_add(apply(st, a[0]), a.drop_first(), b);
    }
}

/// Whatever the terminal showed before, the clear batch drives it to the
/// one fixed cleared state.
pub proof fn lemma_clear_normalizes(st: TermState)
    ensures
        apply_all(st, clear_cmds()) == cleared_state(),
{
    let s0 = clear_cmds();
    let s1 = s0.drop_first();
    let s2 = s1.drop_first();
    let s3 = s2.drop_first();
    let s4 = s3.drop_first();
    let st1 = apply(st, CmdModel::ResetColor);
    let st2 = apply(st1, CmdModel::ClearAll);
    let st3 = apply(st2, CmdModel::HideCursor);
    let st4 = apply(st3, CmdModel::MoveToOrigin);
    assert(s1 =~= seq![CmdModel::ClearAll, CmdModel::HideCursor, CmdModel::MoveToOrigin]);
    assert(s2 =~= seq![CmdModel::HideCursor, CmdModel::MoveToOrigin]);
    assert(s3 =~= seq![CmdModel::MoveToOrigin]);
    assert(s4 =~= Seq::<CmdModel>::empty());
    assert(apply_all(st, s0) == apply_all(st1, s1));
    assert(apply_all(st1, s1) == apply_all(st2, s2));
    assert(apply_all(st2, s2) == apply_all(st3, s3));
    assert(apply_all(st3, s3) == apply_all(st4, s4));
    assert(apply_all(st4, s4) == st4);
    assert(st4 =~= cleared_state());
}

/// Clearing twice in a row leaves the terminal exactly as clearing once
/// does: the doubled batch and the single batch end in the same state.
pub proof fn lemma_clear_idempotent(st: TermState)
    ensures
        apply_all(st, clear_cmds() + clear_cmds()) == apply_all(st, clear_cmds()),
        apply_all(apply_all(st, clear_cmds()), clear_cmds()) == apply_all(st, clear_cmds()),
{
    lemma_apply_all_add(st, clear_cmds(), clear_cmds());
    lemma_clear_normalizes(st);
    lemma_clear_normalizes(cleared_state());
}

} // verus!
