use vstd::prelude::*;
use vstd::string::StringExecFns;
use crate::UiError;
use crate::command::CmdModel;
use crate::screen::{
    advance_line, emit_iter, emit_line, erase_cmds, erase_prev_line, flush, hide_cursor,
    lemma_emitted_lines_add, lemma_emitted_lines_one, line_cmds, emitted_lines, show_cursor,
    Screen,
};
use crate::source::{EventModel, InputSource};
use crate::text::{
    line_parses_as_u32, line_u32_val, lines_of, parse_u32, push_char, split_lines, trim_spec,
    trim_str,
};

verus! {

// ---------------------------------------------------------------------------
// Numeric line input
// ---------------------------------------------------------------------------

/// The hint line printed under a numeric prompt.
pub open spec fn number_hint() -> Seq<char> {
    "(Input should be a number)"@
}

/// Everything a numeric prompt flushes before its first read: the prompt's
/// lines, the hint line, and the command showing the cursor.
pub open spec fn u32_prompt_cmds(t: Seq<char>) -> Seq<CmdModel> {
    emitted_lines(lines_of(t)) + line_cmds(number_hint()) + seq![CmdModel::ShowCursor]
}

/// A pending event that the numeric prompt reads and rejects: a line that
/// does not denote a 32-bit number.
pub open spec fn u32_rejects(e: EventModel) -> bool {
    e is Line && !line_parses_as_u32(e->Line_0)
}

/// How many rejected lines stand at the front of the pending events: the
/// number of erase-and-retry rounds a numeric prompt performs.
pub open spec fn bad_prefix(q: Seq<EventModel>) -> nat
    decreases q.len(),
{
    if q.len() == 0 {
        0
    } else if u32_rejects(q[0]) {
        (1 + bad_prefix(q.drop_first())) as nat
    } else {
        0
    }
}

/// The erase commands flushed by `k` rejected lines, one pair per round.
pub open spec fn repeat_erase(k: nat) -> Seq<CmdModel>
    decreases k,
{
    if k == 0 {
        Seq::empty()
    } else {
        repeat_erase((k - 1) as nat) + erase_cmds()
    }
}

/// Prompt for a non-negative 32-bit number: print the prompt and the hint,
/// show the cursor, flush, then read lines until one parses, erasing each
/// rejected line from view. Succeeds exactly when a parsing line stands
/// before any key event; the retries consume exactly the rejected lines.
pub fn input_u32(w: &mut Screen, src: &mut InputSource, text: &str) -> (r: Result<u32, UiError>)
    ensures
        ({
            let q = old(src)@;
            let k = bad_prefix(q) as int;
            &&& final(w)@.flushed == old(w)@.flushed + old(w)@.queued + u32_prompt_cmds(text@)
                + repeat_erase(bad_prefix(q))
            &&& (k < q.len() && q[k] is Line ==> {
                &&& r is Ok
                &&& r->Ok_0 == line_u32_val(q[k]->Line_0) as u32
                &&& final(src)@ == q.skip(k + 1)
                &&& final(w)@.queued == seq![CmdModel::HideCursor]
            })
            &&& (!(k < q.len() && q[k] is Line) ==> {
                &&& r is Err
                &&& final(src)@ == q.skip(k)
                &&& final(w)@.queued == Seq::<CmdModel>::empty()
            })
        }),
{
    let ghost q = src@;
    let ls = split_lines(text);
    let _ = emit_iter(w, &ls);
    let _ = emit_line(w, "(Input should be a number)");
    show_cursor(w);
    flush(w);
    let ghost base = old(w)@.flushed + old(w)@.queued + u32_prompt_cmds(text@);
    proof {
        assert(w@.flushed =~= base);
        assert(base + repeat_erase(0) =~= base);
        assert(q.skip(0) =~= q);
    }
    let ghost mut i: int = 0;
    loop
        invariant
            0 <= i <= q.len(),
            src@ == q.skip(i),
            bad_prefix(q) == i + bad_prefix(q.skip(i)),
            w@.flushed == base + repeat_erase(i as nat),
            w@.queued == Seq::<CmdModel>::empty(),
            base == old(w)@.flushed + old(w)@.queued + u32_prompt_cmds(text@),
            q == old(src)@,
        decreases q.len() - i,
    {
        match src.read_line() {
            Err(_) => {
                proof {
                    assert(bad_prefix(q.skip(i)) == 0);
                }
                return Err(UiError::Io);
            },
            Ok(line) => {
                let t = trim_str(line.as_str());
                match parse_u32(t.as_str()) {
                    Some(v) => {
                        hide_cursor(w);
                        proof {
                            assert(q.skip(i)[0] == q[i]);
                            assert(line_parses_as_u32(q[i]->Line_0));
                            assert(bad_prefix(q.skip(i)) == 0);
                            assert(src@ =~= q.skip(i + 1));
                            assert(w@.queued =~= seq![CmdModel::HideCursor]);
                        }
                        return Ok(v);
                    },
                    None => {
                        erase_prev_line(w);
                        flush(w);
                        proof {
                            assert(q.skip(i)[0] == q[i]);
                            assert(u32_rejects(q.skip(i)[0]));
                            assert(q.skip(i).drop_first() =~= q.skip(i + 1));
                            assert(bad_prefix(q.skip(i)) == 1 + bad_prefix(q.skip(i + 1)));
                            assert(repeat_erase((i + 1) as nat) == repeat_erase(i as nat)
                                + erase_cmds());
                            assert(w@.flushed =~= base + repeat_erase((i + 1) as nat));
                            i = i + 1;
                            assert(src@ =~= q.skip(i));
                        }
                    },
                }
            },
        }
    }
}

// ---------------------------------------------------------------------------
// Free-text line input
// ---------------------------------------------------------------------------

/// Everything a text prompt flushes before its read: the prompt's lines and
/// the command showing the cursor.
pub open spec fn string_prompt_cmds(t: Seq<char>) -> Seq<CmdModel> {
    emitted_lines(lines_of(t)) + seq![CmdModel::ShowCursor]
}

/// Prompt for one free-text line: print the prompt, show the cursor, flush,
/// read exactly one line and return it trimmed of surrounding whitespace —
/// no validation, the empty string included.
pub fn input_string(w: &mut Screen, src: &mut InputSource, text: &str) -> (r: Result<
    String,
    UiError,
>)
    ensures
        ({
            let q = old(src)@;
            &&& final(w)@.flushed == old(w)@.flushed + old(w)@.queued + string_prompt_cmds(text@)
            &&& (q.len() > 0 && q[0] is Line ==> {
                &&& r is Ok
                &&& r->Ok_0@ == trim_spec(q[0]->Line_0)
                &&& final(src)@ == q.drop_first()
                &&& final(w)@.queued == seq![CmdModel::HideCursor]
            })
            &&& (!(q.len() > 0 && q[0] is Line) ==> {
                &&& r is Err
                &&& final(src)@ == q
                &&& final(w)@.queued == Seq::<CmdModel>::empty()
            })
        }),
{
    let ls = split_lines(text);
    let _ = emit_iter(w, &ls);
    show_cursor(w);
    flush(w);
    proof {
        assert(w@.flushed =~= old(w)@.flushed + old(w)@.queued + string_prompt_cmds(text@));
    }
    match src.read_line() {
        Err(_) => Err(UiError::Io),
        Ok(line) => {
            let t = trim_str(line.as_str());
            hide_cursor(w);
            proof {
                assert(w@.queued =~= seq![CmdModel::HideCursor]);
            }
            Ok(t)
        },
    }
}

// ---------------------------------------------------------------------------
// Yes / no confirmation
// ---------------------------------------------------------------------------

/// The hint line printed under a confirmation prompt.
pub open spec fn yes_no_hint() -> Seq<char> {
    "(y)es or (n)o?"@
}

/// Everything a confirmation prompt flushes before its first read.
pub open spec fn confirm_cmds(t: Seq<char>) -> Seq<CmdModel> {
    emitted_lines(lines_of(t)) + line_cmds(yes_no_hint())
}

/// A key the confirmation prompt silently ignores: anything but the exact
/// lowercase `y` and `n`.
pub open spec fn confirm_skips(e: EventModel) -> bool {
    e is Key && e->Key_0 != 'y' && e->Key_0 != 'n'
}

/// How many ignored keys stand at the front of the pending events.
pub open spec fn confirm_prefix(q: Seq<EventModel>) -> nat
    decreases q.len(),
{
    if q.len() == 0 {
        0
    } else if confirm_skips(q[0]) {
        (1 + confirm_prefix(q.drop_first())) as nat
    } else {
        0
    }
}

/// Ask yes or no: print the prompt and the hint, flush, then read raw keys,
/// ignoring every key but the exact `y` (true) and `n` (false). Matching is
/// case-sensitive: an uppercase `Y` is ignored like any other key.
pub fn confirmation_prompt(w: &mut Screen, src: &mut InputSource, text: &str) -> (r: Result<
    bool,
    UiError,
>)
    ensures
        ({
            let q = old(src)@;
            let k = confirm_prefix(q) as int;
            &&& final(w)@.flushed == old(w)@.flushed + old(w)@.queued + confirm_cmds(text@)
            &&& final(w)@.queued == Seq::<CmdModel>::empty()
            &&& (k < q.len() && q[k] is Key ==> {
                &&& r is Ok
                &&& r->Ok_0 == (q[k]->Key_0 == 'y')
                &&& final(src)@ == q.skip(k + 1)
            })
            &&& (!(k < q.len() && q[k] is Key) ==> {
                &&& r is Err
                &&& final(src)@ == q.skip(k)
            })
        }),
{
    let ghost q = src@;
    let ls = split_lines(text);
    let _ = emit_iter(w, &ls);
    let _ = emit_line(w, "(y)es or (n)o?");
    flush(w);
    proof {
        assert(w@.flushed =~= old(w)@.flushed + old(w)@.queued + confirm_cmds(text@));
        assert(q.skip(0) =~= q);
    }
    let ghost mut i: int = 0;
    loop
        invariant
            0 <= i <= q.len(),
            src@ == q.skip(i),
            confirm_prefix(q) == i + confirm_prefix(q.skip(i)),
            w@.flushed == old(w)@.flushed + old(w)@.queued + confirm_cmds(text@),
            w@.queued == Seq::<CmdModel>::empty(),
            q == old(src)@,
        decreases q.len() - i,
    {
        match src.read_key() {
            Err(_) => {
                proof {
                    assert(confirm_prefix(q.skip(i)) == 0);
                }
                return Err(UiError::Io);
            },
            Ok(c) => {
                proof {
                    assert(q.skip(i)[0] == q[i]);
                }
                if c == 'y' {
                    proof {
                        assert(confirm_prefix(q.skip(i)) == 0);
                        assert(src@ =~= q.skip(i + 1));
                    }
                    return Ok(true);
                }
                if c == 'n' {
                    proof {
                        assert(confirm_prefix(q.skip(i)) == 0);
                        assert(src@ =~= q.skip(i + 1));
                    }
                    return Ok(false);
                }
                proof {
                    assert(confirm_skips(q.skip(i)[0]));
                    assert(q.skip(i).drop_first() =~= q.skip(i + 1));
                    assert(confirm_prefix(q.skip(i)) == 1 + confirm_prefix(q.skip(i + 1)));
                    i = i + 1;
                    assert(src@ =~= q.skip(i));
                }
            },
        }
    }
}

// ---------------------------------------------------------------------------
// Single-key menu selection
// ---------------------------------------------------------------------------

/// The instruction line printed under a menu prompt.
pub open spec fn select_hint() -> Seq<char> {
    "Select from the list by typing the letter"@
}

pub open spec fn opt_views(opts: Seq<(char, String)>) -> Seq<(char, Seq<char>)> {
    opts.map_values(|p: (char, String)| (p.0, p.1@))
}

/// The label of the first option bound to `c`, if any. With duplicate keys
/// the first match in order is the effective binding.
pub open spec fn find_opt(opts: Seq<(char, Seq<char>)>, c: char) -> Option<Seq<char>>
    decreases opts.len(),
{
    if opts.len() == 0 {
        None
    } else if opts[0].0 == c {
        Some(opts[0].1)
    } else {
        find_opt(opts.drop_first(), c)
    }
}

/// The line shown for one option: its key, a colon and blank, its label.
pub open spec fn option_line(c: char, l: Seq<char>) -> Seq<char> {
    seq![c] + ": "@ + l
}

pub open spec fn option_lines(opts: Seq<(char, Seq<char>)>) -> Seq<Seq<char>> {
    opts.map_values(|p: (char, Seq<char>)| option_line(p.0, p.1))
}

/// Everything a menu prompt flushes before its first read: the prompt's
/// lines, the instruction line, a blank line, then one line per option.
pub open spec fn select_cmds(t: Seq<char>, opts: Seq<(char, Seq<char>)>) -> Seq<CmdModel> {
    emitted_lines(lines_of(t)) + line_cmds(select_hint()) + seq![CmdModel::NextLine(1u16)]
        + emitted_lines(option_lines(opts))
}

/// How many keys bound to no option stand at the front of the pending
/// events: the keys a menu prompt silently ignores.
pub open spec fn select_prefix(opts: Seq<(char, Seq<char>)>, q: Seq<EventModel>) -> nat
    decreases q.len(),
{
    if q.len() == 0 {
        0
    } else if q[0] is Key && find_opt(opts, q[0]->Key_0) is None {
        (1 + select_prefix(opts, q.drop_first())) as nat
    } else {
        0
    }
}

proof fn lemma_find_opt_skip(opts: Seq<(char, Seq<char>)>, c: char, i: int)
    requires
        0 <= i <= opts.len(),
        forall|j: int| 0 <= j < i ==> opts[j].0 != c,
    ensures
        find_opt(opts, c) == find_opt(opts.skip(i), c),
    decreases i,
{
    if i > 0 {
        lemma_find_opt_skip(opts.drop_first(), c, i - 1);
        assert(opts.drop_first().skip(i - 1) =~= opts.skip(i));
    } else {
        assert(opts.skip(0) =~= opts);
    }
}

/// The label of the first option whose key is `c`, cloned, or nothing.
pub fn lookup_option(options: &Vec<(char, String)>, c: char) -> (r: Option<String>)
    ensures
        ({
            let ov = opt_views(options@);
            match find_opt(ov, c) {
                Some(l) => r is Some && r->Some_0@ == l,
                None => r is None,
            }
        }),
{
    let ghost ov = opt_views(options@);
    let mut i: usize = 0;
    while i < options.len()
        invariant
            i <= options.len(),
            ov == opt_views(options@),
            ov.len() == options@.len(),
            forall|j: int| 0 <= j < i ==> ov[j].0 != c,
        decreases options.len() - i,
    {
        if options[i].0 == c {
            proof {
                lemma_find_opt_skip(ov, c, i as int);
                assert(ov.skip(i as int)[0] == ov[i as int]);
            }
            return Some(options[i].1.clone());
        }
        proof {
            assert(ov[i as int].0 == options@[i as int].0);
        }
        i += 1;
    }
    proof {
        lemma_find_opt_skip(ov, c, options@.len() as int);
        assert(ov.skip(options@.len() as int) =~= Seq::<(char, Seq<char>)>::empty());
    }
    None
}

/// The line shown for one option.
pub fn option_label_line(c: char, label: &String) -> (r: String)
    ensures
        r@ == option_line(c, label@),
{
    let mut s = String::new();
    push_char(&mut s, c);
    s.append(": ");
    s.append(label.as_str());
    proof {
        assert(s@ =~= option_line(c, label@));
    }
    s
}

/// Offer the options as a menu: print the prompt, the instruction line, a
/// blank line, one line per option in the given order, flush; then read raw
/// keys until one is bound to an option, and return that option's label.
/// Unbound keys are silently ignored, with no feedback and no cancel path.
pub fn select_from_list(w: &mut Screen, src: &mut InputSource, text: &str, options: &Vec<
    (char, String),
>) -> (r: Result<String, UiError>)
    ensures
        ({
            let q = old(src)@;
            let ov = opt_views(options@);
            let k = select_prefix(ov, q) as int;
            &&& final(w)@.flushed == old(w)@.flushed + old(w)@.queued + select_cmds(text@, ov)
            &&& final(w)@.queued == Seq::<CmdModel>::empty()
            &&& (k < q.len() && q[k] is Key ==> {
                &&& find_opt(ov, q[k]->Key_0) is Some
                &&& r is Ok
                &&& r->Ok_0@ == find_opt(ov, q[k]->Key_0)->Some_0
                &&& final(src)@ == q.skip(k + 1)
            })
            &&& (!(k < q.len() && q[k] is Key) ==> {
                &&& r is Err
                &&& final(src)@ == q.skip(k)
            })
        }),
{
    let ghost q = src@;
    let ghost ov = opt_views(options@);
    let ls = split_lines(text);
    let _ = emit_iter(w, &ls);
    let _ = emit_line(w, "Select from the list by typing the letter");
    advance_line(w);
    let ghost qstart = w@.queued;
    proof {
        assert(option_lines(ov).take(0) =~= Seq::<Seq<char>>::empty());
        assert(qstart + emitted_lines(option_lines(ov).take(0)) =~= qstart);
    }
    let mut oi: usize = 0;
    while oi < options.len()
        invariant
            oi <= options.len(),
            ov == opt_views(options@),
            ov.len() == options@.len(),
            w@.queued == qstart + emitted_lines(option_lines(ov).take(oi as int)),
            w@.flushed == old(w)@.flushed,
            qstart == old(w)@.queued + emitted_lines(lines_of(text@)) + line_cmds(select_hint())
                + seq![CmdModel::NextLine(1u16)],
        decreases options.len() - oi,
    {
        let line = option_label_line(options[oi].0, &options[oi].1);
        let _ = emit_line(w, line.as_str());
        proof {
            let ol = option_lines(ov);
            assert(ol[oi as int] == option_line(ov[oi as int].0, ov[oi as int].1));
            assert(ol.take(oi + 1) =~= ol.take(oi as int) + seq![ol[oi as int]]);
            lemma_emitted_lines_add(ol.take(oi as int), seq![ol[oi as int]]);
            lemma_emitted_lines_one(ol[oi as int]);
            assert(w@.queued =~= qstart + emitted_lines(ol.take(oi + 1)));
        }
        oi += 1;
    }
    flush(w);
    proof {
        assert(option_lines(ov).take(options@.len() as int) =~= option_lines(ov));
        assert(w@.flushed =~= old(w)@.flushed + old(w)@.queued + select_cmds(text@, ov));
        assert(q.skip(0) =~= q);
    }
    let ghost mut i: int = 0;
    loop
        invariant
            0 <= i <= q.len(),
            src@ == q.skip(i),
            select_prefix(ov, q) == i + select_prefix(ov, q.skip(i)),
            w@.flushed == old(w)@.flushed + old(w)@.queued + select_cmds(text@, ov),
            w@.queued == Seq::<CmdModel>::empty(),
            q == old(src)@,
            ov == opt_views(options@),
        decreases q.len() - i,
    {
        match src.read_key() {
            Err(_) => {
                proof {
                    assert(select_prefix(ov, q.skip(i)) == 0);
                }
                return Err(UiError::Io);
            },
            Ok(c) => {
                proof {
                    assert(q.skip(i)[0] == q[i]);
                }
                match lookup_option(options, c) {
                    Some(label) => {
                        proof {
                            assert(select_prefix(ov, q.skip(i)) == 0);
                            assert(src@ =~= q.skip(i + 1));
                        }
                        return Ok(label);
                    },
                    None => {
                        proof {
                            assert(q.skip(i).drop_first() =~= q.skip(i + 1));
                            assert(select_prefix(ov, q.skip(i)) == 1 + select_prefix(
                                ov,
                                q.skip(i + 1),
                            ));
                            i = i + 1;
                            assert(src@ =~= q.skip(i));
                        }
                    },
                }
            },
        }
    }
}

} // verus!
