use vstd::prelude::*;

use crate::render::{frame_spec, Entry, Frame};

verus! {

/// A terminal command, as a frame is drawn with them.
pub enum Cmd {
    /// Moves the cursor to a column and a row.
    MoveTo(int, int),
    /// Writes characters from the cursor on, to the right, and leaves the
    /// cursor after them.
    Print(Seq<char>),
}

/// What a terminal shows: the cursor's column and row, and the character
/// at each written position.
pub struct Screen {
    pub cursor: (int, int),
    pub cells: Map<(int, int), char>,
}

/// The positions that `text` covers when written at `at`, with their characters.
pub open spec fn painted(at: (int, int), text: Seq<char>) -> Map<(int, int), char> {
    Map::new(
        |p: (int, int)| p.1 == at.1 && at.0 <= p.0 < at.0 + text.len(),
        |p: (int, int)| text[p.0 - at.0],
    )
}

/// The screen after one command.
pub open spec fn apply_cmd(s: Screen, c: Cmd) -> Screen {
    match c {
        Cmd::MoveTo(col, row) => Screen { cursor: (col, row), cells: s.cells },
        Cmd::Print(text) => Screen {
            cursor: (s.cursor.0 + text.len(), s.cursor.1),
            cells: s.cells.union_prefer_right(painted(s.cursor, text)),
        },
    }
}

/// The screen after a run of commands, in order.
pub open spec fn apply_cmds(s: Screen, cs: Seq<Cmd>) -> Screen
    decreases cs.len(),
{
    if cs.len() == 0 {
        s
    } else {
        apply_cmds(apply_cmd(s, cs[0]), cs.drop_first())
    }
}

/// The commands that draw a run of entries.
pub open spec fn entry_cmds(es: Seq<Entry>) -> Seq<Cmd>
    decreases es.len(),
{
    if es.len() == 0 {
        Seq::empty()
    } else {
        let e = es.last();
        entry_cmds(es.drop_last()) + seq![
            Cmd::MoveTo(0, e.row as int),
            Cmd::Print(e.marker@),
            Cmd::Print(e.text@),
        ]
    }
}

/// The commands that draw a frame.
pub open spec fn frame_cmds(f: Frame) -> Seq<Cmd> {
    seq![Cmd::MoveTo(0, f.origin as int), Cmd::Print(f.query_text@)] + entry_cmds(f.entries@)
        + seq![Cmd::MoveTo(f.cursor_col as int, f.origin as int)]
}

/// Running commands over a screen whose cells lie over a base leaves the
/// base below whatever the commands write.
proof fn lemma_apply_over_base(
    cursor: (int, int),
    base: Map<(int, int), char>,
    top: Map<(int, int), char>,
    cs: Seq<Cmd>,
)
    ensures
        apply_cmds(Screen { cursor, cells: base.union_prefer_right(top) }, cs) == (Screen {
            cursor: apply_cmds(Screen { cursor, cells: top }, cs).cursor,
            cells: base.union_prefer_right(apply_cmds(Screen { cursor, cells: top }, cs).cells),
        }),
    decreases cs.len(),
{
    if cs.len() > 0 {
        match cs[0] {
            Cmd::MoveTo(col, row) => {
                lemma_apply_over_base((col, row), base, top, cs.drop_first());
            },
            Cmd::Print(text) => {
                let p = painted(cursor, text);
                assert(base.union_prefer_right(top).union_prefer_right(p)
                    =~= base.union_prefer_right(top.union_prefer_right(p)));
                lemma_apply_over_base(
                    (cursor.0 + text.len(), cursor.1),
                    base,
                    top.union_prefer_right(p),
                    cs.drop_first(),
                );
            },
        }
    }
}

/// Commands that start with a move do not depend on where the cursor was.
proof fn lemma_start_with_move(c1: (int, int), c2: (int, int), cells: Map<(int, int), char>, cs: Seq<Cmd>)
    requires
        cs.len() > 0,
        cs[0] is MoveTo,
    ensures
        apply_cmds(Screen { cursor: c1, cells }, cs) == apply_cmds(Screen { cursor: c2, cells }, cs),
{
}

/// The commands of a frame start with a move.
proof fn lemma_frame_starts_with_move(f: Frame)
    ensures
        frame_cmds(f).len() > 0,
        frame_cmds(f)[0] is MoveTo,
{
}

/// Drawing a frame a second time changes nothing on the screen: every
/// position it writes is written with the same character again, and the
/// cursor ends where it did.
proof fn lemma_draw_idempotent(s: Screen, f: Frame)
    ensures
        apply_cmds(apply_cmds(s, frame_cmds(f)), frame_cmds(f)) == apply_cmds(s, frame_cmds(f)),
{
    let cs = frame_cmds(f);
    lemma_frame_starts_with_move(f);
    let empty = Map::<(int, int), char>::empty();
    assert(s.cells.union_prefer_right(empty) =~= s.cells);
    let w = apply_cmds(Screen { cursor: s.cursor, cells: empty }, cs);
    lemma_apply_over_base(s.cursor, s.cells, empty, cs);
    assert(Screen { cursor: s.cursor, cells: s.cells.union_prefer_right(empty) } == s);
    let once = apply_cmds(s, cs);
    assert(once == Screen { cursor: w.cursor, cells: s.cells.union_prefer_right(w.cells) });
    let base = s.cells.union_prefer_right(w.cells);
    assert(base.union_prefer_right(empty) =~= base);
    lemma_apply_over_base(w.cursor, base, empty, cs);
    lemma_start_with_move(w.cursor, s.cursor, empty, cs);
    assert(base.union_prefer_right(w.cells) =~= base);
}

/// Runs of entries that agree on rows, markers and texts are drawn alike.
proof fn lemma_entry_cmds_agree(e1: Seq<Entry>, e2: Seq<Entry>)
    requires
        e1.len() == e2.len(),
        forall|i: int|
            0 <= i < e1.len() ==> (#[trigger] e1[i]).row == e2[i].row && e1[i].marker@
                == e2[i].marker@ && e1[i].text@ == e2[i].text@,
    ensures
        entry_cmds(e1) == entry_cmds(e2),
    decreases e1.len(),
{
    if e1.len() > 0 {
        let d1 = e1.drop_last();
        let d2 = e2.drop_last();
        assert forall|i: int| 0 <= i < d1.len() implies (#[trigger] d1[i]).row == d2[i].row
            && d1[i].marker@ == d2[i].marker@ && d1[i].text@ == d2[i].text@ by {
            assert(d1[i] == e1[i]);
            assert(d2[i] == e2[i]);
        }
        lemma_entry_cmds_agree(d1, d2);
        assert(e1.last() == e1[e1.len() - 1]);
    }
}

/// Rendering a second time with the same view, query, selection, origin
/// row and width shows exactly what rendering once shows.
pub proof fn lemma_render_idempotent(
    s: Screen,
    first: Frame,
    second: Frame,
    view: Seq<Seq<char>>,
    query: Seq<char>,
    sel: int,
    origin: int,
    cols: int,
)
    requires
        frame_spec(first, view, query, sel, origin, cols),
        frame_spec(second, view, query, sel, origin, cols),
    ensures
        apply_cmds(apply_cmds(s, frame_cmds(first)), frame_cmds(second)) == apply_cmds(
            s,
            frame_cmds(first),
        ),
{
    let e1 = first.entries@;
    let e2 = second.entries@;
    assert forall|i: int| 0 <= i < e1.len() implies (#[trigger] e1[i]).row == e2[i].row
        && e1[i].marker@ == e2[i].marker@ && e1[i].text@ == e2[i].text@ by {
        assert(e1[i] == first.entries@[i]);
        assert(e2[i] == second.entries@[i]);
    }
    lemma_entry_cmds_agree(e1, e2);
    assert(frame_cmds(first) == frame_cmds(second));
    lemma_draw_idempotent(s, first);
}

} // verus!
