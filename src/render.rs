use vstd::prelude::*;
use vstd::string::*;

verus! {

/// The largest row or column a terminal position can take.
pub const MAX_COORD: u16 = 65535;

/// One row of the result list: where it goes and what is written there.
#[derive(Debug, PartialEq, Eq)]
pub struct Entry {
    /// The terminal row of the entry.
    pub row: u16,
    /// The selection marker written at column 0.
    pub marker: String,
    /// The line's text, written right after the marker.
    pub text: String,
}

/// One repaint of the picker's region of the terminal. It is drawn by
/// moving to `(0, origin)` and writing `query_text`; then, for each entry,
/// moving to `(0, row)` and writing `marker` and `text`; and last, moving
/// the cursor to `(cursor_col, origin)`. Rows below the last entry are
/// left as they were: what a longer view drew there before stays visible.
#[derive(Debug, PartialEq, Eq)]
pub struct Frame {
    pub origin: u16,
    pub query_text: String,
    pub entries: Vec<Entry>,
    pub cursor_col: u16,
}

/// `n` spaces.
pub open spec fn spaces(n: int) -> Seq<char> {
    Seq::new(n as nat, |_i: int| ' ')
}

/// The query followed by spaces up to `cols` characters, so that a longer
/// query drawn before leaves nothing behind. A query as wide as the
/// terminal or wider is drawn whole.
pub open spec fn padded(query: Seq<char>, cols: int) -> Seq<char> {
    if query.len() < cols {
        query + spaces(cols - query.len())
    } else {
        query
    }
}

/// Room for a line's text on a terminal `cols` wide, after the marker.
pub open spec fn text_width(cols: int) -> int {
    if cols > 3 {
        cols - 3
    } else {
        0
    }
}

/// A line cut to the room that the terminal leaves for it.
pub open spec fn clipped(line: Seq<char>, cols: int) -> Seq<char> {
    if line.len() > text_width(cols) {
        line.take(text_width(cols))
    } else {
        line
    }
}

/// The marker in front of the selected entry, and in front of the others.
pub open spec fn marker(selected: bool) -> Seq<char> {
    if selected {
        seq!['-', '>', ' ']
    } else {
        seq![' ', ' ', ' ']
    }
}

/// How many of `n` entries fit below `origin`: entry `i` goes on row
/// `origin + i + 2`, which must be a terminal row.
pub open spec fn rows_on_screen(n: int, origin: int) -> int {
    let room = MAX_COORD - 1 - origin;
    if room <= 0 {
        0
    } else if n < room {
        n
    } else {
        room
    }
}

/// `f` is the repaint of `view` under `query`, with entry `sel` marked,
/// for a region that starts at row `origin` of a terminal `cols` wide.
pub open spec fn frame_spec(
    f: Frame,
    view: Seq<Seq<char>>,
    query: Seq<char>,
    sel: int,
    origin: int,
    cols: int,
) -> bool {
    &&& f.origin == origin
    &&& f.query_text@ == padded(query, cols)
    &&& f.cursor_col == (if query.len() < MAX_COORD {
        query.len() as int
    } else {
        MAX_COORD as int
    })
    &&& f.entries@.len() == rows_on_screen(view.len() as int, origin)
    &&& forall|i: int|
        0 <= i < f.entries@.len() ==> {
            &&& (#[trigger] f.entries@[i]).row == origin + i + 2
            &&& f.entries@[i].marker@ == marker(i == sel)
            &&& f.entries@[i].text@ == clipped(view[i], cols)
        }
}

/// `line` cut to the room that a terminal `cols` wide leaves for it.
fn clip_line(line: &String, cols: u16) -> (r: String)
    ensures
        r@ == clipped(line@, cols as int),
{
    let width: usize = if cols > 3 {
        (cols - 3) as usize
    } else {
        0
    };
    if line.as_str().unicode_len() > width {
        String::from_str(line.as_str().substring_char(0, width))
    } else {
        line.clone()
    }
}

/// The query padded with spaces to `cols` characters.
fn pad_query(query: &str, cols: u16) -> (r: String)
    ensures
        r@ == padded(query@, cols as int),
{
    let qlen = query.unicode_len();
    let mut text = String::from_str(query);
    let mut k: usize = qlen;
    while k < cols as usize
        invariant
            qlen == query@.len(),
            qlen <= k,
            qlen < cols ==> k <= cols,
            qlen >= cols ==> k == qlen,
            text@ == query@ + spaces(k - qlen),
        decreases cols - k,
    {
        let one = String::from_str(" ");
        proof {
            reveal_strlit(" ");
        }
        text.append(one.as_str());
        assert(spaces(k + 1 - qlen) =~= spaces(k - qlen) + seq![' ']);
        assert(query@ + spaces(k + 1 - qlen) =~= query@ + spaces(k - qlen) + seq![' ']);
        k = k + 1;
    }
    assert(qlen >= cols ==> spaces(k - qlen) =~= Seq::<char>::empty());
    assert(qlen >= cols ==> query@ + spaces(k - qlen) =~= query@);
    text
}

/// Lays out the repaint of `view` under `query`, with entry `selected`
/// marked, for a region that starts at row `origin` of a terminal `cols`
/// wide. Entries that would fall below the last terminal row are left out.
pub fn build_frame(view: &Vec<String>, query: &str, selected: usize, origin: u16, cols: u16) -> (f:
    Frame)
    ensures
        frame_spec(f, view.deep_view(), query@, selected as int, origin as int, cols as int),
{
    let query_text = pad_query(query, cols);
    let qlen = query.unicode_len();
    let cursor_col: u16 = if qlen < MAX_COORD as usize {
        qlen as u16
    } else {
        MAX_COORD
    };
    let room: usize = if origin < MAX_COORD - 1 {
        (MAX_COORD - 1 - origin) as usize
    } else {
        0
    };
    let count: usize = if view.len() < room {
        view.len()
    } else {
        room
    };
    let mut entries: Vec<Entry> = Vec::new();
    let mut i: usize = 0;
    while i < count
        invariant
            count == rows_on_screen(view.len() as int, origin as int),
            count <= view.len(),
            i <= count,
            count > 0 ==> origin + count + 1 <= MAX_COORD,
            entries@.len() == i,
            forall|j: int|
                0 <= j < i ==> {
                    &&& (#[trigger] entries@[j]).row == origin + j + 2
                    &&& entries@[j].marker@ == marker(j == selected)
                    &&& entries@[j].text@ == clipped(view.deep_view()[j], cols as int)
                },
        decreases count - i,
    {
        let mark = if i == selected {
            proof {
                reveal_strlit("-> ");
            }
            let m = String::from_str("-> ");
            assert(m@ =~= marker(true));
            m
        } else {
            proof {
                reveal_strlit("   ");
            }
            let m = String::from_str("   ");
            assert(m@ =~= marker(false));
            m
        };
        let text = clip_line(&view[i], cols);
        let row: u16 = origin + (i as u16) + 2;
        entries.push(Entry { row, marker: mark, text });
        i = i + 1;
    }
    Frame { origin, query_text, entries, cursor_col }
}

} // verus!
