use vstd::prelude::*;

use crate::keys::Action;
use crate::matcher::{filter_lines, filtered};
use crate::render::{build_frame, frame_spec, Frame};

verus! {

/// Relies on `String::push`: appends `c` to `s`.
#[verifier::external_body]
fn push_char(s: &mut String, c: char)
    ensures
        final(s)@ == old(s)@.push(c),
{
    s.push(c)
}

/// Relies on `String::pop`: removes and returns the last character of `s`,
/// or returns `None` and leaves `s` as it is when `s` is empty.
#[verifier::external_body]
fn pop_char(s: &mut String) -> (r: Option<char>)
    ensures
        old(s)@.len() == 0 ==> r is None && final(s)@ == old(s)@,
        old(s)@.len() > 0 ==> r == Some(old(s)@.last()) && final(s)@ == old(s)@.drop_last(),
{
    s.pop()
}

/// What handling one action tells the loop to do next.
#[derive(Debug, PartialEq, Eq)]
pub enum Step {
    /// Keep going: repaint and wait for the next key.
    Stay,
    /// Stop and print this line.
    Emit(String),
    /// Stop without printing anything.
    Quit,
}

/// `sel` brought into the positions of a view of `n` lines; 0 for an empty view.
pub open spec fn clamp_index(sel: int, n: int) -> int {
    if n <= 0 {
        0
    } else if sel >= n {
        n - 1
    } else {
        sel
    }
}

/// The query after `a`: a typed character is appended, Backspace drops the
/// last character if there is one.
pub open spec fn next_query(q: Seq<char>, a: Action) -> Seq<char> {
    match a {
        Action::InsertChar(c) => q.push(c),
        Action::Backspace => if q.len() > 0 {
            q.drop_last()
        } else {
            q
        },
        _ => q,
    }
}

/// The selection after `a`. Moving down stops at the last line of the view
/// that is on screen, moving up stops at the first. After an edit of the
/// query the selection is brought into the new view.
pub open spec fn next_selected(lines: Seq<Seq<char>>, q: Seq<char>, sel: int, a: Action) -> int {
    match a {
        Action::MoveDown => clamp_index(sel + 1, filtered(lines, q).len() as int),
        Action::MoveUp => if sel > 0 {
            sel - 1
        } else {
            sel
        },
        Action::InsertChar(_) => clamp_index(sel, filtered(lines, next_query(q, a)).len() as int),
        Action::Backspace => clamp_index(sel, filtered(lines, next_query(q, a)).len() as int),
        _ => sel,
    }
}

/// `sel` is a position of a view of `n` lines, or 0 when the view is empty.
pub open spec fn in_view(sel: int, n: int) -> bool {
    if n > 0 {
        0 <= sel < n
    } else {
        sel == 0
    }
}

/// The step that `a` yields on a view and a selection: Enter prints the
/// selected line of the view, if the view has one there, and goes on
/// otherwise; Escape quits; every other action goes on.
pub open spec fn step_spec(r: Step, view: Seq<Seq<char>>, sel: int, a: Action) -> bool {
    match a {
        Action::Confirm => match r {
            Step::Emit(s) => 0 <= sel < view.len() && s@ == view[sel],
            Step::Stay => !(0 <= sel < view.len()),
            Step::Quit => false,
        },
        Action::Quit => r is Quit,
        _ => r is Stay,
    }
}

/// The state of an interactive selection: the lines to pick from, the query
/// typed so far and the selected position in the lines that match it.
pub struct Picker {
    lines: Vec<String>,
    query: String,
    selected: usize,
}

impl Picker {
    /// The lines to pick from.
    pub closed spec fn lines_spec(&self) -> Seq<Seq<char>> {
        self.lines.deep_view()
    }

    /// The query typed so far.
    pub closed spec fn query_spec(&self) -> Seq<char> {
        self.query@
    }

    /// The selected position in the current view.
    pub closed spec fn selected_spec(&self) -> int {
        self.selected as int
    }

    /// The lines that match the query, in their original order.
    pub open spec fn view_spec(&self) -> Seq<Seq<char>> {
        filtered(self.lines_spec(), self.query_spec())
    }

    /// The selection always lies in the view, and is 0 when the view is empty.
    #[verifier::type_invariant]
    spec fn selection_in_view(&self) -> bool {
        self.selected as int == clamp_index(
            self.selected as int,
            filtered(self.lines.deep_view(), self.query@).len() as int,
        )
    }

    /// A picker over `lines` with an empty query and the first line selected.
    pub fn new(lines: Vec<String>) -> (p: Picker)
        ensures
            p.lines_spec() == lines.deep_view(),
            p.query_spec() == Seq::<char>::empty(),
            p.selected_spec() == 0,
            in_view(p.selected_spec(), p.view_spec().len() as int),
    {
        Picker { lines, query: String::new(), selected: 0 }
    }

    /// The query typed so far.
    pub fn query(&self) -> (r: String)
        ensures
            r@ == self.query_spec(),
    {
        self.query.clone()
    }

    /// The selected position in the current view.
    pub fn selected(&self) -> (r: usize)
        ensures
            r as int == self.selected_spec(),
            in_view(r as int, self.view_spec().len() as int),
    {
        proof {
            use_type_invariant(self);
        }
        self.selected
    }

    /// The lines that match the query, in their original order.
    pub fn view(&self) -> (r: Vec<String>)
        ensures
            r.deep_view() == self.view_spec(),
    {
        filter_lines(&self.lines, self.query.as_str())
    }

    /// The repaint of the current state, for a region that starts at row
    /// `origin` of a terminal `cols` wide.
    pub fn render(&self, origin: u16, cols: u16) -> (f: Frame)
        ensures
            frame_spec(
                f,
                self.view_spec(),
                self.query_spec(),
                self.selected_spec(),
                origin as int,
                cols as int,
            ),
    {
        let view = filter_lines(&self.lines, self.query.as_str());
        build_frame(&view, self.query.as_str(), self.selected, origin, cols)
    }

    /// Replaces the query by `q` and brings the selection into its view.
    fn set_query(&mut self, q: String)
        ensures
            final(self).lines_spec() == old(self).lines_spec(),
            final(self).query_spec() == q@,
            final(self).selected_spec() == clamp_index(
                old(self).selected_spec(),
                filtered(old(self).lines_spec(), q@).len() as int,
            ),
    {
        let sel = self.selected;
        self.selected = 0;
        self.query = q;
        let n = filter_lines(&self.lines, self.query.as_str()).len();
        if n == 0 {
            self.selected = 0;
        } else if sel >= n {
            self.selected = n - 1;
        } else {
            self.selected = sel;
        }
    }

    /// Applies one action to the state and says what the loop does next.
    pub fn handle(&mut self, action: Action) -> (r: Step)
        ensures
            final(self).lines_spec() == old(self).lines_spec(),
            final(self).query_spec() == next_query(old(self).query_spec(), action),
            final(self).selected_spec() == next_selected(
                old(self).lines_spec(),
                old(self).query_spec(),
                old(self).selected_spec(),
                action,
            ),
            step_spec(r, old(self).view_spec(), old(self).selected_spec(), action),
            in_view(final(self).selected_spec(), final(self).view_spec().len() as int),
            action == Action::Backspace && old(self).query_spec().len() == 0
                ==> final(self).query_spec() == old(self).query_spec()
                && final(self).selected_spec() == old(self).selected_spec(),
    {
        proof {
            use_type_invariant(&*self);
        }
        match action {
            Action::MoveDown => {
                let n = filter_lines(&self.lines, self.query.as_str()).len();
                if n > 0 && self.selected + 1 < n {
                    self.selected = self.selected + 1;
                }
                Step::Stay
            },
            Action::MoveUp => {
                if self.selected > 0 {
                    self.selected = self.selected - 1;
                }
                Step::Stay
            },
            Action::InsertChar(c) => {
                let mut q = self.query.clone();
                push_char(&mut q, c);
                self.set_query(q);
                Step::Stay
            },
            Action::Backspace => {
                let mut q = self.query.clone();
                let _ = pop_char(&mut q);
                self.set_query(q);
                Step::Stay
            },
            Action::Confirm => {
                let view = filter_lines(&self.lines, self.query.as_str());
                if self.selected < view.len() {
                    let line = view[self.selected].clone();
                    Step::Emit(line)
                } else {
                    Step::Stay
                }
            },
            Action::Quit => Step::Quit,
            Action::Ignored => Step::Stay,
        }
    }
}

} // verus!
