//! The editor state: the buffer of lines, the cursor and the viewport.

use std::path::PathBuf;
use vstd::prelude::*;

use crate::text::{
    join_lines, join_rows, lemma_text_lines_no_newline, lines_view, no_newline, split_lines,
    text_lines,
};

verus! {

/// std's `PathBuf`, carried through opaquely as the path of the backing file.
#[verifier::external_type_specification]
#[verifier::external_body]
pub struct ExPathBuf(PathBuf);

/// The abstract state of an editor.
pub struct EditorModel {
    /// The lines of the buffer, top to bottom.
    pub lines: Seq<Seq<char>>,
    /// The cursor's column: an index into the current line, up to its length.
    pub col: nat,
    /// The cursor's row: an index into `lines`, or 0 when there are none.
    pub row: nat,
    /// The viewport's width.
    pub width: nat,
    /// The viewport's height; the cursor never moves down past its last row.
    pub height: nat,
    /// The file that backs the buffer, once one is known.
    pub editing: Option<PathBuf>,
}

impl EditorModel {
    /// No line holds a newline, and the cursor stands on existing text.
    pub open spec fn wf(self) -> bool {
        &&& forall|i: int| 0 <= i < self.lines.len() ==> no_newline(#[trigger] self.lines[i])
        &&& if self.lines.len() == 0 {
            self.row == 0 && self.col == 0
        } else {
            self.row < self.lines.len() && self.col <= self.lines[self.row as int].len()
        }
    }

    /// The buffer as editing sees it: one empty line where there is none.
    pub open spec fn edit_lines(self) -> Seq<Seq<char>> {
        if self.lines.len() == 0 {
            seq![Seq::empty()]
        } else {
            self.lines
        }
    }

    /// `c` inserted at the cursor, which then moves right past it.
    pub open spec fn insert_char(self, c: char) -> EditorModel {
        let ls = self.edit_lines();
        EditorModel {
            lines: ls.update(self.row as int, ls[self.row as int].insert(self.col as int, c)),
            col: self.col + 1,
            ..self
        }
    }

    /// The current line cut at the cursor: the part before it stays, the part
    /// from it on becomes the next line, and the cursor goes to that line's end.
    pub open spec fn split_line(self) -> EditorModel {
        let ls = self.edit_lines();
        let line = ls[self.row as int];
        EditorModel {
            lines: ls.update(self.row as int, line.take(self.col as int)).insert(
                self.row + 1 as int,
                line.skip(self.col as int),
            ),
            row: self.row + 1,
            col: (line.len() - self.col) as nat,
            ..self
        }
    }

    /// The character left of the cursor removed; nothing at the start of a line.
    pub open spec fn delete_before(self) -> EditorModel {
        if self.lines.len() == 0 || self.col == 0 {
            self
        } else {
            EditorModel {
                lines: self.lines.update(
                    self.row as int,
                    self.lines[self.row as int].remove(self.col - 1),
                ),
                col: (self.col - 1) as nat,
                ..self
            }
        }
    }

    /// One row up, to the end of that line; nothing on the first row.
    pub open spec fn move_up(self) -> EditorModel {
        if self.lines.len() == 0 || self.row == 0 {
            self
        } else {
            EditorModel {
                row: (self.row - 1) as nat,
                col: self.lines[self.row - 1].len(),
                ..self
            }
        }
    }

    /// One row down, to the end of that line; nothing on the last line or on
    /// the viewport's last row.
    pub open spec fn move_down(self) -> EditorModel {
        if self.lines.len() == 0 || self.row + 1 >= self.lines.len() || self.row + 1
            >= self.height {
            self
        } else {
            EditorModel { row: self.row + 1, col: self.lines[self.row + 1 as int].len(), ..self }
        }
    }

    /// One column left; nothing at the start of the line.
    pub open spec fn move_left(self) -> EditorModel {
        if self.col == 0 {
            self
        } else {
            EditorModel { col: (self.col - 1) as nat, ..self }
        }
    }

    /// One column right; nothing at the end of the line.
    pub open spec fn move_right(self) -> EditorModel {
        if self.col >= self.current_line().len() {
            self
        } else {
            EditorModel { col: self.col + 1, ..self }
        }
    }

    /// The buffer replaced by the lines of `text`, the cursor left where it is.
    pub open spec fn load(self, text: Seq<char>) -> EditorModel {
        EditorModel { lines: text_lines(text), ..self }
    }

    /// The viewport resized to `width` by `height`.
    pub open spec fn resize(self, width: nat, height: nat) -> EditorModel {
        EditorModel { width, height, ..self }
    }

    /// `path` recorded as the backing file unless one already is.
    pub open spec fn associate(self, path: PathBuf) -> EditorModel {
        EditorModel {
            editing: if self.editing is None {
                Some(path)
            } else {
                self.editing
            },
            ..self
        }
    }

    /// The line the cursor is on; empty when the buffer is.
    pub open spec fn current_line(self) -> Seq<char> {
        if self.lines.len() == 0 {
            Seq::empty()
        } else {
            self.lines[self.row as int]
        }
    }
}

/// A cursor movement.
pub enum Motion {
    Left,
    Right,
    Up,
    Down,
}

impl EditorModel {
    /// The state after one movement.
    pub open spec fn step(self, m: Motion) -> EditorModel {
        match m {
            Motion::Left => self.move_left(),
            Motion::Right => self.move_right(),
            Motion::Up => self.move_up(),
            Motion::Down => self.move_down(),
        }
    }

    /// The state after the movements of `ms`, in order.
    pub open spec fn walk(self, ms: Seq<Motion>) -> EditorModel
        decreases ms.len(),
    {
        if ms.len() == 0 {
            self
        } else {
            self.step(ms[0]).walk(ms.drop_first())
        }
    }
}

/// A movement keeps the invariant, the lines and the viewport.
pub proof fn lemma_step(m: EditorModel, mv: Motion)
    requires
        m.wf(),
    ensures
        m.step(mv).wf(),
        m.step(mv).lines == m.lines,
        m.step(mv).height == m.height,
{
}

/// However the cursor is moved left and right, it stays on its row and its
/// column stays between 0 and the length of the current line.
pub proof fn lemma_horizontal_walk(m: EditorModel, ms: Seq<Motion>)
    requires
        m.wf(),
        forall|i: int| 0 <= i < ms.len() ==> (#[trigger] ms[i] is Left || ms[i] is Right),
    ensures
        m.walk(ms).wf(),
        m.walk(ms).lines == m.lines,
        m.walk(ms).row == m.row,
        m.walk(ms).col <= m.walk(ms).current_line().len(),
    decreases ms.len(),
{
    if ms.len() > 0 {
        let n = m.step(ms[0]);
        lemma_step(m, ms[0]);
        assert(n.row == m.row);
        let rest = ms.drop_first();
        assert forall|i: int| 0 <= i < rest.len() implies (#[trigger] rest[i] is Left
            || rest[i] is Right) by {
            assert(rest[i] == ms[i + 1]);
        }
        lemma_horizontal_walk(n, rest);
    }
}

/// However the cursor is moved up and down from a row in the viewport, its row
/// stays between 0 and both the last line and the viewport's last row.
pub proof fn lemma_vertical_walk(m: EditorModel, ms: Seq<Motion>)
    requires
        m.wf(),
        m.lines.len() > 0 ==> m.row < m.height,
        forall|i: int| 0 <= i < ms.len() ==> (#[trigger] ms[i] is Up || ms[i] is Down),
    ensures
        m.walk(ms).wf(),
        m.walk(ms).lines == m.lines,
        m.walk(ms).lines.len() == 0 ==> m.walk(ms).row == 0,
        m.walk(ms).lines.len() > 0 ==> m.walk(ms).row < m.lines.len() && m.walk(ms).row
            < m.height,
    decreases ms.len(),
{
    if ms.len() > 0 {
        let n = m.step(ms[0]);
        lemma_step(m, ms[0]);
        let rest = ms.drop_first();
        assert forall|i: int| 0 <= i < rest.len() implies (#[trigger] rest[i] is Up
            || rest[i] is Down) by {
            assert(rest[i] == ms[i + 1]);
        }
        lemma_vertical_walk(n, rest);
    }
}

/// Deleting right after inserting a character gives back the line and the
/// cursor as they were; on an empty buffer, an empty line is left.
pub proof fn lemma_insert_then_delete(m: EditorModel, c: char)
    requires
        m.wf(),
    ensures
        m.insert_char(c).delete_before().lines == m.edit_lines(),
        m.insert_char(c).delete_before().col == m.col,
        m.insert_char(c).delete_before().row == m.row,
        m.lines.len() > 0 ==> m.insert_char(c).delete_before() == m,
{
    let ls = m.edit_lines();
    let l = ls[m.row as int];
    assert(l.insert(m.col as int, c).remove(m.col as int) =~= l);
    assert(m.insert_char(c).delete_before().lines =~= ls);
}

/// Splitting a line loses and duplicates no character: the two lines it leaves
/// are, one after the other, the line that was cut.
pub proof fn lemma_split_keeps_characters(m: EditorModel)
    requires
        m.wf(),
    ensures
        m.split_line().lines.len() == m.edit_lines().len() + 1,
        m.split_line().lines[m.row as int] + m.split_line().lines[m.row + 1 as int] == m.current_line(),
        m.split_line().lines[m.row as int].len() + m.split_line().lines[m.row + 1 as int].len()
            == m.current_line().len(),
{
    let l = m.edit_lines()[m.row as int];
    assert(l.take(m.col as int) + l.skip(m.col as int) =~= l);
}

/// The editor: lines of text, a cursor (column, row) and a viewport.
pub struct EditorState {
    rows: Vec<Vec<char>>,
    x_pos: usize,
    y_pos: usize,
    term_w: u16,
    term_h: u16,
    editing: Option<PathBuf>,
}

impl View for EditorState {
    type V = EditorModel;

    closed spec fn view(&self) -> EditorModel {
        EditorModel {
            lines: lines_view(self.rows@),
            col: self.x_pos as nat,
            row: self.y_pos as nat,
            width: self.term_w as nat,
            height: self.term_h as nat,
            editing: self.editing,
        }
    }
}

impl EditorState {
    /// The invariant that every operation keeps.
    pub open spec fn wf(&self) -> bool {
        self@.wf()
    }

    /// An empty buffer, the cursor at (0, 0), a zero viewport and no file.
    pub fn new() -> (r: Self)
        ensures
            r.wf(),
            r@ == (EditorModel {
                lines: Seq::empty(),
                col: 0,
                row: 0,
                width: 0,
                height: 0,
                editing: None,
            }),
    {
        let r = EditorState {
            rows: Vec::new(),
            x_pos: 0,
            y_pos: 0,
            term_w: 0,
            term_h: 0,
            editing: None,
        };
        assert(r@.lines =~= Seq::empty());
        r
    }

    /// Replaces the buffer with the lines of `contents`. The cursor is expected
    /// at (0, 0), where it stays.
    pub fn add_file_contents(&mut self, contents: String)
        requires
            old(self).wf(),
            old(self)@.col == 0,
            old(self)@.row == 0,
        ensures
            final(self).wf(),
            final(self)@ == old(self)@.load(contents@),
    {
        self.rows = split_lines(contents.as_str());
        proof {
            lemma_text_lines_no_newline(contents@);
        }
    }

    /// The buffer as one text, with a newline between each two lines: what a
    /// save writes.
    pub fn to_text(&self) -> (r: Vec<char>)
        ensures
            r@ == join_lines(self@.lines),
    {
        join_rows(&self.rows)
    }

    /// Inserts `kc` at the cursor and moves the cursor right past it; on an
    /// empty buffer an empty line is made first.
    pub fn insert_at_cursor(&mut self, kc: char)
        requires
            old(self).wf(),
            kc != '\n',
        ensures
            final(self).wf(),
            final(self)@ == old(self)@.insert_char(kc),
    {
        if !self.has_content() {
            self.rows.push(Vec::new());
        }
        let y = self.y_pos;
        let x = self.x_pos;
        proof {
            assert(self@.lines =~= old(self)@.edit_lines());
            assert(self.rows@[y as int]@ == self@.lines[y as int]);
        }
        let ghost ls = self@.lines;
        self.rows[y].insert(x, kc);
        let len = self.rows[y].len();
        assert(x < len);
        self.x_pos = x + 1;
        proof {
            let l = ls[y as int];
            let nl = l.insert(x as int, kc);
            assert(self@.lines =~= ls.update(y as int, nl));
            assert forall|i: int| 0 <= i < self@.lines.len() implies no_newline(
                #[trigger] self@.lines[i],
            ) by {
                if i == y {
                    assert forall|j: int| 0 <= j < nl.len() implies nl[j] != '\n' by {
                        if j < x {
                            assert(nl[j] == l[j]);
                        } else if j > x {
                            assert(nl[j] == l[j - 1]);
                        }
                    }
                } else {
                    assert(self@.lines[i] == ls[i]);
                }
            }
        }
    }

    /// Cuts the current line at the cursor: what stands from the cursor on
    /// becomes a new line below, and the cursor moves to that line's end. On an
    /// empty buffer an empty line is made first.
    pub fn move_to_next_line(&mut self)
        requires
            old(self).wf(),
        ensures
            final(self).wf(),
            final(self)@ == old(self)@.split_line(),
    {
        if !self.has_content() {
            self.rows.push(Vec::new());
        }
        let y = self.y_pos;
        let x = self.x_pos;
        proof {
            assert(self@.lines =~= old(self)@.edit_lines());
            assert(self.rows@[y as int]@ == self@.lines[y as int]);
        }
        let ghost ls = self@.lines;
        let nrows = self.rows.len();
        assert(y < nrows);
        let right = self.rows[y].split_off(x);
        let n = right.len();
        self.rows.insert(y + 1, right);
        self.y_pos = y + 1;
        self.x_pos = n;
        proof {
            let l = ls[y as int];
            assert(self@.lines =~= ls.update(y as int, l.take(x as int)).insert(
                y + 1 as int,
                l.skip(x as int),
            ));
            assert forall|i: int| 0 <= i < self@.lines.len() implies no_newline(
                #[trigger] self@.lines[i],
            ) by {
                if i == y {
                    assert forall|j: int| 0 <= j < self@.lines[i].len() implies self@.lines[i][j]
                        != '\n' by {
                        assert(self@.lines[i][j] == l[j]);
                    }
                } else if i == y + 1 {
                    assert forall|j: int| 0 <= j < self@.lines[i].len() implies self@.lines[i][j]
                        != '\n' by {
                        assert(self@.lines[i][j] == l[j + x]);
                    }
                } else if i < y {
                    assert(self@.lines[i] == ls[i]);
                } else {
                    assert(self@.lines[i] == ls[i - 1]);
                }
            }
        }
    }

    /// Removes the character left of the cursor and moves the cursor onto its
    /// place; nothing happens on an empty buffer or at the start of a line.
    pub fn remove_at_cursor(&mut self)
        requires
            old(self).wf(),
        ensures
            final(self).wf(),
            final(self)@ == old(self)@.delete_before(),
    {
        if !self.has_content() || self.x_pos == 0 {
            return;
        }
        let y = self.y_pos;
        let x = self.x_pos;
        proof {
            assert(self.rows@[y as int]@ == self@.lines[y as int]);
        }
        if x == self.rows[y].len() {
            self.rows[y].pop();
        } else {
            self.rows[y].remove(x - 1);
        }
        self.x_pos = x - 1;
        proof {
            let m = old(self)@;
            let l = m.lines[y as int];
            assert(self@.lines =~= m.lines.update(y as int, l.remove(x - 1)));
            assert forall|i: int| 0 <= i < self@.lines.len() implies no_newline(
                #[trigger] self@.lines[i],
            ) by {
                if i == y {
                    assert forall|j: int| 0 <= j < self@.lines[i].len() implies self@.lines[i][j]
                        != '\n' by {
                        if j < x - 1 {
                            assert(self@.lines[i][j] == l[j]);
                        } else {
                            assert(self@.lines[i][j] == l[j + 1]);
                        }
                    }
                } else {
                    assert(self@.lines[i] == m.lines[i]);
                }
            }
        }
    }

    /// Moves the cursor one row up, to the end of that line; nothing happens on
    /// the first row.
    pub fn move_up(&mut self)
        requires
            old(self).wf(),
        ensures
            final(self).wf(),
            final(self)@ == old(self)@.move_up(),
    {
        if !self.has_content() || self.y_pos == 0 {
            return;
        }
        self.y_pos = self.y_pos - 1;
        self.x_pos = self.rows[self.y_pos].len();
    }

    /// Moves the cursor one row down, to the end of that line; nothing happens
    /// on the last line or on the viewport's last row.
    pub fn move_down(&mut self)
        requires
            old(self).wf(),
        ensures
            final(self).wf(),
            final(self)@ == old(self)@.move_down(),
    {
        if !self.has_content() || self.y_pos >= self.rows.len() - 1 || self.y_pos + 1
            >= self.term_h as usize {
            return;
        }
        self.y_pos = self.y_pos + 1;
        self.x_pos = self.rows[self.y_pos].len();
    }

    /// Moves the cursor one column right; nothing happens at the end of the line.
    pub fn move_right(&mut self)
        requires
            old(self).wf(),
        ensures
            final(self).wf(),
            final(self)@ == old(self)@.move_right(),
    {
        if !self.has_content() || self.x_pos >= self.rows[self.y_pos].len() {
            return;
        }
        self.x_pos = self.x_pos + 1;
    }

    /// Moves the cursor one column left; nothing happens at the start of the line.
    pub fn move_left(&mut self)
        requires
            old(self).wf(),
        ensures
            final(self).wf(),
            final(self)@ == old(self)@.move_left(),
    {
        if self.x_pos == 0 {
            return;
        }
        self.x_pos = self.x_pos - 1;
    }

    /// Records the viewport's new size.
    pub fn update_dimensions(&mut self, new_term_w: u16, new_term_h: u16)
        requires
            old(self).wf(),
        ensures
            final(self).wf(),
            final(self)@ == old(self)@.resize(new_term_w as nat, new_term_h as nat),
    {
        self.term_w = new_term_w;
        self.term_h = new_term_h;
    }

    /// Records `path` as the file that backs the buffer, unless one already is.
    pub fn update_editing(&mut self, path: PathBuf)
        requires
            old(self).wf(),
        ensures
            final(self).wf(),
            final(self)@ == old(self)@.associate(path),
    {
        if self.editing.is_none() {
            self.editing = Some(path);
        }
    }

    /// The file that backs the buffer, if one is recorded.
    pub fn get_editing(&self) -> (r: &Option<PathBuf>)
        ensures
            *r == self@.editing,
    {
        &self.editing
    }

    /// The lines of the buffer.
    pub fn get_rows(&self) -> (r: &Vec<Vec<char>>)
        ensures
            lines_view(r@) == self@.lines,
    {
        &self.rows
    }

    /// The cursor's column, as a terminal coordinate.
    pub fn get_x(&self) -> (r: u16)
        ensures
            r == self@.col as u16,
    {
        self.x_pos as u16
    }

    /// The cursor's row, as a terminal coordinate.
    pub fn get_y(&self) -> (r: u16)
        ensures
            r == self@.row as u16,
    {
        self.y_pos as u16
    }

    /// Whether the buffer holds at least one line.
    pub fn has_content(&self) -> (r: bool)
        ensures
            r == (self@.lines.len() > 0),
    {
        self.rows.len() != 0
    }
}

} // verus!
