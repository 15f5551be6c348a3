use vstd::prelude::*;

use crate::document::Document;
use crate::document::doc_wf;
use crate::document::row_len_at;
use crate::document::spec_doc_delete;
use crate::document::spec_doc_insert;
use crate::key::Key;
use crate::key::Size;
use crate::position::Position;
use crate::row::spec_render;
use crate::screen::message_line;
use crate::screen::spec_message_line;
use crate::screen::spec_status_line;
use crate::screen::spec_welcome;
use crate::screen::status_line;
use crate::screen::welcome_line;

verus! {

/// What terminal row `r` shows: a row of the buffer when one is visible
/// there, the centered welcome banner on an empty buffer a third of the
/// way down, and a `~` on every other line.
pub open spec fn spec_screen_row(
    d: Seq<Seq<char>>,
    ox: int,
    oy: int,
    r: int,
    banner: Seq<char>,
    w: int,
    h: int,
) -> Seq<char> {
    if 0 <= r + oy < d.len() {
        spec_render(d[r + oy], ox, ox + w)
    } else if d.len() == 0 && r == h / 3 {
        spec_welcome(banner, w)
    } else {
        seq!['~']
    }
}

/// A legal caret position: `y` may sit on any row or on the virtual
/// append row just past the last, and `x` never sits past the end of its
/// row (the append row has width 0).
pub open spec fn cursor_ok(d: Seq<Seq<char>>, x: int, y: int) -> bool {
    &&& 0 <= y <= d.len()
    &&& 0 <= x <= row_len_at(d, y)
}

/// Where the caret lands when `key` moves it from `(x, y)` over buffer
/// `d`, with `h` the page height. Left and Right wrap across line ends;
/// afterwards `x` is clamped down to the width of the row it landed on.
pub open spec fn spec_move(d: Seq<Seq<char>>, x: int, y: int, key: Key, h: int) -> (int, int) {
    let rows = d.len() as int;
    let moved = match key {
        Key::Up => (x, if y >= 1 { y - 1 } else { 0 }),
        Key::Down => if y < rows { (x, y + 1) } else { (x, y) },
        Key::Left => if x > 0 {
            (x - 1, y)
        } else if y > 0 {
            (row_len_at(d, y - 1), y - 1)
        } else {
            (x, y)
        },
        Key::Right => if x < row_len_at(d, y) {
            (x + 1, y)
        } else if y < rows {
            (0, y + 1)
        } else {
            (x, y)
        },
        Key::PageUp => (x, if y >= h { y - h } else { 0 }),
        Key::PageDown => (x, if y + h <= rows { y + h } else { rows }),
        Key::Home => (0, y),
        Key::End => (row_len_at(d, y), y),
        _ => (x, y),
    };
    let w = row_len_at(d, moved.1);
    (if moved.0 <= w { moved.0 } else { w }, moved.1)
}

/// Where the viewport's top-left corner moves so that the caret at
/// `cursor` is visible in a `w` by `h` window: each coordinate is pulled
/// back to the caret or forward until the caret is on the last visible
/// cell, and left alone when the caret is already visible.
pub open spec fn spec_scroll(cursor: (int, int), offset: (int, int), w: int, h: int) -> (
    int,
    int,
) {
    let noy = if cursor.1 < offset.1 {
        cursor.1
    } else if cursor.1 >= offset.1 + h {
        cursor.1 - h + 1
    } else {
        offset.1
    };
    let nox = if cursor.0 < offset.0 {
        cursor.0
    } else if cursor.0 >= offset.0 + w {
        cursor.0 - w + 1
    } else {
        offset.0
    };
    (nox, noy)
}

/// The whole editor step for one keypress: what the buffer, caret,
/// viewport offset and quit flag become. `Ctrl-C` asks to quit; a scalar
/// inserts at the caret and moves right; Backspace anywhere but the
/// origin moves left and deletes there; Delete deletes at the caret; the
/// navigation keys move the caret; any other key does nothing. The
/// viewport then follows the caret.
pub open spec fn spec_keypress(
    d: Seq<Seq<char>>,
    cursor: (int, int),
    offset: (int, int),
    quit: bool,
    key: Key,
    w: int,
    h: int,
) -> (Seq<Seq<char>>, (int, int), (int, int), bool) {
    let x = cursor.0;
    let y = cursor.1;
    let step = match key {
        Key::Ctrl(c) => if c == 'c' {
            (d, cursor, true)
        } else {
            (d, cursor, quit)
        },
        Key::Char(c) => {
            let d2 = spec_doc_insert(d, x, y, c);
            (d2, spec_move(d2, x, y, Key::Right, h), quit)
        },
        Key::Delete => (spec_doc_delete(d, x, y), cursor, quit),
        Key::Backspace => if x > 0 || y > 0 {
            let c2 = spec_move(d, x, y, Key::Left, h);
            (spec_doc_delete(d, c2.0, c2.1), c2, quit)
        } else {
            (d, cursor, quit)
        },
        Key::Up | Key::Down | Key::Left | Key::Right | Key::PageUp | Key::PageDown | Key::Home
            | Key::End => (d, spec_move(d, x, y, key, h), quit),
        _ => (d, cursor, quit),
    };
    (step.0, step.1, spec_scroll(step.1, offset, w, h), step.2)
}

/// Moving the caret never leaves it past the end of its row, and from a
/// legal position it lands on a legal position.
pub proof fn lemma_move_cursor_ok(d: Seq<Seq<char>>, x: int, y: int, key: Key, h: int)
    requires
        h >= 0,
    ensures
        spec_move(d, x, y, key, h).0 <= row_len_at(d, spec_move(d, x, y, key, h).1),
        cursor_ok(d, x, y) ==> cursor_ok(d, spec_move(d, x, y, key, h).0, spec_move(
            d,
            x,
            y,
            key,
            h,
        ).1),
{
}

/// One keypress keeps the buffer free of line terminators and the caret
/// on a legal position.
pub proof fn lemma_keypress_wf(
    d: Seq<Seq<char>>,
    cursor: (int, int),
    offset: (int, int),
    quit: bool,
    key: Key,
    w: int,
    h: int,
)
    requires
        doc_wf(d),
        cursor_ok(d, cursor.0, cursor.1),
        h >= 0,
    ensures
        doc_wf(spec_keypress(d, cursor, offset, quit, key, w, h).0),
        cursor_ok(
            spec_keypress(d, cursor, offset, quit, key, w, h).0,
            spec_keypress(d, cursor, offset, quit, key, w, h).1.0,
            spec_keypress(d, cursor, offset, quit, key, w, h).1.1,
        ),
{
    let x = cursor.0;
    let y = cursor.1;
    match key {
        Key::Char(c) => {
            crate::document::lemma_insert_preserves_wf(d, x, y, c);
            let d2 = spec_doc_insert(d, x, y, c);
            assert(d2.len() >= d.len());
            assert(cursor_ok(d2, x, y));
            lemma_move_cursor_ok(d2, x, y, Key::Right, h);
        },
        Key::Delete => {
            crate::document::lemma_delete_preserves_wf(d, x, y);
            let d2 = spec_doc_delete(d, x, y);
            assert(cursor_ok(d2, x, y));
        },
        Key::Backspace => {
            if x > 0 || y > 0 {
                lemma_move_cursor_ok(d, x, y, Key::Left, h);
                let c2 = spec_move(d, x, y, Key::Left, h);
                crate::document::lemma_delete_preserves_wf(d, c2.0, c2.1);
                let d2 = spec_doc_delete(d, c2.0, c2.1);
                assert(cursor_ok(d2, c2.0, c2.1));
            }
        },
        Key::Up | Key::Down | Key::Left | Key::Right | Key::PageUp | Key::PageDown | Key::Home
            | Key::End => {
            lemma_move_cursor_ok(d, x, y, key, h);
        },
        _ => {},
    }
}

/// The editor's state: the buffer, the caret, the viewport offset, the
/// transient status message, and the quit flag. Everything the frame
/// shows is a pure function of this state; the terminal itself lives
/// outside.
pub struct Editor {
    should_quit: bool,
    document: Document,
    cursor_position: Position,
    offset: Position,
    status_text: Vec<char>,
    status_time: u64,
}

impl Editor {
    /// The buffer's rows.
    pub closed spec fn spec_doc(&self) -> Seq<Seq<char>> {
        self.document@
    }

    /// The buffer's file name, if it has one.
    pub closed spec fn spec_file_name(&self) -> Option<Seq<char>> {
        self.document.spec_file_name()
    }

    /// The caret position.
    pub closed spec fn spec_cursor(&self) -> (int, int) {
        (self.cursor_position.x as int, self.cursor_position.y as int)
    }

    /// The viewport offset.
    pub closed spec fn spec_offset(&self) -> (int, int) {
        (self.offset.x as int, self.offset.y as int)
    }

    /// Whether a quit was requested.
    pub closed spec fn spec_quit(&self) -> bool {
        self.should_quit
    }

    /// The status message text.
    pub closed spec fn spec_message(&self) -> Seq<char> {
        self.status_text@
    }

    /// When the status message was set.
    pub closed spec fn spec_message_time(&self) -> u64 {
        self.status_time
    }

    /// A healthy editor: no row holds a line terminator and the caret
    /// sits on a legal position.
    pub open spec fn wf(&self) -> bool {
        &&& doc_wf(self.spec_doc())
        &&& cursor_ok(self.spec_doc(), self.spec_cursor().0, self.spec_cursor().1)
    }

    /// A fresh editor over `document`, caret and viewport at the origin,
    /// showing `message` stamped with the time `now` (in seconds).
    pub fn new(document: Document, message: Vec<char>, now: u64) -> (e: Editor)
        ensures
            e.spec_doc() == document@,
            e.spec_file_name() == document.spec_file_name(),
            e.spec_cursor() == (0int, 0int),
            e.spec_offset() == (0int, 0int),
            !e.spec_quit(),
            e.spec_message() == message@,
            e.spec_message_time() == now,
            doc_wf(document@) ==> e.wf(),
    {
        Editor {
            should_quit: false,
            document,
            cursor_position: Position { x: 0, y: 0 },
            offset: Position { x: 0, y: 0 },
            status_text: message,
            status_time: now,
        }
    }

    /// The buffer.
    pub fn document(&self) -> (d: &Document)
        ensures
            d@ == self.spec_doc(),
            d.spec_file_name() == self.spec_file_name(),
    {
        &self.document
    }

    /// The caret position.
    pub fn cursor_position(&self) -> (p: Position)
        ensures
            (p.x as int, p.y as int) == self.spec_cursor(),
    {
        self.cursor_position
    }

    /// The viewport offset.
    pub fn offset(&self) -> (p: Position)
        ensures
            (p.x as int, p.y as int) == self.spec_offset(),
    {
        self.offset
    }

    /// Whether a quit was requested.
    pub fn should_quit(&self) -> (b: bool)
        ensures
            b == self.spec_quit(),
    {
        self.should_quit
    }

    /// Move the caret as `key` asks, using `size.height` as the page
    /// stride, and clamp it to the end of the row it lands on. The
    /// buffer, viewport and message stay as they are.
    pub fn move_cursor(&mut self, key: Key, size: &Size)
        ensures
            final(self).spec_cursor() == spec_move(
                old(self).spec_doc(),
                old(self).spec_cursor().0,
                old(self).spec_cursor().1,
                key,
                size.height as int,
            ),
            final(self).spec_doc() == old(self).spec_doc(),
            final(self).spec_file_name() == old(self).spec_file_name(),
            final(self).spec_offset() == old(self).spec_offset(),
            final(self).spec_quit() == old(self).spec_quit(),
            final(self).spec_message() == old(self).spec_message(),
            final(self).spec_message_time() == old(self).spec_message_time(),
            final(self).spec_cursor().0 <= row_len_at(
                final(self).spec_doc(),
                final(self).spec_cursor().1,
            ),
            old(self).wf() ==> final(self).wf(),
    {
        proof {
            lemma_move_cursor_ok(
                self.spec_doc(),
                self.spec_cursor().0,
                self.spec_cursor().1,
                key,
                size.height as int,
            );
        }
        let mut x = self.cursor_position.x;
        let mut y = self.cursor_position.y;
        let height = size.height as usize;
        let rows = self.document.len();
        match key {
            Key::Up => {
                if y > 0 {
                    y = y - 1;
                }
            },
            Key::Down => {
                if y < rows {
                    y = y + 1;
                }
            },
            Key::Left => {
                if x > 0 {
                    x = x - 1;
                } else if y > 0 {
                    y = y - 1;
                    x = self.document.row_len(y);
                }
            },
            Key::Right => {
                let w = self.document.row_len(y);
                if x < w {
                    x = x + 1;
                } else if y < rows {
                    y = y + 1;
                    x = 0;
                }
            },
            Key::PageUp => {
                y = if y >= height {
                    y - height
                } else {
                    0
                };
            },
            Key::PageDown => {
                y = if y >= rows {
                    rows
                } else if rows - y > height {
                    y + height
                } else {
                    rows
                };
            },
            Key::Home => {
                x = 0;
            },
            Key::End => {
                x = self.document.row_len(y);
            },
            _ => {},
        }
        let w = self.document.row_len(y);
        if x > w {
            x = w;
        }
        self.cursor_position = Position { x, y };
    }

    /// Pull the viewport after the caret so the caret is visible in a
    /// window of `size`. Nothing else changes; afterwards the caret lies
    /// inside the `size.width` by `size.height` window at the offset.
    pub fn scroll(&mut self, size: &Size)
        requires
            size.width >= 1,
            size.height >= 1,
        ensures
            final(self).spec_offset() == spec_scroll(
                old(self).spec_cursor(),
                old(self).spec_offset(),
                size.width as int,
                size.height as int,
            ),
            final(self).spec_doc() == old(self).spec_doc(),
            final(self).spec_file_name() == old(self).spec_file_name(),
            final(self).spec_cursor() == old(self).spec_cursor(),
            final(self).spec_quit() == old(self).spec_quit(),
            final(self).spec_message() == old(self).spec_message(),
            final(self).spec_message_time() == old(self).spec_message_time(),
            final(self).spec_offset().0 <= final(self).spec_cursor().0,
            final(self).spec_cursor().0 < final(self).spec_offset().0 + size.width,
            final(self).spec_offset().1 <= final(self).spec_cursor().1,
            final(self).spec_cursor().1 < final(self).spec_offset().1 + size.height,
    {
        let w = size.width as usize;
        let h = size.height as usize;
        let x = self.cursor_position.x;
        let y = self.cursor_position.y;
        let mut ox = self.offset.x;
        let mut oy = self.offset.y;
        if y < oy {
            oy = y;
        } else if y - oy >= h {
            oy = y - h + 1;
        }
        if x < ox {
            ox = x;
        } else if x - ox >= w {
            ox = x - w + 1;
        }
        self.offset = Position { x: ox, y: oy };
    }

    /// Handle one keypress: edit or navigate as the key asks, then pull
    /// the viewport after the caret. A healthy editor stays healthy, and
    /// the caret ends inside the viewport window.
    pub fn process_keypress(&mut self, key: Key, size: &Size)
        requires
            size.width >= 1,
            size.height >= 1,
        ensures
            (
                final(self).spec_doc(),
                final(self).spec_cursor(),
                final(self).spec_offset(),
                final(self).spec_quit(),
            ) == spec_keypress(
                old(self).spec_doc(),
                old(self).spec_cursor(),
                old(self).spec_offset(),
                old(self).spec_quit(),
                key,
                size.width as int,
                size.height as int,
            ),
            final(self).spec_file_name() == old(self).spec_file_name(),
            final(self).spec_message() == old(self).spec_message(),
            final(self).spec_message_time() == old(self).spec_message_time(),
            old(self).wf() ==> final(self).wf(),
            final(self).spec_offset().0 <= final(self).spec_cursor().0,
            final(self).spec_cursor().0 < final(self).spec_offset().0 + size.width,
            final(self).spec_offset().1 <= final(self).spec_cursor().1,
            final(self).spec_cursor().1 < final(self).spec_offset().1 + size.height,
    {
        proof {
            if old(self).wf() {
                lemma_keypress_wf(
                    self.spec_doc(),
                    self.spec_cursor(),
                    self.spec_offset(),
                    self.spec_quit(),
                    key,
                    size.width as int,
                    size.height as int,
                );
            }
        }
        match key {
            Key::Ctrl(c) => {
                if c == 'c' {
                    self.should_quit = true;
                }
            },
            Key::Char(c) => {
                let at = self.cursor_position;
                self.document.insert(&at, c);
                self.move_cursor(Key::Right, size);
            },
            Key::Delete => {
                let at = self.cursor_position;
                self.document.delete(&at);
            },
            Key::Backspace => {
                if self.cursor_position.x > 0 || self.cursor_position.y > 0 {
                    self.move_cursor(Key::Left, size);
                    let at = self.cursor_position;
                    self.document.delete(&at);
                }
            },
            Key::Up | Key::Down | Key::Left | Key::Right | Key::PageUp | Key::PageDown
                | Key::Home | Key::End => {
                self.move_cursor(key, size);
            },
            _ => {},
        }
        self.scroll(size);
    }

    /// The text of terminal row `r` of the frame: a visible buffer row,
    /// the welcome banner on an empty buffer a third of the way down, or
    /// a `~`.
    pub fn screen_row(&self, r: usize, size: &Size, banner: &Vec<char>) -> (line: Vec<char>)
        ensures
            line@ == spec_screen_row(
                self.spec_doc(),
                self.spec_offset().0,
                self.spec_offset().1,
                r as int,
                banner@,
                size.width as int,
                size.height as int,
            ),
    {
        let w = size.width as usize;
        let ox = self.offset.x;
        let oy = self.offset.y;
        let dlen = self.document.len();
        if oy < dlen && r < dlen - oy {
            let row = self.document.row(oy + r).unwrap();
            let rl = row.len();
            let end = ox.saturating_add(w);
            let line = row.render(ox, end);
            proof {
                let s = self.spec_doc()[r + oy];
                assert(s.len() <= usize::MAX);
                assert(spec_render(s, ox as int, end as int) == spec_render(
                    s,
                    ox as int,
                    ox + w,
                ));
            }
            line
        } else if dlen == 0 && r == (size.height as usize) / 3 {
            welcome_line(banner, w)
        } else {
            let mut line: Vec<char> = Vec::new();
            line.push('~');
            proof {
                assert(line@ =~= seq!['~']);
            }
            line
        }
    }

    /// The status bar of the frame: exactly `width` cells.
    pub fn status_bar(&self, width: usize) -> (line: Vec<char>)
        requires
            self.spec_cursor().1 < usize::MAX,
        ensures
            line@ == spec_status_line(
                self.spec_file_name(),
                self.spec_doc().len() as int,
                self.spec_cursor().1,
                width as int,
            ),
            line@.len() == width,
    {
        status_line(
            self.document.file_name(),
            self.document.len(),
            self.cursor_position.y,
            width,
        )
    }

    /// The message bar of the frame at time `now` (in seconds): the
    /// status message while it is younger than five seconds, blank
    /// afterwards.
    pub fn message_bar(&self, width: usize, now: u64) -> (line: Vec<char>)
        ensures
            line@ == spec_message_line(
                self.spec_message(),
                self.spec_message_time(),
                now,
                width as int,
            ),
    {
        message_line(&self.status_text, self.status_time, now, width)
    }

    /// Where the hardware caret sits inside the viewport: the caret
    /// position less the offset, saturating at zero.
    pub fn cursor_screen_position(&self) -> (p: Position)
        ensures
            p.x as int == if self.spec_cursor().0 >= self.spec_offset().0 {
                self.spec_cursor().0 - self.spec_offset().0
            } else {
                0
            },
            p.y as int == if self.spec_cursor().1 >= self.spec_offset().1 {
                self.spec_cursor().1 - self.spec_offset().1
            } else {
                0
            },
    {
        Position {
            x: self.cursor_position.x.saturating_sub(self.offset.x),
            y: self.cursor_position.y.saturating_sub(self.offset.y),
        }
    }
}

} // verus!
