use vstd::prelude::*;

use crate::position::Position;
use crate::row::Row;
use crate::row::row_text_wf;
use crate::row::spec_row_delete;
use crate::row::spec_row_insert;
use crate::row::spec_row_split;

verus! {

/// Every row of the buffer is free of line terminators.
pub open spec fn doc_wf(d: Seq<Seq<char>>) -> bool {
    forall|i: int| 0 <= i < d.len() ==> row_text_wf(d[i])
}

/// The width of row `y` in scalar values, and 0 at the virtual append row
/// `y == d.len()` (or anywhere outside the buffer).
pub open spec fn row_len_at(d: Seq<Seq<char>>, y: int) -> int {
    if 0 <= y < d.len() {
        d[y].len() as int
    } else {
        0
    }
}

/// The buffer after a newline is inserted at `(x, y)`: at the append row a
/// fresh empty row; inside the buffer, row `y` is cut at column `x` and the
/// tail becomes the row after it; past the append row nothing changes.
pub open spec fn spec_doc_insert_newline(d: Seq<Seq<char>>, x: int, y: int) -> Seq<Seq<char>> {
    if y == d.len() {
        d.push(Seq::empty())
    } else if 0 <= y < d.len() {
        let pieces = spec_row_split(d[y], x);
        d.update(y, pieces.0).insert(y + 1, pieces.1)
    } else {
        d
    }
}

/// The buffer after `c` is inserted at `(x, y)`. A newline splits the row;
/// a carriage return, which no row may hold, changes nothing; at the append
/// row a new one-scalar row is made; past the append row nothing changes.
pub open spec fn spec_doc_insert(d: Seq<Seq<char>>, x: int, y: int, c: char) -> Seq<Seq<char>> {
    if c == '\n' {
        spec_doc_insert_newline(d, x, y)
    } else if c == '\r' {
        d
    } else if y == d.len() {
        d.push(seq![c])
    } else if 0 <= y < d.len() {
        d.update(y, spec_row_insert(d[y], x, c))
    } else {
        d
    }
}

/// The buffer after a delete at `(x, y)`: at the exact end of a row that
/// has a successor, the successor is joined onto it; otherwise the scalar
/// value at column `x` of row `y` is removed; outside the buffer nothing
/// changes.
pub open spec fn spec_doc_delete(d: Seq<Seq<char>>, x: int, y: int) -> Seq<Seq<char>> {
    if 0 <= y < d.len() {
        if x == d[y].len() && y < d.len() - 1 {
            d.update(y, d[y] + d[y + 1]).remove(y + 1)
        } else {
            d.update(y, spec_row_delete(d[y], x))
        }
    } else {
        d
    }
}

/// Inserting any scalar keeps every row free of line terminators.
pub proof fn lemma_insert_preserves_wf(d: Seq<Seq<char>>, x: int, y: int, c: char)
    requires
        doc_wf(d),
    ensures
        doc_wf(spec_doc_insert(d, x, y, c)),
{
    if c == '\n' {
        lemma_insert_newline_preserves_wf(d, x, y);
    } else if c == '\r' {
    } else if y == d.len() {
        let d2 = spec_doc_insert(d, x, y, c);
        assert forall|i: int| 0 <= i < d2.len() implies row_text_wf(d2[i]) by {
            if i < d.len() {
                assert(row_text_wf(d[i]));
            } else {
                assert(d2[i] == seq![c]);
            }
        }
    } else if 0 <= y < d.len() {
        let d2 = spec_doc_insert(d, x, y, c);
        assert forall|i: int| 0 <= i < d2.len() implies row_text_wf(d2[i]) by {
            if i == y {
                let s = d[y];
                assert(row_text_wf(s));
                if 0 <= x < s.len() {
                    assert forall|j: int| 0 <= j < s.insert(x, c).len() implies s.insert(x, c)[j]
                        != '\n' && s.insert(x, c)[j] != '\r' by {
                        if j < x {
                            assert(s.insert(x, c)[j] == s[j]);
                        } else if j == x {
                            assert(s.insert(x, c)[j] == c);
                        } else {
                            assert(s.insert(x, c)[j] == s[j - 1]);
                        }
                    }
                }
            } else {
                assert(row_text_wf(d[i]));
            }
        }
    }
}

/// Splitting a row in two keeps every row free of line terminators.
pub proof fn lemma_insert_newline_preserves_wf(d: Seq<Seq<char>>, x: int, y: int)
    requires
        doc_wf(d),
    ensures
        doc_wf(spec_doc_insert_newline(d, x, y)),
{
    let d2 = spec_doc_insert_newline(d, x, y);
    if y == d.len() {
        assert forall|i: int| 0 <= i < d2.len() implies row_text_wf(d2[i]) by {
            if i < d.len() {
                assert(row_text_wf(d[i]));
            }
        }
    } else if 0 <= y < d.len() {
        let pieces = spec_row_split(d[y], x);
        assert(row_text_wf(d[y]));
        assert(row_text_wf(pieces.0));
        assert(row_text_wf(pieces.1));
        assert forall|i: int| 0 <= i < d2.len() implies row_text_wf(d2[i]) by {
            if i < y {
                assert(d2[i] == d[i]);
            } else if i == y {
                assert(d2[i] == pieces.0);
            } else if i == y + 1 {
                assert(d2[i] == pieces.1);
            } else {
                assert(d2[i] == d[i - 1]);
            }
        }
    }
}

/// Deleting, joining rows included, keeps every row free of line
/// terminators.
pub proof fn lemma_delete_preserves_wf(d: Seq<Seq<char>>, x: int, y: int)
    requires
        doc_wf(d),
    ensures
        doc_wf(spec_doc_delete(d, x, y)),
{
    let d2 = spec_doc_delete(d, x, y);
    if 0 <= y < d.len() {
        if x == d[y].len() && y < d.len() - 1 {
            assert(row_text_wf(d[y]));
            assert(row_text_wf(d[y + 1]));
            assert forall|i: int| 0 <= i < d2.len() implies row_text_wf(d2[i]) by {
                if i < y {
                    assert(d2[i] == d[i]);
                } else if i == y {
                    assert(d2[i] == d[y] + d[y + 1]);
                } else {
                    assert(d2[i] == d[i + 1]);
                    assert(row_text_wf(d[i + 1]));
                }
            }
        } else {
            assert forall|i: int| 0 <= i < d2.len() implies row_text_wf(d2[i]) by {
                if i == y {
                    assert(row_text_wf(d[y]));
                } else {
                    assert(d2[i] == d[i]);
                }
            }
        }
    }
}

/// A line with its terminator removed: at most one trailing carriage
/// return is stripped.
pub open spec fn strip_cr(line: Seq<char>) -> Seq<char> {
    if line.len() > 0 && line.last() == '\r' {
        line.drop_last()
    } else {
        line
    }
}

/// The index of the first newline in `s`, or `s.len()` when there is none.
pub open spec fn first_newline(s: Seq<char>) -> int
    decreases s.len(),
{
    if s.len() == 0 {
        0
    } else if s[0] == '\n' {
        0
    } else {
        1 + first_newline(s.skip(1))
    }
}

/// The rows a text loads as: split on `\n`, strip at most one trailing
/// `\r` from each piece, and discard the empty piece after a final `\n`.
pub open spec fn spec_lines(s: Seq<char>) -> Seq<Seq<char>>
    decreases s.len(),
{
    if s.len() == 0 {
        Seq::empty()
    } else {
        let i = first_newline(s);
        if 0 <= i < s.len() {
            seq![strip_cr(s.take(i))] + spec_lines(s.skip(i + 1))
        } else {
            seq![strip_cr(s)]
        }
    }
}

/// `first_newline` lies between 0 and the length of the text.
pub proof fn lemma_first_newline_bounds(s: Seq<char>)
    ensures
        0 <= first_newline(s) <= s.len(),
    decreases s.len(),
{
    if s.len() == 0 {
    } else if s[0] == '\n' {
    } else {
        lemma_first_newline_bounds(s.skip(1));
    }
}

/// `first_newline` is the unique index with no newline before it that is
/// either a newline or the end of the text.
pub proof fn lemma_first_newline_at(s: Seq<char>, k: int)
    requires
        0 <= k <= s.len(),
        forall|j: int| 0 <= j < k ==> s[j] != '\n',
        k < s.len() ==> s[k] == '\n',
    ensures
        first_newline(s) == k,
    decreases k,
{
    if k == 0 {
        if s.len() > 0 {
            assert(s[0] == '\n');
        }
    } else {
        assert(s[0] != '\n');
        let t = s.skip(1);
        assert forall|j: int| 0 <= j < k - 1 implies t[j] != '\n' by {
            assert(t[j] == s[j + 1]);
        }
        if k - 1 < t.len() {
            assert(t[k - 1] == s[k]);
        }
        lemma_first_newline_at(t, k - 1);
    }
}

/// Splitting off the first line: when the first newline of `s` sits at
/// `k`, the rows of `s` are the stripped prefix followed by the rows of
/// what comes after the newline.
pub proof fn lemma_lines_step(s: Seq<char>, k: int)
    requires
        0 <= k < s.len(),
        s[k] == '\n',
        forall|j: int| 0 <= j < k ==> s[j] != '\n',
    ensures
        spec_lines(s) == seq![strip_cr(s.take(k))] + spec_lines(s.skip(k + 1)),
{
    lemma_first_newline_at(s, k);
}

/// A nonempty text without any newline loads as one stripped row.
pub proof fn lemma_lines_last(s: Seq<char>)
    requires
        s.len() > 0,
        forall|j: int| 0 <= j < s.len() ==> s[j] != '\n',
    ensures
        spec_lines(s) == seq![strip_cr(s)],
{
    lemma_first_newline_at(s, s.len() as int);
}

/// True when every carriage return in the text is part of a line break:
/// right before a newline, or the very last scalar value.
pub open spec fn cr_only_at_line_breaks(s: Seq<char>) -> bool {
    forall|i: int| 0 <= i < s.len() && #[trigger] s[i] == '\r' ==> i == s.len() - 1 || s[i + 1]
        == '\n'
}

/// No loaded row ever holds a newline; and when every carriage return of
/// the text sits at a line break, no loaded row holds one either, so a
/// loaded buffer is well formed.
pub proof fn lemma_lines_wf(s: Seq<char>)
    requires
        cr_only_at_line_breaks(s),
    ensures
        doc_wf(spec_lines(s)),
    decreases s.len(),
{
    lemma_first_newline_bounds(s);
    if s.len() == 0 {
    } else {
        let k = first_newline(s);
        if 0 <= k < s.len() {
            assert forall|j: int| 0 <= j < k implies s[j] != '\n' by {
                lemma_first_newline_no_newline_before(s, j);
            }
            assert(s[k] == '\n') by {
                lemma_first_newline_hits(s);
            }
            let line = strip_cr(s.take(k));
            assert(row_text_wf(line)) by {
                lemma_stripped_line_wf(s, k);
            }
            let rest = s.skip(k + 1);
            assert(cr_only_at_line_breaks(rest)) by {
                assert forall|i: int|
                    0 <= i < rest.len() && #[trigger] rest[i] == '\r' implies i == rest.len() - 1
                    || rest[i + 1] == '\n' by {
                    assert(rest[i] == s[k + 1 + i]);
                    if i < rest.len() - 1 {
                        assert(rest[i + 1] == s[k + 1 + i + 1]);
                    }
                }
            }
            lemma_lines_wf(rest);
            assert forall|i: int|
                0 <= i < spec_lines(s).len() implies row_text_wf(spec_lines(s)[i]) by {
                if i == 0 {
                } else {
                    assert(spec_lines(s)[i] == spec_lines(rest)[i - 1]);
                }
            }
        } else {
            assert forall|j: int| 0 <= j < s.len() implies s[j] != '\n' by {
                lemma_first_newline_no_newline_before(s, j);
            }
            assert(row_text_wf(strip_cr(s))) by {
                lemma_stripped_tail_wf(s);
            }
        }
    }
}

/// Before `first_newline` there is no newline.
pub proof fn lemma_first_newline_no_newline_before(s: Seq<char>, j: int)
    requires
        0 <= j < first_newline(s),
        j < s.len(),
    ensures
        s[j] != '\n',
    decreases j,
{
    if s.len() == 0 {
    } else if s[0] == '\n' {
    } else {
        if j > 0 {
            lemma_first_newline_no_newline_before(s.skip(1), j - 1);
            assert(s.skip(1)[j - 1] == s[j]);
        }
    }
}

/// When `first_newline` lands inside the text, it lands on a newline.
pub proof fn lemma_first_newline_hits(s: Seq<char>)
    requires
        0 <= first_newline(s) < s.len(),
    ensures
        s[first_newline(s)] == '\n',
    decreases s.len(),
{
    if s.len() == 0 {
    } else if s[0] == '\n' {
    } else {
        lemma_first_newline_bounds(s.skip(1));
        lemma_first_newline_hits(s.skip(1));
        assert(s.skip(1)[first_newline(s.skip(1))] == s[1 + first_newline(s.skip(1))]);
    }
}

/// The stripped text before a first newline is a well-formed row.
proof fn lemma_stripped_line_wf(s: Seq<char>, k: int)
    requires
        cr_only_at_line_breaks(s),
        0 <= k < s.len(),
        s[k] == '\n',
        forall|j: int| 0 <= j < k ==> s[j] != '\n',
    ensures
        row_text_wf(strip_cr(s.take(k))),
{
    let raw = s.take(k);
    let line = strip_cr(raw);
    assert forall|j: int| 0 <= j < line.len() implies line[j] != '\n' && line[j] != '\r' by {
        assert(line[j] == s[j]);
        if s[j] == '\r' {
            assert(j < s.len() - 1);
            assert(s[j + 1] == '\n');
            assert(j + 1 >= k);
            if raw.len() > 0 && raw.last() == '\r' {
                assert(j < k - 1);
            } else {
                assert(j == k - 1);
                assert(raw.last() == s[k - 1]);
                assert(raw.last() == '\r');
            }
        }
    }
}

/// A stripped final segment, after the last newline, is a well-formed row.
proof fn lemma_stripped_tail_wf(s: Seq<char>)
    requires
        cr_only_at_line_breaks(s),
        forall|j: int| 0 <= j < s.len() ==> s[j] != '\n',
    ensures
        row_text_wf(strip_cr(s)),
{
    let line = strip_cr(s);
    assert forall|j: int| 0 <= j < line.len() implies line[j] != '\n' && line[j] != '\r' by {
        assert(line[j] == s[j]);
        if s[j] == '\r' {
            assert(j == s.len() - 1 || s[j + 1] == '\n');
            assert(j == s.len() - 1);
            assert(s.len() > 0 && s.last() == '\r');
            assert(line == s.drop_last());
            assert(j < line.len());
        }
    }
}

/// The edit buffer: an ordered sequence of rows, plus the name of the file
/// it came from, shown in the status bar and never written back.
pub struct Document {
    rows: Vec<Row>,
    file_name: Option<Vec<char>>,
}

impl View for Document {
    type V = Seq<Seq<char>>;

    closed spec fn view(&self) -> Seq<Seq<char>> {
        self.rows@.map_values(|r: Row| r@)
    }
}

impl Default for Document {
    /// An empty, unnamed buffer.
    fn default() -> (d: Document)
        ensures
            d@ == Seq::<Seq<char>>::empty(),
            d.spec_file_name() is None,
    {
        let d = Document { rows: Vec::new(), file_name: None };
        proof {
            assert(d@ =~= Seq::<Seq<char>>::empty());
        }
        d
    }
}

impl Document {
    /// The file name the buffer was loaded from, if any.
    pub closed spec fn spec_file_name(&self) -> Option<Seq<char>> {
        match self.file_name {
            Some(ref v) => Some(v@),
            None => None,
        }
    }

    /// The file name the buffer was loaded from, if any.
    pub fn file_name(&self) -> (r: &Option<Vec<char>>)
        ensures
            r is Some <==> self.spec_file_name() is Some,
            r is Some ==> r->0@ == self.spec_file_name()->0,
    {
        &self.file_name
    }

    /// The row at index `y`, or nothing at or past the append row.
    pub fn row(&self, index: usize) -> (r: Option<&Row>)
        ensures
            index < self@.len() ==> r is Some && r->0@ == self@[index as int],
            index >= self@.len() ==> r is None,
    {
        self.rows.get(index)
    }

    /// Whether the buffer has no rows at all.
    pub fn is_empty(&self) -> (b: bool)
        ensures
            b <==> self@.len() == 0,
    {
        self.rows.is_empty()
    }

    /// The number of rows.
    pub fn len(&self) -> (n: usize)
        ensures
            n == self@.len(),
    {
        self.rows.len()
    }

    /// The width of row `y`, or 0 at the append row.
    pub fn row_len(&self, y: usize) -> (n: usize)
        ensures
            n == row_len_at(self@, y as int),
    {
        if y < self.rows.len() {
            self.rows[y].len()
        } else {
            0
        }
    }

    /// The buffer a text loads as: rows split on `\n`, at most one
    /// trailing `\r` stripped from each, the empty piece after a final
    /// `\n` discarded. Reading the file is the caller's business; this is
    /// the whole parse.
    pub fn from_text(contents: &Vec<char>, file_name: Option<Vec<char>>) -> (d: Document)
        ensures
            d@ == spec_lines(contents@),
            d.spec_file_name() == match file_name {
                Some(v) => Some(v@),
                None => None::<Seq<char>>,
            },
    {
        let n = contents.len();
        let mut rows: Vec<Row> = Vec::new();
        let mut cur: Vec<char> = Vec::new();
        let mut i: usize = 0;
        proof {
            assert(contents@.skip(0) =~= contents@);
            assert(rows@.map_values(|r: Row| r@) =~= Seq::<Seq<char>>::empty());
            assert(Seq::<Seq<char>>::empty() + spec_lines(contents@) =~= spec_lines(contents@));
            assert(cur@ =~= contents@.subrange(0, 0));
        }
        while i < n
            invariant
                i <= n,
                n == contents@.len(),
                cur@.len() <= i,
                cur@ == contents@.subrange(i - cur@.len(), i as int),
                forall|j: int| 0 <= j < cur@.len() ==> cur@[j] != '\n',
                spec_lines(contents@) == rows@.map_values(|r: Row| r@) + spec_lines(
                    contents@.skip(i - cur@.len()),
                ),
            decreases n - i,
        {
            let c = contents[i];
            if c == '\n' {
                let ghost k = cur@.len() as int;
                let ghost j = i - k;
                let ghost t = contents@.skip(j);
                let ghost raw = cur@;
                let ghost rows0 = rows@.map_values(|r: Row| r@);
                proof {
                    assert forall|m: int| 0 <= m < k implies t[m] != '\n' by {
                        assert(t[m] == contents@[j + m]);
                        assert(contents@[j + m] == raw[m]);
                    }
                    assert(t[k] == contents@[i as int]);
                    lemma_lines_step(t, k);
                    assert(t.take(k) =~= raw);
                    assert(t.skip(k + 1) =~= contents@.skip(i + 1));
                }
                let mut line = cur;
                cur = Vec::new();
                if line.len() > 0 && line[line.len() - 1] == '\r' {
                    line.pop();
                    proof {
                        assert(line@ =~= raw.drop_last());
                    }
                }
                proof {
                    assert(line@ == strip_cr(raw));
                }
                rows.push(Row::from_chars(line));
                i = i + 1;
                proof {
                    assert(rows@.map_values(|r: Row| r@) =~= rows0.push(strip_cr(raw)));
                    assert(rows0 + (seq![strip_cr(raw)] + spec_lines(contents@.skip(i as int)))
                        =~= rows0.push(strip_cr(raw)) + spec_lines(contents@.skip(i as int)));
                    assert(cur@ =~= contents@.subrange(i as int, i as int));
                }
            } else {
                cur.push(c);
                i = i + 1;
                proof {
                    assert(cur@ =~= contents@.subrange(i - cur@.len(), i as int));
                }
            }
        }
        if cur.len() > 0 {
            let ghost raw = cur@;
            let ghost j = n - raw.len();
            let ghost t = contents@.skip(j);
            let ghost rows0 = rows@.map_values(|r: Row| r@);
            proof {
                assert(t =~= raw);
                lemma_lines_last(t);
            }
            let mut line = cur;
            if line.len() > 0 && line[line.len() - 1] == '\r' {
                line.pop();
                proof {
                    assert(line@ =~= raw.drop_last());
                }
            }
            proof {
                assert(line@ == strip_cr(raw));
            }
            rows.push(Row::from_chars(line));
            proof {
                assert(rows@.map_values(|r: Row| r@) =~= rows0.push(strip_cr(raw)));
                assert(rows0 + seq![strip_cr(raw)] =~= rows0.push(strip_cr(raw)));
            }
        } else {
            proof {
                assert(spec_lines(contents@.skip(n as int)) =~= Seq::<Seq<char>>::empty());
                assert(rows@.map_values(|r: Row| r@) + Seq::<Seq<char>>::empty()
                    =~= rows@.map_values(|r: Row| r@));
            }
        }
        let d = Document { rows, file_name };
        d
    }

    /// Insert scalar value `c` at position `at`, splitting the row when `c`
    /// is a newline. Out-of-range positions are a no-op, never an error.
    pub fn insert(&mut self, at: &Position, c: char)
        ensures
            final(self)@ == spec_doc_insert(old(self)@, at.x as int, at.y as int, c),
            final(self).spec_file_name() == old(self).spec_file_name(),
            doc_wf(old(self)@) ==> doc_wf(final(self)@),
    {
        proof {
            if doc_wf(old(self)@) {
                lemma_insert_preserves_wf(old(self)@, at.x as int, at.y as int, c);
            }
        }
        if c == '\n' {
            self.insert_newline(at);
            return ;
        }
        if c == '\r' {
            return ;
        }
        if at.y == self.rows.len() {
            let mut row = Row::new();
            row.insert(0, c);
            self.rows.push(row);
            proof {
                assert(row@ =~= seq![c]);
                assert(final(self)@ =~= old(self)@.push(seq![c]));
            }
        } else if at.y < self.rows.len() {
            let ghost d0 = self@;
            let target = &mut self.rows[at.y];
            target.insert(at.x, c);
            proof {
                assert(final(self)@ =~= d0.update(
                    at.y as int,
                    spec_row_insert(d0[at.y as int], at.x as int, c),
                ));
            }
        }
    }

    /// Insert a newline at position `at`: cut row `at.y` at column `at.x`
    /// and place the tail as the following row; at the append row, add an
    /// empty row. Out-of-range positions are a no-op.
    pub fn insert_newline(&mut self, at: &Position)
        ensures
            final(self)@ == spec_doc_insert_newline(old(self)@, at.x as int, at.y as int),
            final(self).spec_file_name() == old(self).spec_file_name(),
            doc_wf(old(self)@) ==> doc_wf(final(self)@),
    {
        proof {
            if doc_wf(old(self)@) {
                lemma_insert_newline_preserves_wf(old(self)@, at.x as int, at.y as int);
            }
        }
        if at.y > self.rows.len() {
            return ;
        }
        if at.y == self.rows.len() {
            self.rows.push(Row::new());
            proof {
                assert(final(self)@ =~= old(self)@.push(Seq::<char>::empty()));
            }
            return ;
        }
        let ghost d0 = self@;
        let target = &mut self.rows[at.y];
        let tail = target.split(at.x);
        self.rows.insert(at.y + 1, tail);
        proof {
            let pieces = spec_row_split(d0[at.y as int], at.x as int);
            assert(final(self)@ =~= d0.update(at.y as int, pieces.0).insert(
                at.y + 1,
                pieces.1,
            ));
        }
    }

    /// Delete at position `at`: at the end of a row that has a successor,
    /// join the successor onto it; otherwise remove the scalar value at
    /// column `at.x`. Out-of-range positions are a no-op.
    pub fn delete(&mut self, at: &Position)
        ensures
            final(self)@ == spec_doc_delete(old(self)@, at.x as int, at.y as int),
            final(self).spec_file_name() == old(self).spec_file_name(),
            doc_wf(old(self)@) ==> doc_wf(final(self)@),
    {
        proof {
            if doc_wf(old(self)@) {
                lemma_delete_preserves_wf(old(self)@, at.x as int, at.y as int);
            }
        }
        let len = self.rows.len();
        if at.y >= len {
            return ;
        }
        let ghost d0 = self@;
        let row_len = self.rows[at.y].len();
        if at.x == row_len && at.y + 1 < len {
            let next = self.rows.remove(at.y + 1);
            let target = &mut self.rows[at.y];
            target.append(&next);
            proof {
                assert(final(self)@ =~= d0.update(
                    at.y as int,
                    d0[at.y as int] + d0[at.y as int + 1],
                ).remove(at.y as int + 1));
            }
        } else {
            let target = &mut self.rows[at.y];
            target.delete(at.x);
            proof {
                assert(final(self)@ =~= d0.update(
                    at.y as int,
                    spec_row_delete(d0[at.y as int], at.x as int),
                ));
            }
        }
    }
}

} // verus!
