use vstd::prelude::*;

verus! {

/// A row's text is well formed when it holds no line terminator: rows are
/// the pieces between newlines, never the newlines themselves.
pub open spec fn row_text_wf(s: Seq<char>) -> bool {
    forall|i: int| 0 <= i < s.len() ==> s[i] != '\n' && s[i] != '\r'
}

/// Text after inserting `c` at column `at`: past the end means append.
pub open spec fn spec_row_insert(s: Seq<char>, at: int, c: char) -> Seq<char> {
    if 0 <= at < s.len() {
        s.insert(at, c)
    } else {
        s.push(c)
    }
}

/// Text after deleting the scalar value at column `at`: past the end is a
/// no-op.
pub open spec fn spec_row_delete(s: Seq<char>, at: int) -> Seq<char> {
    if 0 <= at < s.len() {
        s.remove(at)
    } else {
        s
    }
}

/// The two pieces `split` leaves: the head keeps `[0, at)`, the tail gets
/// `[at, len)`; splitting past the end leaves the head whole and an empty
/// tail.
pub open spec fn spec_row_split(s: Seq<char>, at: int) -> (Seq<char>, Seq<char>) {
    if 0 <= at < s.len() {
        (s.subrange(0, at), s.subrange(at, s.len() as int))
    } else {
        (s, Seq::empty())
    }
}

/// What `render` shows of text `s` between columns `start` and `end`: the
/// scalar values in `[start, min(end, len))`, each tab drawn as one space.
pub open spec fn spec_render(s: Seq<char>, start: int, end: int) -> Seq<char> {
    let stop = if end < s.len() { end } else { s.len() as int };
    if 0 <= start < stop {
        s.subrange(start, stop).map_values(|c: char| if c == '\t' { ' ' } else { c })
    } else {
        Seq::empty()
    }
}

/// One logical line of text, kept as Unicode scalar values so that every
/// column index is a scalar-value index, never a byte offset.
pub struct Row {
    chars: Vec<char>,
}

impl View for Row {
    type V = Seq<char>;

    closed spec fn view(&self) -> Seq<char> {
        self.chars@
    }
}

impl Default for Row {
    /// An empty row.
    fn default() -> (r: Row)
        ensures
            r@ == Seq::<char>::empty(),
    {
        Row { chars: Vec::new() }
    }
}

impl Row {
    /// An empty row.
    pub fn new() -> (r: Row)
        ensures
            r@ == Seq::<char>::empty(),
    {
        Row { chars: Vec::new() }
    }

    /// A row holding exactly `chars`, which must contain no newline: a row
    /// is the text between line breaks, never a break itself.
    pub fn from_chars(chars: Vec<char>) -> (r: Row)
        requires
            forall|i: int| 0 <= i < chars@.len() ==> chars@[i] != '\n',
        ensures
            r@ == chars@,
    {
        Row { chars }
    }

    /// The number of scalar values in the row.
    pub fn len(&self) -> (n: usize)
        ensures
            n == self@.len(),
    {
        self.chars.len()
    }

    pub fn is_empty(&self) -> (b: bool)
        ensures
            b <==> self@.len() == 0,
    {
        self.chars.is_empty()
    }

    /// The row's text, one scalar value per element.
    pub fn chars(&self) -> (r: &Vec<char>)
        ensures
            r@ == self@,
    {
        &self.chars
    }

    /// Insert `c` before column `at`, or append it when `at` is past the
    /// end. Line terminators never enter a row.
    pub fn insert(&mut self, at: usize, c: char)
        requires
            c != '\n',
            c != '\r',
        ensures
            final(self)@ == spec_row_insert(old(self)@, at as int, c),
            row_text_wf(old(self)@) ==> row_text_wf(final(self)@),
    {
        if at < self.chars.len() {
            self.chars.insert(at, c);
        } else {
            self.chars.push(c);
        }
        proof {
            if row_text_wf(old(self)@) {
                assert forall|i: int| 0 <= i < final(self)@.len() implies final(self)@[i] != '\n'
                    && final(self)@[i] != '\r' by {
                    if 0 <= at < old(self)@.len() {
                        assert(final(self)@ == old(self)@.insert(at as int, c));
                    }
                }
            }
        }
    }

    /// Remove the scalar value at column `at`; past the end nothing
    /// happens.
    pub fn delete(&mut self, at: usize)
        ensures
            final(self)@ == spec_row_delete(old(self)@, at as int),
            row_text_wf(old(self)@) ==> row_text_wf(final(self)@),
    {
        if at < self.chars.len() {
            self.chars.remove(at);
        }
    }

    /// Concatenate `other`'s text onto the tail of this row.
    pub fn append(&mut self, other: &Row)
        ensures
            final(self)@ == old(self)@ + other@,
            row_text_wf(old(self)@) && row_text_wf(other@) ==> row_text_wf(final(self)@),
    {
        let n = other.chars.len();
        let mut i: usize = 0;
        while i < n
            invariant
                i <= n,
                n == other@.len(),
                self@ == old(self)@ + other@.subrange(0, i as int),
            decreases n - i,
        {
            let c = other.chars[i];
            self.chars.push(c);
            proof {
                assert(self@ =~= old(self)@ + other@.subrange(0, i + 1));
            }
            i = i + 1;
        }
        proof {
            assert(self@ =~= old(self)@ + other@);
        }
    }

    /// Cut the row at column `at`: this row keeps `[0, at)`, the returned
    /// row holds `[at, len)`. Splitting at or past the end returns an
    /// empty row and leaves this one unchanged.
    pub fn split(&mut self, at: usize) -> (tail: Row)
        ensures
            final(self)@ == spec_row_split(old(self)@, at as int).0,
            tail@ == spec_row_split(old(self)@, at as int).1,
            row_text_wf(old(self)@) ==> row_text_wf(final(self)@) && row_text_wf(tail@),
    {
        if at >= self.chars.len() {
            Row { chars: Vec::new() }
        } else {
            let n = self.chars.len();
            let mut tail: Vec<char> = Vec::new();
            let mut i: usize = at;
            while i < n
                invariant
                    at <= i <= n,
                    n == self@.len(),
                    self@ == old(self)@,
                    tail@ == self@.subrange(at as int, i as int),
                decreases n - i,
            {
                let c = self.chars[i];
                tail.push(c);
                proof {
                    assert(tail@ =~= self@.subrange(at as int, i + 1));
                }
                i = i + 1;
            }
            self.chars.truncate(at);
            Row { chars: tail }
        }
    }

    /// The visible text of the row between columns `start` and `end`: the
    /// scalar values in `[start, min(end, len))`, with every tab expanded
    /// to a single space. The result has length
    /// `max(0, min(end, len) - start)` and holds no tab.
    pub fn render(&self, start: usize, end: usize) -> (out: Vec<char>)
        ensures
            out@ == spec_render(self@, start as int, end as int),
            out@.len() == if (if end < self@.len() { end as int } else { self@.len() as int })
                - start >= 0 {
                (if end < self@.len() { end as int } else { self@.len() as int }) - start
            } else {
                0
            },
            forall|i: int| 0 <= i < out@.len() ==> out@[i] != '\t',
    {
        let n = self.chars.len();
        let stop = if end < n { end } else { n };
        let mut out: Vec<char> = Vec::new();
        if start < stop {
            let mut i: usize = start;
            while i < stop
                invariant
                    start <= i <= stop,
                    stop <= self@.len(),
                    out@ == self@.subrange(start as int, i as int).map_values(
                        |c: char| if c == '\t' { ' ' } else { c },
                    ),
                decreases stop - i,
            {
                let c = self.chars[i];
                out.push(if c == '\t' { ' ' } else { c });
                proof {
                    assert(out@ =~= self@.subrange(start as int, i + 1).map_values(
                        |c: char| if c == '\t' { ' ' } else { c },
                    ));
                }
                i = i + 1;
            }
        }
        out
    }
}

} // verus!
