use vstd::prelude::*;

use crate::document::spec_doc_insert_newline;
use crate::document::spec_doc_delete;
use crate::document::row_len_at;
use crate::editor::spec_keypress;
use crate::editor::spec_move;
use crate::editor::spec_scroll;
use crate::key::Key;

verus! {

/// The whole editor state a keypress steps: buffer, caret, viewport
/// offset, quit flag.
pub type EditorState = (Seq<Seq<char>>, (int, int), (int, int), bool);

/// The state after typing the scalar values of `s`, one keypress each.
pub open spec fn spec_type_chars(st: EditorState, s: Seq<char>, w: int, h: int) -> EditorState
    decreases s.len(),
{
    if s.len() == 0 {
        st
    } else {
        spec_type_chars(spec_keypress(st.0, st.1, st.2, st.3, Key::Char(s[0]), w, h), s.skip(1), w, h)
    }
}

/// The state after `n` Backspace keypresses.
pub open spec fn spec_backspaces(st: EditorState, n: nat, w: int, h: int) -> EditorState
    decreases n,
{
    if n == 0 {
        st
    } else {
        spec_backspaces(
            spec_keypress(st.0, st.1, st.2, st.3, Key::Backspace, w, h),
            (n - 1) as nat,
            w,
            h,
        )
    }
}

/// Following the caret is idempotent: once the viewport shows the caret,
/// following it again moves nothing.
pub proof fn lemma_scroll_idempotent(cursor: (int, int), offset: (int, int), w: int, h: int)
    requires
        w >= 1,
        h >= 1,
    ensures
        spec_scroll(cursor, spec_scroll(cursor, offset, w, h), w, h) == spec_scroll(
            cursor,
            offset,
            w,
            h,
        ),
{
}

/// Two consecutive Home (or End) keypresses leave the state exactly as
/// one does.
pub proof fn lemma_home_end_idempotent(
    d: Seq<Seq<char>>,
    cursor: (int, int),
    offset: (int, int),
    quit: bool,
    key: Key,
    w: int,
    h: int,
)
    requires
        key == Key::Home || key == Key::End,
        w >= 1,
        h >= 1,
    ensures
        ({
            let once = spec_keypress(d, cursor, offset, quit, key, w, h);
            spec_keypress(once.0, once.1, once.2, once.3, key, w, h) == once
        }),
{
    let once = spec_keypress(d, cursor, offset, quit, key, w, h);
    lemma_scroll_idempotent(once.1, offset, w, h);
}

/// Inserting a newline at `(x, y)` and then deleting at the split point
/// joins the two halves back into the original buffer, row for row.
pub proof fn lemma_split_join(d: Seq<Seq<char>>, x: int, y: int)
    requires
        0 <= y < d.len(),
        0 <= x <= d[y].len(),
    ensures
        spec_doc_delete(spec_doc_insert_newline(d, x, y), x, y) == d,
{
    let d2 = spec_doc_insert_newline(d, x, y);
    let head = d2[y];
    let tail = d2[y + 1];
    assert(head.len() == x);
    assert(head + tail =~= d[y]);
    let d3 = spec_doc_delete(d2, x, y);
    assert forall|i: int| 0 <= i < d3.len() implies d3[i] == d[i] by {
        if i < y {
        } else if i == y {
            assert(d3[i] == head + tail);
        } else {
            assert(d3[i] == d2[i + 1]);
            assert(d2[i + 1] == d[i]);
        }
    }
    assert(d3 =~= d);
}

/// Pressing Enter at `(x, y)` and then Backspace restores the buffer and
/// puts the caret back at `(x, y)`.
pub proof fn lemma_enter_then_backspace(
    d: Seq<Seq<char>>,
    x: int,
    y: int,
    offset: (int, int),
    quit: bool,
    w: int,
    h: int,
)
    requires
        w >= 1,
        h >= 1,
        0 <= y < d.len(),
        0 <= x <= d[y].len(),
    ensures
        ({
            let split = spec_keypress(d, (x, y), offset, quit, Key::Char('\n'), w, h);
            let joined = spec_keypress(split.0, split.1, split.2, split.3, Key::Backspace, w, h);
            joined.0 == d && joined.1 == (x, y)
        }),
{
    let split = spec_keypress(d, (x, y), offset, quit, Key::Char('\n'), w, h);
    let d2 = spec_doc_insert_newline(d, x, y);
    assert(d2[y].len() == x);
    assert(split.0 == d2);
    assert(row_len_at(d2, y) == x);
    assert(split.1 == (0int, y + 1));
    let back = spec_move(d2, 0, y + 1, Key::Left, h);
    assert(back == (x, y));
    lemma_split_join(d, x, y);
}

/// Typing a text on a one-row buffer with the caret at the row's end
/// appends the text to that row and leaves the caret at the new end.
proof fn lemma_type_on_row(
    t: Seq<char>,
    offset: (int, int),
    quit: bool,
    s: Seq<char>,
    w: int,
    h: int,
)
    requires
        forall|i: int| 0 <= i < s.len() ==> s[i] != '\n' && s[i] != '\r',
    ensures
        ({
            let st = spec_type_chars((seq![t], (t.len() as int, 0int), offset, quit), s, w, h);
            st.0 == seq![t + s] && st.1 == ((t.len() + s.len()) as int, 0int)
        }),
    decreases s.len(),
{
    let st0: EditorState = (seq![t], (t.len() as int, 0int), offset, quit);
    if s.len() == 0 {
        assert(t + s =~= t);
        assert(spec_type_chars(st0, s, w, h) == st0);
    } else {
        let c = s[0];
        let st1 = spec_keypress(st0.0, st0.1, st0.2, st0.3, Key::Char(c), w, h);
        let t2 = t.push(c);
        assert(st1.0 =~= seq![t2]);
        assert(row_len_at(st1.0, 0) == t2.len());
        assert(st1.1 == (t2.len() as int, 0int));
        let rest = s.skip(1);
        assert forall|i: int| 0 <= i < rest.len() implies rest[i] != '\n' && rest[i] != '\r' by {
            assert(rest[i] == s[i + 1]);
        }
        lemma_type_on_row(t2, st1.2, st1.3, rest, w, h);
        assert(spec_type_chars((seq![t2], (t2.len() as int, 0int), st1.2, st1.3), rest, w, h)
            == spec_type_chars(st1, rest, w, h));
        assert(t2 + rest =~= t + s);
    }
}

/// Erasing `n` scalar values from the end of a one-row buffer with `n`
/// Backspace keypresses cuts the last `n` off the row and leaves the
/// caret at the new end.
proof fn lemma_backspaces_on_row(
    t: Seq<char>,
    offset: (int, int),
    quit: bool,
    n: nat,
    w: int,
    h: int,
)
    requires
        n <= t.len(),
    ensures
        ({
            let st = spec_backspaces((seq![t], (t.len() as int, 0int), offset, quit), n, w, h);
            st.0 == seq![t.take(t.len() - n)] && st.1 == ((t.len() - n) as int, 0int)
        }),
    decreases n,
{
    let st0: EditorState = (seq![t], (t.len() as int, 0int), offset, quit);
    if n == 0 {
        assert(t.take(t.len() as int) =~= t);
    } else {
        let k = t.len() as int;
        let st1 = spec_keypress(st0.0, st0.1, st0.2, st0.3, Key::Backspace, w, h);
        assert(row_len_at(seq![t], 0) == k);
        assert(spec_move(seq![t], k, 0, Key::Left, h) == (k - 1, 0int));
        let t2 = t.remove(k - 1);
        assert(st1.0 =~= seq![t2]);
        assert(st1.1 == (k - 1, 0int));
        assert(t2 =~= t.take(k - 1));
        lemma_backspaces_on_row(t.take(k - 1), st1.2, st1.3, (n - 1) as nat, w, h);
        assert(spec_backspaces((seq![t.take(k - 1)], (k - 1, 0int), st1.2, st1.3), (n - 1) as nat, w, h)
            == spec_backspaces(st1, (n - 1) as nat, w, h));
        assert(t.take(k - 1).take(t.take(k - 1).len() - (n - 1)) =~= t.take(t.len() - n));
    }
}

/// On an empty buffer, typing the scalar values of `s` one keypress at a
/// time yields a buffer whose single row is exactly `s`, with the caret
/// at its end; `s.len()` Backspace keypresses then empty that row again
/// and return the caret to the origin.
pub proof fn lemma_type_then_erase(
    offset: (int, int),
    quit: bool,
    s: Seq<char>,
    w: int,
    h: int,
)
    requires
        s.len() >= 1,
        forall|i: int| 0 <= i < s.len() ==> s[i] != '\n' && s[i] != '\r',
    ensures
        ({
            let typed = spec_type_chars(
                (Seq::<Seq<char>>::empty(), (0int, 0int), offset, quit),
                s,
                w,
                h,
            );
            typed.0 == seq![s] && typed.1 == (s.len() as int, 0int) && {
                let erased = spec_backspaces(typed, s.len(), w, h);
                erased.0 == seq![Seq::<char>::empty()] && erased.1 == (0int, 0int)
            }
        }),
{
    let st0: EditorState = (Seq::<Seq<char>>::empty(), (0int, 0int), offset, quit);
    let c = s[0];
    let st1 = spec_keypress(st0.0, st0.1, st0.2, st0.3, Key::Char(c), w, h);
    assert(st1.0 =~= seq![seq![c]]);
    assert(row_len_at(st1.0, 0) == 1);
    assert(st1.1 == (1int, 0int));
    let rest = s.skip(1);
    assert forall|i: int| 0 <= i < rest.len() implies rest[i] != '\n' && rest[i] != '\r' by {
        assert(rest[i] == s[i + 1]);
    }
    lemma_type_on_row(seq![c], st1.2, st1.3, rest, w, h);
    assert(spec_type_chars((seq![seq![c]], (1int, 0int), st1.2, st1.3), rest, w, h)
        == spec_type_chars(st1, rest, w, h));
    let typed = spec_type_chars(st0, s, w, h);
    assert(seq![c] + rest =~= s);
    assert(typed.0 == seq![s] && typed.1 == (s.len() as int, 0int));
    lemma_backspaces_on_row(s, typed.2, typed.3, s.len(), w, h);
    assert(typed == (seq![s], (s.len() as int, 0int), typed.2, typed.3));
    let erased = spec_backspaces(typed, s.len(), w, h);
    assert(erased.0 == seq![s.take(0)] && erased.1 == (0int, 0int));
    assert(s.take(0) =~= Seq::<char>::empty());
}

} // verus!
