use vstd::prelude::*;

verus! {

/// `s` cut down to at most `w` scalar values.
pub open spec fn spec_truncate(s: Seq<char>, w: int) -> Seq<char> {
    if 0 <= w < s.len() {
        s.take(w)
    } else {
        s
    }
}

/// `n` spaces.
pub open spec fn spec_spaces(n: int) -> Seq<char> {
    if n >= 0 {
        Seq::new(n as nat, |i: int| ' ')
    } else {
        Seq::empty()
    }
}

/// The decimal digit for a value below ten.
pub open spec fn spec_digit(d: int) -> char {
    if d == 0 {
        '0'
    } else if d == 1 {
        '1'
    } else if d == 2 {
        '2'
    } else if d == 3 {
        '3'
    } else if d == 4 {
        '4'
    } else if d == 5 {
        '5'
    } else if d == 6 {
        '6'
    } else if d == 7 {
        '7'
    } else if d == 8 {
        '8'
    } else {
        '9'
    }
}

/// The decimal notation of `n`, most significant digit first, with no
/// leading zero except for `n == 0` itself.
pub open spec fn spec_decimal(n: nat) -> Seq<char>
    decreases n,
{
    if n < 10 {
        seq![spec_digit(n as int)]
    } else {
        spec_decimal(n / 10).push(spec_digit((n % 10) as int))
    }
}

/// The welcome banner line: a `~`, then spaces that roughly center the
/// banner text in a `w`-cell line, cut down to `w` cells.
pub open spec fn spec_welcome(banner: Seq<char>, w: int) -> Seq<char> {
    let pad = if w > banner.len() {
        (w - banner.len()) / 2
    } else {
        0
    };
    let pad1 = if pad >= 1 {
        pad - 1
    } else {
        0
    };
    spec_truncate(seq!['~'] + spec_spaces(pad1) + banner, w)
}

/// The text shown for a file with no name.
pub open spec fn spec_no_name() -> Seq<char> {
    seq!['[', 'N', 'o', ' ', 'N', 'a', 'm', 'e', ']']
}

/// The status bar: on the left the file name (cut to 20 scalar values,
/// or `[No Name]`) and the row count, on the right the caret row over
/// the row count, padded with spaces to exactly `w` cells.
pub open spec fn spec_status_line(name: Option<Seq<char>>, rows: int, cy: int, w: int) -> Seq<
    char,
> {
    let name_part = match name {
        Some(n) => spec_truncate(n, 20),
        None => spec_no_name(),
    };
    let left = name_part + seq![' ', '-', ' '] + spec_decimal(rows as nat) + seq![
        ' ',
        'l',
        'i',
        'n',
        'e',
        's',
    ];
    let right = spec_decimal((cy + 1) as nat) + seq!['/'] + spec_decimal(rows as nat);
    spec_truncate(left + spec_spaces(w - left.len() - right.len()) + right, w)
}

/// The message bar: the message cut to `w` cells while it is younger
/// than five seconds, blank afterwards.
pub open spec fn spec_message_line(text: Seq<char>, time: u64, now: u64, w: int) -> Seq<char> {
    if now - time < 5 {
        spec_truncate(text, w)
    } else {
        Seq::empty()
    }
}

/// The startup help message.
pub open spec fn spec_help_message() -> Seq<char> {
    seq![
        'H',
        'E',
        'L',
        'P',
        ':',
        ' ',
        'C',
        't',
        'r',
        'l',
        '-',
        'C',
        ' ',
        '=',
        ' ',
        'q',
        'u',
        'i',
        't',
    ]
}

/// The message shown when a file cannot be opened.
pub open spec fn spec_open_error_message(name: Seq<char>) -> Seq<char> {
    seq![
        'E',
        'R',
        'R',
        ':',
        ' ',
        'C',
        'o',
        'u',
        'l',
        'd',
        ' ',
        'n',
        'o',
        't',
        ' ',
        'o',
        'p',
        'e',
        'n',
        ' ',
        'f',
        'i',
        'l',
        'e',
        ':',
        ' ',
    ] + name
}

/// Push every scalar value of `src` onto the end of `dst`.
pub fn append_chars(dst: &mut Vec<char>, src: &Vec<char>)
    ensures
        final(dst)@ == old(dst)@ + src@,
{
    let n = src.len();
    let mut i: usize = 0;
    while i < n
        invariant
            i <= n,
            n == src@.len(),
            dst@ == old(dst)@ + src@.subrange(0, i as int),
        decreases n - i,
    {
        let c = src[i];
        dst.push(c);
        proof {
            assert(dst@ =~= old(dst)@ + src@.subrange(0, i + 1));
        }
        i = i + 1;
    }
    proof {
        assert(dst@ =~= old(dst)@ + src@);
    }
}

/// Push the first `k` scalar values of `src` onto the end of `dst`, or
/// all of them when `src` is shorter.
pub fn append_prefix(dst: &mut Vec<char>, src: &Vec<char>, k: usize)
    ensures
        final(dst)@ == old(dst)@ + spec_truncate(src@, k as int),
{
    let stop = if k < src.len() {
        k
    } else {
        src.len()
    };
    let mut i: usize = 0;
    while i < stop
        invariant
            i <= stop,
            stop <= src@.len(),
            dst@ == old(dst)@ + src@.subrange(0, i as int),
        decreases stop - i,
    {
        let c = src[i];
        dst.push(c);
        proof {
            assert(dst@ =~= old(dst)@ + src@.subrange(0, i + 1));
        }
        i = i + 1;
    }
    proof {
        if k < src@.len() {
            assert(src@.subrange(0, stop as int) == spec_truncate(src@, k as int));
        } else {
            assert(src@.subrange(0, stop as int) =~= spec_truncate(src@, k as int));
        }
    }
}

/// Push `n` spaces onto the end of `dst`.
pub fn append_spaces(dst: &mut Vec<char>, n: usize)
    ensures
        final(dst)@ == old(dst)@ + spec_spaces(n as int),
{
    let mut i: usize = 0;
    while i < n
        invariant
            i <= n,
            dst@ == old(dst)@ + spec_spaces(i as int),
        decreases n - i,
    {
        dst.push(' ');
        proof {
            assert(dst@ =~= old(dst)@ + spec_spaces(i + 1));
        }
        i = i + 1;
    }
}

/// Cut `line` down to at most `w` scalar values.
pub fn truncate_chars(line: &mut Vec<char>, w: usize)
    ensures
        final(line)@ == spec_truncate(old(line)@, w as int),
{
    if line.len() > w {
        line.truncate(w);
    }
}

/// The decimal digit for `d`, which must be below ten.
pub fn digit_char(d: usize) -> (c: char)
    requires
        d < 10,
    ensures
        c == spec_digit(d as int),
{
    if d == 0 {
        '0'
    } else if d == 1 {
        '1'
    } else if d == 2 {
        '2'
    } else if d == 3 {
        '3'
    } else if d == 4 {
        '4'
    } else if d == 5 {
        '5'
    } else if d == 6 {
        '6'
    } else if d == 7 {
        '7'
    } else if d == 8 {
        '8'
    } else {
        '9'
    }
}

/// The decimal notation of `n`.
pub fn decimal_chars(n: usize) -> (v: Vec<char>)
    ensures
        v@ == spec_decimal(n as nat),
    decreases n,
{
    if n < 10 {
        let mut v: Vec<char> = Vec::new();
        v.push(digit_char(n));
        proof {
            assert(v@ =~= seq![spec_digit(n as int)]);
        }
        v
    } else {
        let mut v = decimal_chars(n / 10);
        v.push(digit_char(n % 10));
        v
    }
}

/// The welcome banner line for a `width`-cell viewport.
pub fn welcome_line(banner: &Vec<char>, width: usize) -> (line: Vec<char>)
    ensures
        line@ == spec_welcome(banner@, width as int),
{
    let blen = banner.len();
    let pad = if width > blen {
        (width - blen) / 2
    } else {
        0
    };
    let pad1 = if pad >= 1 {
        pad - 1
    } else {
        0
    };
    let mut line: Vec<char> = Vec::new();
    line.push('~');
    proof {
        assert(line@ =~= seq!['~']);
    }
    append_spaces(&mut line, pad1);
    append_chars(&mut line, banner);
    proof {
        assert(line@ == seq!['~'] + spec_spaces(pad1 as int) + banner@);
    }
    truncate_chars(&mut line, width);
    line
}

/// The status bar for a `width`-cell viewport: file name and row count on
/// the left, caret row over row count on the right, exactly `width` cells.
pub fn status_line(name: &Option<Vec<char>>, rows: usize, cy: usize, width: usize) -> (line: Vec<
    char,
>)
    requires
        cy < usize::MAX,
    ensures
        line@ == spec_status_line(
            match name {
                Some(n) => Some(n@),
                None => None,
            },
            rows as int,
            cy as int,
            width as int,
        ),
        line@.len() == width,
{
    let mut left: Vec<char> = Vec::new();
    match name {
        Some(n) => {
            append_prefix(&mut left, n, 20);
            proof {
                assert(Seq::<char>::empty() + spec_truncate(n@, 20) =~= spec_truncate(n@, 20));
            }
        },
        None => {
            left.push('[');
            left.push('N');
            left.push('o');
            left.push(' ');
            left.push('N');
            left.push('a');
            left.push('m');
            left.push('e');
            left.push(']');
            proof {
                assert(left@ =~= spec_no_name());
            }
        },
    }
    let ghost name_part = left@;
    left.push(' ');
    left.push('-');
    left.push(' ');
    let count = decimal_chars(rows);
    append_chars(&mut left, &count);
    left.push(' ');
    left.push('l');
    left.push('i');
    left.push('n');
    left.push('e');
    left.push('s');
    proof {
        assert(left@ =~= name_part + seq![' ', '-', ' '] + spec_decimal(rows as nat) + seq![
            ' ',
            'l',
            'i',
            'n',
            'e',
            's',
        ]);
    }
    let mut right = decimal_chars(cy + 1);
    right.push('/');
    let count2 = decimal_chars(rows);
    append_chars(&mut right, &count2);
    proof {
        assert(right@ =~= spec_decimal((cy + 1) as nat) + seq!['/'] + spec_decimal(rows as nat));
    }
    let pad = if width > left.len() {
        let avail = width - left.len();
        if avail > right.len() {
            avail - right.len()
        } else {
            0
        }
    } else {
        0
    };
    proof {
        assert(spec_spaces(pad as int) == spec_spaces(
            width - left@.len() - right@.len(),
        ));
    }
    let mut line = left;
    append_spaces(&mut line, pad);
    append_chars(&mut line, &right);
    truncate_chars(&mut line, width);
    line
}

/// The message bar for a `width`-cell viewport at time `now`.
pub fn message_line(text: &Vec<char>, time: u64, now: u64, width: usize) -> (line: Vec<char>)
    ensures
        line@ == spec_message_line(text@, time, now, width as int),
{
    let elapsed = now.saturating_sub(time);
    if elapsed < 5 {
        let mut line: Vec<char> = Vec::new();
        append_prefix(&mut line, text, width);
        proof {
            assert(Seq::<char>::empty() + spec_truncate(text@, width as int) =~= spec_truncate(
                text@,
                width as int,
            ));
        }
        line
    } else {
        Vec::new()
    }
}

/// The startup help message.
pub fn help_message() -> (v: Vec<char>)
    ensures
        v@ == spec_help_message(),
{
    let mut v: Vec<char> = Vec::new();
    v.push('H');
    v.push('E');
    v.push('L');
    v.push('P');
    v.push(':');
    v.push(' ');
    v.push('C');
    v.push('t');
    v.push('r');
    v.push('l');
    v.push('-');
    v.push('C');
    v.push(' ');
    v.push('=');
    v.push(' ');
    v.push('q');
    v.push('u');
    v.push('i');
    v.push('t');
    proof {
        assert(v@ =~= spec_help_message());
    }
    v
}

/// The message shown when the file named `name` cannot be opened.
pub fn open_error_message(name: &Vec<char>) -> (v: Vec<char>)
    ensures
        v@ == spec_open_error_message(name@),
{
    let mut v: Vec<char> = Vec::new();
    v.push('E');
    v.push('R');
    v.push('R');
    v.push(':');
    v.push(' ');
    v.push('C');
    v.push('o');
    v.push('u');
    v.push('l');
    v.push('d');
    v.push(' ');
    v.push('n');
    v.push('o');
    v.push('t');
    v.push(' ');
    v.push('o');
    v.push('p');
    v.push('e');
    v.push('n');
    v.push(' ');
    v.push('f');
    v.push('i');
    v.push('l');
    v.push('e');
    v.push(':');
    v.push(' ');
    append_chars(&mut v, name);
    proof {
        assert(v@ =~= spec_open_error_message(name@));
    }
    v
}

} // verus!
