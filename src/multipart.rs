//! Best-effort extraction of the uploaded file's name from a raw
//! multipart/form-data body.
//!
//! The body is read as text and split into lines at `'\n'`. The first line
//! that holds both `Content-Disposition` and `filename=` is split at `';'`;
//! the first of its segments that, trimmed, starts with `filename=` gives the
//! name, with every leading `filename=` and every surrounding `'"'` removed.
//! A `'\r'` before a line's `'\n'` is white space, so it never reaches the
//! result. Without such a line or segment the name is `upload_default.bin`.

use vstd::prelude::*;
use crate::text::{
    chars_of,
    contains,
    contains_in,
    starts_with,
    starts_with_at,
    strip_prefix_repeated,
    strip_prefix_repeated_at,
    trim,
    trim_char,
    trim_char_range,
    trim_range,
};

verus! {

/// The end of the piece of `s` that starts at `i`: the first `sep` at or
/// after `i`, or the end of `s`.
pub open spec fn piece_end(s: Seq<char>, sep: char, i: int) -> int
    decreases s.len() - i,
{
    if i >= s.len() {
        s.len() as int
    } else if s[i] == sep {
        i
    } else {
        piece_end(s, sep, i + 1)
    }
}

/// The piece of `s` that starts at `i`.
pub open spec fn piece_at(s: Seq<char>, sep: char, i: int) -> Seq<char> {
    s.subrange(i, piece_end(s, sep, i))
}

/// A piece of `s`, split at `sep`, starts at `i`.
pub open spec fn piece_starts(s: Seq<char>, sep: char, i: int) -> bool {
    i == 0 || (0 < i <= s.len() && s[i - 1] == sep)
}

/// The first piece of `s`, split at `sep`, that starts at or after `i` and
/// satisfies `pred`.
pub open spec fn first_piece(
    s: Seq<char>,
    sep: char,
    i: int,
    pred: spec_fn(Seq<char>) -> bool,
) -> Option<Seq<char>>
    decreases s.len() + 1 - i,
{
    if i < 0 || i > s.len() {
        None
    } else if piece_starts(s, sep, i) && pred(piece_at(s, sep, i)) {
        Some(piece_at(s, sep, i))
    } else {
        first_piece(s, sep, i + 1, pred)
    }
}

pub open spec fn disposition_key() -> Seq<char> {
    "Content-Disposition"@
}

pub open spec fn filename_key() -> Seq<char> {
    "filename="@
}

pub open spec fn default_upload_name() -> Seq<char> {
    "upload_default.bin"@
}

/// A line that names the uploaded file.
pub open spec fn is_disposition_line(line: Seq<char>) -> bool {
    contains(line, disposition_key()) && contains(line, filename_key())
}

/// A segment of such a line that carries the name.
pub open spec fn is_filename_segment(seg: Seq<char>) -> bool {
    starts_with(trim(seg), filename_key())
}

pub open spec fn line_pred() -> spec_fn(Seq<char>) -> bool {
    |line: Seq<char>| is_disposition_line(line)
}

pub open spec fn segment_pred() -> spec_fn(Seq<char>) -> bool {
    |seg: Seq<char>| is_filename_segment(seg)
}

/// The name under which the file in `body` was sent.
pub open spec fn uploaded_filename(body: Seq<char>) -> Seq<char> {
    match first_piece(body, '\n', 0, line_pred()) {
        Some(line) => match first_piece(line, ';', 0, segment_pred()) {
            Some(seg) => trim_char(strip_prefix_repeated(trim(seg), filename_key()), '"'),
            None => default_upload_name(),
        },
        None => default_upload_name(),
    }
}

proof fn lemma_piece_end(s: Seq<char>, sep: char, i: int)
    requires
        0 <= i <= s.len(),
    ensures
        i <= piece_end(s, sep, i) <= s.len(),
        forall|k: int| i <= k < piece_end(s, sep, i) ==> s[k] != sep,
        piece_end(s, sep, i) < s.len() ==> s[piece_end(s, sep, i)] == sep,
    decreases s.len() - i,
{
    if i < s.len() && s[i] != sep {
        lemma_piece_end(s, sep, i + 1);
    }
}

/// No piece starts strictly inside the piece that starts at `i`, so the
/// search may jump from there to the next piece.
proof fn lemma_skip_piece(
    s: Seq<char>,
    sep: char,
    pred: spec_fn(Seq<char>) -> bool,
    i: int,
    j: int,
)
    requires
        0 <= i < j <= piece_end(s, sep, i) + 1,
        i <= s.len(),
    ensures
        first_piece(s, sep, j, pred) == first_piece(s, sep, piece_end(s, sep, i) + 1, pred),
    decreases piece_end(s, sep, i) + 1 - j,
{
    lemma_piece_end(s, sep, i);
    if j <= piece_end(s, sep, i) {
        assert(!piece_starts(s, sep, j));
        lemma_skip_piece(s, sep, pred, i, j + 1);
    }
}

proof fn lemma_no_piece_found(
    s: Seq<char>,
    sep: char,
    pred: spec_fn(Seq<char>) -> bool,
    i: int,
)
    requires
        0 <= i,
        forall|j: int| #[trigger] piece_starts(s, sep, j) ==> !pred(piece_at(s, sep, j)),
    ensures
        first_piece(s, sep, i, pred) is None,
    decreases s.len() + 1 - i,
{
    if i <= s.len() {
        lemma_no_piece_found(s, sep, pred, i + 1);
    }
}

/// A body in which no line holds both `Content-Disposition` and
/// `filename=` is stored under the default name.
pub proof fn lemma_default_without_disposition_line(body: Seq<char>)
    requires
        forall|i: int| #[trigger]
            piece_starts(body, '\n', i) ==> !is_disposition_line(piece_at(body, '\n', i)),
    ensures
        uploaded_filename(body) == default_upload_name(),
{
    assert forall|i: int| #[trigger] piece_starts(body, '\n', i) implies !line_pred()(
        piece_at(body, '\n', i),
    ) by {}
    lemma_no_piece_found(body, '\n', line_pred(), 0);
}

/// The end of the piece of `s[a..b]` that starts at `i`, as an index of `s`.
fn piece_end_in(s: &Vec<char>, a: usize, b: usize, sep: char, i: usize) -> (r: usize)
    requires
        a <= i <= b <= s.len(),
    ensures
        r as int - a == piece_end(s@.subrange(a as int, b as int), sep, i - a),
        i <= r <= b,
{
    let ghost t = s@.subrange(a as int, b as int);
    let mut j = i;
    while j < b && s[j] != sep
        invariant
            a <= i <= j <= b <= s.len(),
            t == s@.subrange(a as int, b as int),
            piece_end(t, sep, i - a) == piece_end(t, sep, j - a),
        decreases b - j,
    {
        j += 1;
    }
    j
}

/// The first piece of `s[a..b]`, split at `sep`, that satisfies
/// `line_pred()` (for `'\n'`) or `segment_pred()` (for `';'`), as a range
/// of `s`.
fn find_piece(
    s: &Vec<char>,
    a: usize,
    b: usize,
    sep: char,
    first_key: &Vec<char>,
    second_key: &Vec<char>,
) -> (r: Option<(usize, usize)>)
    requires
        a <= b <= s.len(),
        sep == '\n' ==> first_key@ == disposition_key() && second_key@ == filename_key(),
        sep != '\n' ==> first_key@ == filename_key(),
    ensures
        ({
            let pred = if sep == '\n' {
                line_pred()
            } else {
                segment_pred()
            };
            match r {
                Some((x, y)) => a <= x <= y <= b && first_piece(
                    s@.subrange(a as int, b as int),
                    sep,
                    0,
                    pred,
                ) == Some(s@.subrange(x as int, y as int)),
                None => first_piece(s@.subrange(a as int, b as int), sep, 0, pred) is None,
            }
        }),
{
    let ghost t = s@.subrange(a as int, b as int);
    let ghost pred = if sep == '\n' {
        line_pred()
    } else {
        segment_pred()
    };
    let mut i = a;
    loop
        invariant
            a <= i <= b <= s.len(),
            t == s@.subrange(a as int, b as int),
            pred == (if sep == '\n' {
                line_pred()
            } else {
                segment_pred()
            }),
            piece_starts(t, sep, i - a),
            sep == '\n' ==> first_key@ == disposition_key() && second_key@ == filename_key(),
            sep != '\n' ==> first_key@ == filename_key(),
            first_piece(t, sep, 0, pred) == first_piece(t, sep, i - a, pred),
        decreases b + 1 - i,
    {
        let e = piece_end_in(s, a, b, sep, i);
        assert(piece_at(t, sep, i - a) =~= s@.subrange(i as int, e as int));
        let ghost piece = piece_at(t, sep, i - a);
        let found = if sep == '\n' {
            let r = contains_in(s, i, e, first_key) && contains_in(s, i, e, second_key);
            assert(r == is_disposition_line(piece));
            assert(line_pred()(piece) == is_disposition_line(piece));
            r
        } else {
            let (x, y) = trim_range(s, i, e);
            let r = starts_with_at(s, x, y, first_key);
            assert(r == is_filename_segment(piece));
            assert(segment_pred()(piece) == is_filename_segment(piece));
            r
        };
        assert(found == pred(piece_at(t, sep, i - a)));
        if found {
            assert(first_piece(t, sep, i - a, pred) == Some(piece_at(t, sep, i - a)));
            return Some((i, e));
        }
        assert(first_piece(t, sep, i - a, pred) == first_piece(t, sep, i - a + 1, pred));
        proof {
            lemma_piece_end(t, sep, i - a);
            lemma_skip_piece(t, sep, pred, i - a, i - a + 1);
        }
        if e >= b {
            assert(first_piece(t, sep, e - a + 1, pred) is None);
            return None;
        }
        i = e + 1;
    }
}

/// The name under which the file in `body` was sent, or
/// `upload_default.bin` where the body does not say.
pub fn extract_filename(body: &str) -> (r: String)
    ensures
        r@ == uploaded_filename(body@),
{
    let s = chars_of(body);
    let disposition = chars_of("Content-Disposition");
    let key = chars_of("filename=");
    proof {
        reveal_strlit("filename=");
    }
    assert(s@.subrange(0, s.len() as int) =~= s@);
    match find_piece(&s, 0, s.len(), '\n', &disposition, &key) {
        Some((a, b)) => match find_piece(&s, a, b, ';', &key, &key) {
            Some((c, d)) => {
                let (x, y) = trim_range(&s, c, d);
                let v = strip_prefix_repeated_at(&s, x, y, &key);
                let (m, n) = trim_char_range(&s, v, y, '"');
                body.substring_char(m, n).to_owned()
            },
            None => String::from_str("upload_default.bin"),
        },
        None => String::from_str("upload_default.bin"),
    }
}

} // verus!
