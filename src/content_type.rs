//! The content type of a static file, by the extension of its path.
//!
//! A path's file name and extension follow `std::path::Path`: components are
//! separated by `'/'`, empty and `.` components are skipped, a path that ends
//! in `..` has no file name, and the extension is what follows the last `'.'`
//! of the file name, unless that dot is its first character.

use vstd::prelude::*;
use crate::text::{chars_of, str_eq};

verus! {

/// Index of the last `c` in `s[0..n)`, or -1 where there is none.
pub open spec fn last_index_of(s: Seq<char>, c: char, n: int) -> int
    decreases n,
{
    if n <= 0 {
        -1
    } else if s[n - 1] == c {
        n - 1
    } else {
        last_index_of(s, c, n - 1)
    }
}

/// `s` ends with the component `.`.
pub open spec fn ends_with_cur_dir(s: Seq<char>) -> bool {
    s.len() > 0 && s.last() == '.' && (s.len() == 1 || s[s.len() - 2] == '/')
}

/// The final component of the path `p`, where it has one.
pub open spec fn file_name(p: Seq<char>) -> Option<Seq<char>>
    decreases p.len(),
{
    if p.len() == 0 {
        None
    } else if p.last() == '/' || ends_with_cur_dir(p) {
        file_name(p.drop_last())
    } else {
        let comp = p.subrange(last_index_of(p, '/', p.len() as int) + 1, p.len() as int);
        if comp == seq!['.', '.'] {
            None
        } else {
            Some(comp)
        }
    }
}

/// The extension of a file name: what follows its last dot, unless that dot
/// is its first character.
pub open spec fn name_extension(name: Seq<char>) -> Option<Seq<char>> {
    let k = last_index_of(name, '.', name.len() as int);
    if k <= 0 {
        None
    } else {
        Some(name.subrange(k + 1, name.len() as int))
    }
}

/// The extension of the path `p`.
pub open spec fn path_extension(p: Seq<char>) -> Option<Seq<char>> {
    match file_name(p) {
        Some(name) => name_extension(name),
        None => None,
    }
}

/// The MIME type served for a file with extension `ext`.
pub open spec fn mime_for(ext: Option<Seq<char>>) -> Seq<char> {
    match ext {
        Some(e) => if e == "css"@ {
            "text/css"@
        } else if e == "js"@ {
            "application/javascript"@
        } else if e == "wasm"@ {
            "application/wasm"@
        } else if e == "html"@ {
            "text/html"@
        } else if e == "png"@ {
            "image/png"@
        } else if e == "jpg"@ || e == "jpeg"@ {
            "image/jpeg"@
        } else {
            "application/octet-stream"@
        },
        None => "application/octet-stream"@,
    }
}

/// The MIME type for a file extension, compared case-sensitively; no
/// extension, or an unknown one, gives `application/octet-stream`.
pub fn content_type_for_extension(ext: Option<&str>) -> (r: &'static str)
    ensures
        r@ == mime_for(
            match ext {
                Some(e) => Some(e@),
                None => None,
            },
        ),
{
    match ext {
        Some(e) => if str_eq(e, "css") {
            "text/css"
        } else if str_eq(e, "js") {
            "application/javascript"
        } else if str_eq(e, "wasm") {
            "application/wasm"
        } else if str_eq(e, "html") {
            "text/html"
        } else if str_eq(e, "png") {
            "image/png"
        } else if str_eq(e, "jpg") || str_eq(e, "jpeg") {
            "image/jpeg"
        } else {
            "application/octet-stream"
        },
        None => "application/octet-stream",
    }
}

/// Index of the last `c` in `s[0..n)`.
fn last_index_in(s: &Vec<char>, c: char, n: usize) -> (r: Option<usize>)
    requires
        n <= s.len(),
    ensures
        match r {
            Some(k) => k as int == last_index_of(s@, c, n as int) && k < n,
            None => last_index_of(s@, c, n as int) == -1,
        },
{
    let mut j = n;
    while j > 0
        invariant
            j <= n <= s.len(),
            last_index_of(s@, c, n as int) == last_index_of(s@, c, j as int),
        decreases j,
    {
        if s[j - 1] == c {
            return Some(j - 1);
        }
        j -= 1;
    }
    None
}

/// The range of the final component of the path `s`.
fn file_name_range(s: &Vec<char>) -> (r: Option<(usize, usize)>)
    ensures
        match r {
            Some((a, b)) => a <= b <= s.len() && file_name(s@) == Some(
                s@.subrange(a as int, b as int),
            ),
            None => file_name(s@) is None,
        },
{
    let mut n = s.len();
    assert(s@.subrange(0, n as int) =~= s@);
    loop
        invariant
            n <= s.len(),
            file_name(s@) == file_name(s@.subrange(0, n as int)),
        decreases n,
    {
        let ghost p = s@.subrange(0, n as int);
        if n == 0 {
            return None;
        }
        if s[n - 1] == '/' || (s[n - 1] == '.' && (n == 1 || s[n - 2] == '/')) {
            assert(p.drop_last() =~= s@.subrange(0, n - 1));
            n -= 1;
        } else {
            let k = last_index_in(s, '/', n);
            proof {
                assert forall|m: int| 0 <= m <= n implies last_index_of(p, '/', m)
                    == last_index_of(s@, '/', m) by {
                    lemma_last_index_prefix(s@, '/', n as int, m);
                }
            }
            let a = match k {
                Some(k) => k + 1,
                None => 0,
            };
            assert(p.subrange(a as int, n as int) =~= s@.subrange(a as int, n as int));
            if n - a == 2 && s[a] == '.' && s[a + 1] == '.' {
                assert(s@.subrange(a as int, n as int) =~= seq!['.', '.']);
                return None;
            }
            return Some((a, n));
        }
    }
}

proof fn lemma_last_index_prefix(s: Seq<char>, c: char, n: int, m: int)
    requires
        0 <= m <= n <= s.len(),
    ensures
        last_index_of(s.subrange(0, n), c, m) == last_index_of(s, c, m),
    decreases m,
{
    if m > 0 {
        lemma_last_index_prefix(s, c, n, m - 1);
    }
}

/// The MIME type for the file at `path`, by its extension.
pub fn content_type_for_path(path: &str) -> (r: &'static str)
    ensures
        r@ == mime_for(path_extension(path@)),
{
    let s = chars_of(path);
    match file_name_range(&s) {
        Some((a, b)) => {
            let name = path.substring_char(a, b);
            let t = chars_of(name);
            match last_index_in(&t, '.', t.len()) {
                Some(k) => if k == 0 {
                    content_type_for_extension(None)
                } else {
                    content_type_for_extension(Some(name.substring_char(k + 1, t.len())))
                },
                None => content_type_for_extension(None),
            }
        },
        None => content_type_for_extension(None),
    }
}

} // verus!
