//! Verified reasoning about paths as plain strings: the components between
//! `/` separators, and the extension that the dispatcher routes on.

use vstd::prelude::*;

verus! {

/// A path component occupies `[a, b)` of `p`: it is non-empty, bounded by
/// separators or the ends of the path, and contains no separator.
pub open spec fn component_at(p: Seq<char>, a: int, b: int) -> bool {
    &&& 0 <= a < b <= p.len()
    &&& (a == 0 || p[a - 1] == '/')
    &&& (b == p.len() || p[b] == '/')
    &&& forall|k: int| a <= k < b ==> p[k] != '/'
}

/// Whether some component of `p` equals `name`.
pub open spec fn has_component(p: Seq<char>, name: Seq<char>) -> bool {
    exists|a: int, b: int| component_at(p, a, b) && p.subrange(a, b) == name
}

/// Whether some component of `p` equals `name`.
pub fn path_has_component(p: &str, name: &str) -> (r: bool)
    ensures
        r == has_component(p@, name@),
{
    let n = p.unicode_len();
    let mut i: usize = 0;
    while i < n
        invariant
            n == p@.len(),
            i <= n,
            i == 0 || i == n || p@[i - 1] == '/',
            forall|a: int, b: int|
                component_at(p@, a, b) && a < i ==> p@.subrange(a, b) != name@,
        decreases n - i,
    {
        let ghost start = i as int;
        let mut j: usize = i;
        while j < n && p.get_char(j) != '/'
            invariant
                n == p@.len(),
                start <= j <= n,
                forall|k: int| start <= k < j ==> p@[k] != '/',
            decreases n - j,
        {
            j = j + 1;
        }
        if j > i {
            let seg = p.substring_char(i, j);
            if crate::scan::str_eq(seg, name) {
                assert(component_at(p@, start, j as int));
                return true;
            }
        }
        assert forall|a: int, b: int|
            component_at(p@, a, b) && a < j + 1 implies p@.subrange(a, b) != name@ by {
            if a >= i {
                assert(p@[a] != '/');
                assert(a < n);
                if a > i {
                    assert(p@[a - 1] == '/');
                    assert(start <= a - 1 < j);
                    assert(false);
                }
                assert(a == i);
                if b < j {
                    assert(b < n);
                    assert(p@[b] == '/');
                    assert(false);
                }
                if b > j {
                    assert(j < n ==> p@[j as int] == '/');
                    assert(a <= j < b ==> p@[j as int] != '/');
                    assert(j == n);
                    assert(b <= n);
                    assert(false);
                }
                assert(b == j);
            }
        }
        if j < n {
            i = j + 1;
        } else {
            i = n;
        }
    }
    assert forall|a: int, b: int| component_at(p@, a, b) implies p@.subrange(a, b) != name@ by {
        assert(a < n);
    }
    false
}

/// The index of the last occurrence of `c` in `s`, if any.
pub open spec fn last_index(s: Seq<char>, c: char) -> Option<int>
    decreases s.len(),
{
    if s.len() == 0 {
        None
    } else if s[s.len() - 1] == c {
        Some(s.len() - 1)
    } else {
        last_index(s.drop_last(), c)
    }
}

pub proof fn lemma_last_index(s: Seq<char>, c: char)
    ensures
        match last_index(s, c) {
            Some(m) => 0 <= m < s.len() && s[m] == c && forall|k: int| m < k < s.len() ==> s[k] != c,
            None => forall|k: int| 0 <= k < s.len() ==> s[k] != c,
        },
    decreases s.len(),
{
    if s.len() > 0 && s[s.len() - 1] != c {
        lemma_last_index(s.drop_last(), c);
        assert forall|k: int| 0 <= k < s.len() - 1 implies s.drop_last()[k] == s[k] by {}
    }
}

/// The file-name part of `p`: everything after the last separator.
pub open spec fn file_name_of(p: Seq<char>) -> Seq<char> {
    match last_index(p, '/') {
        Some(i) => p.subrange(i + 1, p.len() as int),
        None => p,
    }
}

/// The extension of a file name: what follows the last dot, provided the
/// dot is not the first character.
pub open spec fn extension_of(f: Seq<char>) -> Option<Seq<char>> {
    match last_index(f, '.') {
        Some(i) => if i > 0 {
            Some(f.subrange(i + 1, f.len() as int))
        } else {
            None
        },
        None => None,
    }
}

/// The extension of the file-name part of `p`.
pub open spec fn path_extension(p: Seq<char>) -> Option<Seq<char>> {
    extension_of(file_name_of(p))
}

/// Whether `p` names an HTML file: its extension is exactly `html`.
pub open spec fn is_html_path(p: Seq<char>) -> bool {
    path_extension(p) == Some("html"@)
}

/// Finds the index of the last occurrence of `c` in `s`, scanning backwards.
fn find_last(s: &str, c: char) -> (r: Option<usize>)
    ensures
        match r {
            Some(m) => last_index(s@, c) == Some(m as int),
            None => last_index(s@, c) is None,
        },
{
    let n = s.unicode_len();
    let mut i: usize = n;
    while i > 0
        invariant
            n == s@.len(),
            i <= n,
            forall|k: int| i <= k < n ==> s@[k] != c,
        decreases i,
    {
        i = i - 1;
        if s.get_char(i) == c {
            proof {
                lemma_last_index(s@, c);
                match last_index(s@, c) {
                    Some(m) => {
                        if m < i as int {
                            assert(s@[i as int] != c);
                            assert(false);
                        }
                        if m > i as int {
                            assert(s@[m] != c);
                            assert(false);
                        }
                    },
                    None => {
                        assert(s@[i as int] != c);
                        assert(false);
                    },
                }
            }
            return Some(i);
        }
    }
    proof {
        lemma_last_index(s@, c);
        match last_index(s@, c) {
            Some(m) => {
                assert(s@[m] != c);
                assert(false);
            },
            None => {},
        }
    }
    None
}

/// Whether `p` names an HTML file.
pub fn is_html_file(p: &str) -> (b: bool)
    ensures
        b == is_html_path(p@),
{
    let n = p.unicode_len();
    let fstart: usize = match find_last(p, '/') {
        Some(m) => {
            proof {
                lemma_last_index(p@, '/');
            }
            m + 1
        },
        None => 0,
    };
    assert(file_name_of(p@) =~= p@.subrange(fstart as int, n as int));
    let fname = p.substring_char(fstart, n);
    let flen = n - fstart;
    assert(fname@ == file_name_of(p@));
    match find_last(fname, '.') {
        Some(m) => {
            proof {
                lemma_last_index(fname@, '.');
            }
            if m == 0 {
                assert(extension_of(fname@) is None);
                false
            } else {
                let ext = fname.substring_char(m + 1, flen);
                crate::scan::str_eq(ext, "html")
            }
        },
        None => {
            assert(extension_of(fname@) is None);
            false
        },
    }
}

} // verus!
