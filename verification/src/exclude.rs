//! The exclusion filter: a single optional glob pattern that exempts
//! matching paths from every check.

use vstd::prelude::*;

verus! {

/// Glob matching: `*` matches any run of characters, `?` matches any single
/// character, and every other character matches itself.
pub open spec fn glob_match_spec(pat: Seq<char>, s: Seq<char>) -> bool
    decreases pat.len() + s.len(),
{
    if pat.len() == 0 {
        s.len() == 0
    } else if pat[0] == '*' {
        glob_match_spec(pat.drop_first(), s) || (s.len() > 0 && glob_match_spec(
            pat,
            s.drop_first(),
        ))
    } else {
        s.len() > 0 && (pat[0] == '?' || pat[0] == s[0]) && glob_match_spec(
            pat.drop_first(),
            s.drop_first(),
        )
    }
}

fn glob_match_from(pat: &str, s: &str, np: usize, ns: usize, pi: usize, si: usize) -> (b: bool)
    requires
        np == pat@.len(),
        ns == s@.len(),
        pi <= np,
        si <= ns,
    ensures
        b == glob_match_spec(
            pat@.subrange(pi as int, np as int),
            s@.subrange(si as int, ns as int),
        ),
    decreases np + ns - pi - si,
{
    let ghost ps = pat@.subrange(pi as int, np as int);
    let ghost ss = s@.subrange(si as int, ns as int);
    if pi == np {
        return si == ns;
    }
    assert(ps[0] == pat@[pi as int]);
    assert(ps.drop_first() =~= pat@.subrange(pi + 1 as int, np as int));
    let pc = pat.get_char(pi);
    if pc == '*' {
        if glob_match_from(pat, s, np, ns, pi + 1, si) {
            return true;
        }
        if si < ns {
            assert(ss.drop_first() =~= s@.subrange(si + 1 as int, ns as int));
            return glob_match_from(pat, s, np, ns, pi, si + 1);
        }
        false
    } else {
        if si == ns {
            return false;
        }
        assert(ss[0] == s@[si as int]);
        let sc = s.get_char(si);
        if pc == '?' || pc == sc {
            assert(ss.drop_first() =~= s@.subrange(si + 1 as int, ns as int));
            glob_match_from(pat, s, np, ns, pi + 1, si + 1)
        } else {
            false
        }
    }
}

/// Whether the glob pattern `pat` matches the whole of `s`.
pub fn glob_match(pat: &str, s: &str) -> (b: bool)
    ensures
        b == glob_match_spec(pat@, s@),
{
    let np = pat.unicode_len();
    let ns = s.unicode_len();
    assert(pat@.subrange(0, np as int) =~= pat@);
    assert(s@.subrange(0, ns as int) =~= s@);
    glob_match_from(pat, s, np, ns, 0, 0)
}

/// Whether `path` is exempt from all checks under the optional pattern.
pub open spec fn excluded(pattern: Option<String>, path: Seq<char>) -> bool {
    match pattern {
        Some(p) => glob_match_spec(p@, path),
        None => false,
    }
}

/// Whether `path` is exempt from all checks under the optional pattern.
pub fn is_excluded(pattern: &Option<String>, path: &str) -> (b: bool)
    ensures
        b == excluded(*pattern, path@),
{
    match pattern {
        Some(p) => glob_match(p.as_str(), path),
        None => false,
    }
}

} // verus!
