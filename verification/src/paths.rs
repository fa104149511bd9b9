//! Reading paths and URIs: file names, extensions, the language of a file.
use vstd::prelude::*;
use crate::text::{chars_of, string_of_range};

verus! {

/// Where the `/`-free run of characters that ends at `n` begins.
pub open spec fn seg_start(s: Seq<char>, n: int) -> int
    decreases n,
{
    if n <= 0 {
        0
    } else if s[n - 1] == '/' {
        n
    } else {
        seg_start(s, n - 1)
    }
}

/// Bounds of the last segment within `s[..n]` that names something: not empty, not `.`.
pub open spec fn last_named(s: Seq<char>, n: int) -> Option<(int, int)>
    decreases n,
{
    if n <= 0 || n > s.len() {
        None
    } else if s[n - 1] == '/' {
        last_named(s, n - 1)
    } else {
        let i = if 0 <= seg_start(s, n) < n { seg_start(s, n) } else { 0 };
        if s.subrange(i, n) == seq!['.'] {
            last_named(s, i)
        } else {
            Some((i, n))
        }
    }
}

/// The file name of a path: its last component, unless that is `..` or there is none.
pub open spec fn file_name_spec(s: Seq<char>) -> Option<Seq<char>> {
    match last_named(s, s.len() as int) {
        Some((i, j)) => if s.subrange(i, j) == seq!['.', '.'] {
            None
        } else {
            Some(s.subrange(i, j))
        },
        None => None,
    }
}

/// Position of the last `.` in `s[..n]`, or -1.
pub open spec fn last_dot(s: Seq<char>, n: int) -> int
    decreases n,
{
    if n <= 0 {
        -1
    } else if s[n - 1] == '.' {
        n - 1
    } else {
        last_dot(s, n - 1)
    }
}

/// The extension of a path: what follows the last `.` of its file name, when
/// that dot is not the name's first character.
pub open spec fn extension_spec(s: Seq<char>) -> Option<Seq<char>> {
    match file_name_spec(s) {
        Some(name) => {
            let k = last_dot(name, name.len() as int);
            if k > 0 {
                Some(name.subrange(k + 1, name.len() as int))
            } else {
                None
            }
        },
        None => None,
    }
}

proof fn lemma_seg_start(s: Seq<char>, n: int)
    requires
        0 < n <= s.len(),
        s[n - 1] != '/',
    ensures
        0 <= seg_start(s, n) < n,
        seg_start(s, n) == 0 || s[seg_start(s, n) - 1] == '/',
        forall|k: int| seg_start(s, n) <= k < n ==> s[k] != '/',
    decreases n,
{
    reveal_with_fuel(seg_start, 2);
    if n > 1 && s[n - 2] != '/' {
        lemma_seg_start(s, n - 1);
        assert(seg_start(s, n) == seg_start(s, n - 1));
    } else if n > 1 {
        assert(seg_start(s, n) == n - 1);
    } else {
        assert(seg_start(s, n) == 0);
    }
}

proof fn lemma_last_dot(s: Seq<char>, n: int)
    requires
        0 <= n <= s.len(),
    ensures
        -1 <= last_dot(s, n) < n,
        last_dot(s, n) >= 0 ==> s[last_dot(s, n)] == '.',
        forall|k: int| last_dot(s, n) < k < n ==> s[k] != '.',
    decreases n,
{
    if n > 0 && s[n - 1] != '.' {
        lemma_last_dot(s, n - 1);
    }
}

/// Bounds of the file name's segment within `cs`, when it has one.
fn named_bounds(cs: &Vec<char>) -> (r: Option<(usize, usize)>)
    ensures
        match r {
            Some((i, j)) => last_named(cs@, cs@.len() as int) == Some((i as int, j as int)) && i
                < j <= cs@.len(),
            None => last_named(cs@, cs@.len() as int) is None,
        },
{
    let mut n: usize = cs.len();
    while n > 0
        invariant
            n <= cs@.len(),
            last_named(cs@, cs@.len() as int) == last_named(cs@, n as int),
        decreases n,
    {
        if cs[n - 1] == '/' {
            n = n - 1;
        } else {
            let mut i: usize = n - 1;
            while i > 0 && cs[i - 1] != '/'
                invariant
                    0 <= i < n <= cs@.len(),
                    cs@[n - 1] != '/',
                    seg_start(cs@, n as int) == seg_start(cs@, i as int + 1),
                    forall|k: int| i <= k < n ==> cs@[k] != '/',
                decreases i,
            {
                i = i - 1;
            }
            proof {
                lemma_seg_start(cs@, n as int);
                assert(seg_start(cs@, i as int) == i);
            }
            if n - i == 1 && cs[i] == '.' {
                assert(cs@.subrange(i as int, n as int) =~= seq!['.']);
                n = i;
            } else {
                assert(cs@.subrange(i as int, n as int) != seq!['.']) by {
                    if cs@.subrange(i as int, n as int) == seq!['.'] {
                        assert(cs@.subrange(i as int, n as int).len() == 1);
                        assert(cs@.subrange(i as int, n as int)[0] == cs@[i as int]);
                    }
                }
                return Some((i, n));
            }
        }
    }
    None
}

/// The file name of a path (`Path::file_name`).
pub fn file_name(path: &str) -> (r: Option<String>)
    ensures
        match r {
            Some(name) => file_name_spec(path@) == Some(name@),
            None => file_name_spec(path@) is None,
        },
{
    let cs = chars_of(path);
    match named_bounds(&cs) {
        Some((i, j)) => {
            if j - i == 2 && cs[i] == '.' && cs[i + 1] == '.' {
                assert(cs@.subrange(i as int, j as int) =~= seq!['.', '.']);
                None
            } else {
                assert(cs@.subrange(i as int, j as int) != seq!['.', '.']) by {
                    if cs@.subrange(i as int, j as int) == seq!['.', '.'] {
                        assert(cs@.subrange(i as int, j as int).len() == 2);
                        assert(cs@.subrange(i as int, j as int)[0] == cs@[i as int]);
                        assert(cs@.subrange(i as int, j as int)[1] == cs@[i + 1]);
                    }
                }
                Some(string_of_range(&cs, i, j))
            }
        },
        None => None,
    }
}

/// The extension of a path (`Path::extension`).
pub fn extension(path: &str) -> (r: Option<String>)
    ensures
        match r {
            Some(e) => extension_spec(path@) == Some(e@),
            None => extension_spec(path@) is None,
        },
{
    match file_name(path) {
        Some(name) => {
            let cs = chars_of(name.as_str());
            let mut k: usize = cs.len();
            while k > 0 && cs[k - 1] != '.'
                invariant
                    k <= cs@.len(),
                    last_dot(cs@, cs@.len() as int) == last_dot(cs@, k as int),
                decreases k,
            {
                k = k - 1;
            }
            if k > 1 {
                Some(string_of_range(&cs, k, cs.len()))
            } else {
                None
            }
        },
        None => None,
    }
}

} // verus!
