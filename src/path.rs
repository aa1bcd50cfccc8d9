//! Slash-separated paths, modelled as character sequences.
use vstd::prelude::*;

verus! {

/// The position of the last `c` in `s`, or -1 when there is none.
pub open spec fn last_index_of(s: Seq<char>, c: char) -> int
    decreases s.len(),
{
    if s.len() == 0 {
        -1
    } else if s[s.len() - 1] == c {
        s.len() - 1
    } else {
        last_index_of(s.subrange(0, s.len() - 1), c)
    }
}

pub proof fn lemma_last_index_of(s: Seq<char>, c: char)
    ensures
        -1 <= last_index_of(s, c) < s.len(),
        last_index_of(s, c) >= 0 ==> s[last_index_of(s, c)] == c,
        forall|j: int| last_index_of(s, c) < j < s.len() ==> s[j] != c,
    decreases s.len(),
{
    if s.len() > 0 && s[s.len() - 1] != c {
        let t = s.subrange(0, s.len() - 1);
        lemma_last_index_of(t, c);
        assert forall|j: int| last_index_of(s, c) < j < s.len() implies s[j] != c by {
            if j < s.len() - 1 {
                assert(t[j] == s[j]);
            }
        }
    }
}

/// The final component of a path: what follows its last slash.
pub open spec fn file_name(p: Seq<char>) -> Seq<char> {
    p.subrange(last_index_of(p, '/') + 1, p.len() as int)
}

/// The directory part of a path, its last slash included.
pub open spec fn dir_part(p: Seq<char>) -> Seq<char> {
    p.subrange(0, last_index_of(p, '/') + 1)
}

/// The extension of a file name: what follows its last dot, where that dot is not its first
/// character.
pub open spec fn extension(f: Seq<char>) -> Option<Seq<char>> {
    let k = last_index_of(f, '.');
    if k > 0 {
        Some(f.subrange(k + 1, f.len() as int))
    } else {
        None
    }
}

/// A file name without its extension.
pub open spec fn stem(f: Seq<char>) -> Seq<char> {
    let k = last_index_of(f, '.');
    if k > 0 {
        f.subrange(0, k)
    } else {
        f
    }
}

/// The extension of a path's final component.
pub open spec fn path_extension(p: Seq<char>) -> Option<Seq<char>> {
    extension(file_name(p))
}

/// `a` and `b` joined by one slash; an absolute `b` replaces `a`.
pub open spec fn joined(a: Seq<char>, b: Seq<char>) -> Seq<char> {
    if b.len() > 0 && b[0] == '/' {
        b
    } else if a.len() == 0 {
        b
    } else if a[a.len() - 1] == '/' {
        a + b
    } else {
        a + seq!['/'] + b
    }
}

/// `p` with the leading slashes removed.
pub open spec fn without_leading_slashes(p: Seq<char>) -> Seq<char>
    decreases p.len(),
{
    if p.len() > 0 && p[0] == '/' {
        without_leading_slashes(p.subrange(1, p.len() as int))
    } else {
        p
    }
}

/// The part of `p` below the directory `base`, when `p` lies under `base`.
pub open spec fn below(base: Seq<char>, p: Seq<char>) -> Option<Seq<char>> {
    if p == base {
        Some(Seq::empty())
    } else if base.len() < p.len() && p.subrange(0, base.len() as int) == base && (base.len()
        == 0 || base[base.len() - 1] == '/' || p[base.len() as int] == '/') {
        Some(without_leading_slashes(p.subrange(base.len() as int, p.len() as int)))
    } else {
        None
    }
}

/// The position of the last `c` in `s`.
pub fn last_index(s: &str, c: char) -> (r: Option<usize>)
    ensures
        match r {
            Some(i) => i == last_index_of(s@, c),
            None => last_index_of(s@, c) == -1,
        },
{
    let n = s.unicode_len();
    let mut i: usize = n;
    assert(s@.subrange(0, n as int) =~= s@);
    while i > 0
        invariant
            n == s@.len(),
            i <= n,
            last_index_of(s@, c) == last_index_of(s@.subrange(0, i as int), c),
        decreases i,
    {
        let t = Ghost(s@.subrange(0, i as int));
        assert(t@.subrange(0, t@.len() - 1) =~= s@.subrange(0, i - 1));
        if s.get_char(i - 1) == c {
            return Some(i - 1);
        }
        i = i - 1;
    }
    None
}

/// The final component of `p`.
pub fn file_name_of(p: &str) -> (r: &str)
    ensures
        r@ == file_name(p@),
{
    let n = p.unicode_len();
    proof {
        lemma_last_index_of(p@, '/');
    }
    let start: usize = match last_index(p, '/') {
        Some(i) => i + 1,
        None => 0,
    };
    p.substring_char(start, n)
}

/// The extension of the final component of `p`.
pub fn extension_of(p: &str) -> (r: Option<&str>)
    ensures
        match r {
            Some(e) => path_extension(p@) == Some(e@),
            None => path_extension(p@) is None,
        },
{
    let f = file_name_of(p);
    let n = f.unicode_len();
    proof {
        lemma_last_index_of(f@, '.');
    }
    match last_index(f, '.') {
        Some(k) => {
            if k > 0 {
                Some(f.substring_char(k + 1, n))
            } else {
                None
            }
        },
        None => None,
    }
}

/// The final component of `p` without its extension.
pub fn stem_of(p: &str) -> (r: &str)
    ensures
        r@ == stem(file_name(p@)),
{
    let f = file_name_of(p);
    proof {
        lemma_last_index_of(f@, '.');
    }
    match last_index(f, '.') {
        Some(k) => {
            if k > 0 {
                f.substring_char(0, k)
            } else {
                f
            }
        },
        None => f,
    }
}

/// `a` and `b` joined by one slash; an absolute `b` replaces `a`.
pub fn join(a: &str, b: &str) -> (r: String)
    ensures
        r@ == joined(a@, b@),
{
    let la = a.unicode_len();
    if b.unicode_len() > 0 && b.get_char(0) == '/' {
        return b.to_owned();
    }
    if la == 0 {
        return b.to_owned();
    }
    let mut out = a.to_owned();
    if a.get_char(la - 1) != '/' {
        out.append("/");
        proof {
            reveal_strlit("/");
        }
    }
    out.append(b);
    out
}

/// `p` with the leading slashes removed.
pub fn strip_leading_slashes(p: &str) -> (r: &str)
    ensures
        r@ == without_leading_slashes(p@),
{
    let n = p.unicode_len();
    let mut i: usize = 0;
    assert(p@.subrange(0, n as int) =~= p@);
    while i < n && p.get_char(i) == '/'
        invariant
            n == p@.len(),
            i <= n,
            without_leading_slashes(p@) == without_leading_slashes(p@.subrange(i as int, n as int)),
        decreases n - i,
    {
        let t = Ghost(p@.subrange(i as int, n as int));
        assert(t@.subrange(1, t@.len() as int) =~= p@.subrange(i + 1, n as int));
        i = i + 1;
    }
    p.substring_char(i, n)
}

/// The part of `p` below the directory `base`, when `p` lies under it.
pub fn relative_to<'a>(base: &str, p: &'a str) -> (r: Option<&'a str>)
    ensures
        match r {
            Some(q) => below(base@, p@) == Some(q@),
            None => below(base@, p@) is None,
        },
{
    let nb = base.unicode_len();
    let np = p.unicode_len();
    if np == nb && crate::text::starts_with(p, base) {
        assert(p@.subrange(0, nb as int) =~= p@);
        proof {
            reveal_strlit("");
        }
        return Some("");
    }
    if nb < np && crate::text::starts_with(p, base) {
        if nb == 0 || base.get_char(nb - 1) == '/' || p.get_char(nb) == '/' {
            let rest = p.substring_char(nb, np);
            return Some(strip_leading_slashes(rest));
        }
    }
    proof {
        if p@ == base@ {
            assert(p@.subrange(0, nb as int) =~= p@);
        }
    }
    None
}

/// Whether `a` and `b` hold the same characters.
pub fn same_text(a: &str, b: &str) -> (r: bool)
    ensures
        r == (a@ == b@),
{
    let n = a.unicode_len();
    if n != b.unicode_len() {
        return false;
    }
    let mut i: usize = 0;
    while i < n
        invariant
            n == a@.len(),
            n == b@.len(),
            i <= n,
            forall|j: int| 0 <= j < i ==> a@[j] == b@[j],
        decreases n - i,
    {
        if a.get_char(i) != b.get_char(i) {
            return false;
        }
        i = i + 1;
    }
    assert(a@ =~= b@);
    true
}

} // verus!
