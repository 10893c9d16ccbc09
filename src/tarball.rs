//! Paths of package archive entries.
//!
//! Every entry of a package archive lies under one top-level directory
//! (conventionally `package`, but any name); extraction writes each entry
//! relative to that directory.
use vstd::prelude::*;
use vstd::string::*;

verus! {

/// The text without its leading `/` characters.
pub open spec fn trim_leading_slashes(s: Seq<char>) -> Seq<char>
    decreases s.len(),
{
    if s.len() > 0 && s[0] == '/' {
        trim_leading_slashes(s.drop_first())
    } else {
        s
    }
}

/// An entry's path with its first segment, whatever its name, and the
/// separators after it removed; a path of one segment gives the empty path.
pub open spec fn entry_relative(p: Seq<char>) -> Seq<char>
    decreases p.len(),
{
    if p.len() == 0 {
        Seq::empty()
    } else if p[0] == '/' {
        trim_leading_slashes(p.drop_first())
    } else {
        entry_relative(p.drop_first())
    }
}

proof fn lemma_trim_from(s: Seq<char>, j: int)
    requires
        0 <= j <= s.len(),
        forall|k: int| 0 <= k < j ==> s[k] == '/',
    ensures
        trim_leading_slashes(s) == trim_leading_slashes(s.subrange(j, s.len() as int)),
    decreases j,
{
    if j > 0 {
        assert(s.drop_first().subrange(j - 1, s.drop_first().len() as int) =~= s.subrange(
            j,
            s.len() as int,
        ));
        lemma_trim_from(s.drop_first(), j - 1);
    } else {
        assert(s.subrange(0, s.len() as int) =~= s);
    }
}

proof fn lemma_relative_from(p: Seq<char>, i: int)
    requires
        0 <= i <= p.len(),
        forall|k: int| 0 <= k < i ==> p[k] != '/',
    ensures
        entry_relative(p) == entry_relative(p.subrange(i, p.len() as int)),
    decreases i,
{
    if i > 0 {
        assert(p.drop_first().subrange(i - 1, p.drop_first().len() as int) =~= p.subrange(
            i,
            p.len() as int,
        ));
        lemma_relative_from(p.drop_first(), i - 1);
    } else {
        assert(p.subrange(0, p.len() as int) =~= p);
    }
}

/// Strips the archive's top-level directory from an entry's path.
pub fn strip_top_segment(path: &str) -> (r: String)
    ensures
        r@ == entry_relative(path@),
{
    let n = path.unicode_len();
    let mut i: usize = 0;
    while i < n && path.get_char(i) != '/'
        invariant
            n == path@.len(),
            i <= n,
            forall|k: int| 0 <= k < i ==> path@[k] != '/',
        decreases n - i,
    {
        i = i + 1;
    }
    proof {
        lemma_relative_from(path@, i as int);
    }
    if i == n {
        assert(path@.subrange(n as int, n as int).len() == 0);
        return String::new();
    }
    let mut j: usize = i + 1;
    while j < n && path.get_char(j) == '/'
        invariant
            n == path@.len(),
            i < j <= n,
            forall|k: int| i < k < j ==> path@[k] == '/',
        decreases n - j,
    {
        j = j + 1;
    }
    proof {
        let q = path@.subrange(i as int, n as int);
        assert(q[0] == '/');
        let s = q.drop_first();
        assert(s =~= path@.subrange(i + 1, n as int));
        lemma_trim_from(s, j - i - 1);
        assert(s.subrange(j - i - 1, s.len() as int) =~= path@.subrange(j as int, n as int));
        if j < n {
            assert(path@.subrange(j as int, n as int)[0] != '/');
        }
    }
    String::from_str(path.substring_char(j, n))
}

} // verus!
