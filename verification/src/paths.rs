//! Slash-separated paths, joined the way `Path::join` joins them on Unix.
use vstd::prelude::*;

use crate::text::{chars_of, extend_chars, string_of};

verus! {

/// `rel` appended to `base`: an absolute `rel` replaces `base`, and a separator
/// is put between the two unless `base` is empty or already ends with one.
pub open spec fn join_path(base: Seq<char>, rel: Seq<char>) -> Seq<char> {
    if rel.len() > 0 && rel[0] == '/' {
        rel
    } else if base.len() == 0 || base.last() == '/' {
        base + rel
    } else {
        base + seq!['/'] + rel
    }
}

/// `rel` appended to `base` (`Path::join`).
pub fn join(base: &str, rel: &str) -> (p: String)
    ensures
        p@ == join_path(base@, rel@),
{
    let b = chars_of(base);
    let r = chars_of(rel);
    if r.len() > 0 && r[0] == '/' {
        return string_of(r.as_slice());
    }
    let mut out = b;
    if out.len() > 0 && out[out.len() - 1] != '/' {
        out.push('/');
    }
    extend_chars(&mut out, r.as_slice());
    string_of(out.as_slice())
}

/// `path` is relative: it does not start with `/`.
pub open spec fn is_relative(path: Seq<char>) -> bool {
    path.len() == 0 || path[0] != '/'
}

/// Joining a relative path never leaves the base directory.
pub proof fn lemma_join_extends(base: Seq<char>, rel: Seq<char>)
    requires
        is_relative(rel),
    ensures
        base.is_prefix_of(join_path(base, rel)),
{
    let j = join_path(base, rel);
    if base.len() == 0 || base.last() == '/' {
        assert(j.subrange(0, base.len() as int) =~= base);
    } else {
        assert(j.subrange(0, base.len() as int) =~= base);
    }
}

/// Joining a longer relative path extends the join of its prefix.
pub proof fn lemma_join_monotone(base: Seq<char>, r1: Seq<char>, r2: Seq<char>)
    requires
        r1.len() > 0,
        is_relative(r1),
        r1.is_prefix_of(r2),
    ensures
        join_path(base, r1).is_prefix_of(join_path(base, r2)),
{
    assert(r2[0] == r1[0]);
    let j1 = join_path(base, r1);
    let j2 = join_path(base, r2);
    assert(j2.subrange(0, j1.len() as int) =~= j1);
}

/// Prefixes compose.
pub proof fn lemma_prefix_trans(a: Seq<char>, b: Seq<char>, c: Seq<char>)
    requires
        a.is_prefix_of(b),
        b.is_prefix_of(c),
    ensures
        a.is_prefix_of(c),
{
    assert(c.subrange(0, a.len() as int) =~= b.subrange(0, a.len() as int));
}

/// Number of occurrences of `c` in `s`.
pub open spec fn count_char(s: Seq<char>, c: char) -> nat
    decreases s.len(),
{
    if s.len() == 0 {
        0
    } else {
        count_char(s.drop_last(), c) + if s.last() == c { 1nat } else { 0nat }
    }
}

proof fn lemma_count_char_zero(s: Seq<char>, c: char)
    ensures
        count_char(s, c) == 0 <==> !s.contains(c),
    decreases s.len(),
{
    if s.len() > 0 {
        lemma_count_char_zero(s.drop_last(), c);
        if s.drop_last().contains(c) {
            let k = choose|k: int| 0 <= k < s.drop_last().len() && s.drop_last()[k] == c;
            assert(s[k] == c);
        }
        if s.contains(c) && s.last() != c {
            let k = choose|k: int| 0 <= k < s.len() && s[k] == c;
            assert(s.drop_last()[k] == c);
        }
    }
}

proof fn lemma_count_char_split(s: Seq<char>, t: Seq<char>, c: char)
    ensures
        count_char(s + t, c) == count_char(s, c) + count_char(t, c),
    decreases t.len(),
{
    if t.len() == 0 {
        assert(s + t =~= s);
    } else {
        assert((s + t).drop_last() =~= s + t.drop_last());
        lemma_count_char_split(s, t.drop_last(), c);
    }
}

proof fn lemma_count_single_slash()
    ensures
        count_char(seq!['/'], '/') == 1,
{
    assert(seq!['/'].drop_last() =~= Seq::<char>::empty());
    assert(count_char(Seq::<char>::empty(), '/') == 0);
    assert(seq!['/'].last() == '/');
}

/// Split `path` at its single `/` into the part before and the part after it.
/// A path with no `/`, or with more than one, is refused.
pub fn split_once_slash(path: &str) -> (r: Option<(String, String)>)
    ensures
        r is Some <==> count_char(path@, '/') == 1,
        r matches Some((first, second)) ==> {
            &&& first@ + seq!['/'] + second@ == path@
            &&& !first@.contains('/')
            &&& !second@.contains('/')
        },
{
    let v = chars_of(path);
    let n = v.len();
    let mut i: usize = 0;
    while i < n && v[i] != '/'
        invariant
            n == v@.len(),
            i <= n,
            forall|k: int| 0 <= k < i ==> v@[k] != '/',
        decreases n - i,
    {
        i = i + 1;
    }
    let ghost before = v@.take(i as int);
    proof {
        assert(!before.contains('/'));
        lemma_count_char_zero(before, '/');
    }
    if i == n {
        assert(before =~= v@);
        return None;
    }
    let mut j: usize = i + 1;
    while j < n && v[j] != '/'
        invariant
            n == v@.len(),
            i < j <= n,
            forall|k: int| i < k < j ==> v@[k] != '/',
        decreases n - j,
    {
        j = j + 1;
    }
    let ghost after = v@.subrange(i + 1, j as int);
    proof {
        assert(!after.contains('/'));
        lemma_count_char_zero(after, '/');
        lemma_count_char_split(before, seq!['/'], '/');
        lemma_count_char_split(before + seq!['/'], after, '/');
        lemma_count_single_slash();
    }
    if j < n {
        let ghost rest = v@.skip(j as int);
        proof {
            assert(rest.take(1) =~= seq!['/']);
            assert(rest =~= rest.take(1) + rest.skip(1));
            lemma_count_single_slash();
            lemma_count_char_split(rest.take(1), rest.skip(1), '/');
            assert(v@ =~= before + seq!['/'] + after + rest);
            lemma_count_char_split(before + seq!['/'] + after, rest, '/');
        }
        return None;
    }
    assert(v@ =~= before + seq!['/'] + after);
    let first = string_of(vstd::slice::slice_subrange(v.as_slice(), 0, i));
    let second = string_of(vstd::slice::slice_subrange(v.as_slice(), i + 1, n));
    Some((first, second))
}

} // verus!
