//! Character-level text utilities with exact specifications.
use vstd::prelude::*;

verus! {

broadcast use vstd::string::group_string_axioms;

/// Appends one character to a `String` (`String::push`).
#[verifier::external_body]
fn push_char(s: &mut String, c: char)
    ensures
        final(s)@ == old(s)@.push(c),
{
    s.push(c);
}

/// The characters of `s`, in order.
pub fn chars_of(s: &str) -> (v: Vec<char>)
    ensures
        v@ == s@,
{
    let mut v: Vec<char> = Vec::new();
    for c in it: s.chars()
        invariant
            v@ == it.seq().take(it.index()),
            it.seq() == s@,
    {
        v.push(c);
    }
    v
}

/// The string made of the characters of `v`.
pub fn string_of(v: &[char]) -> (s: String)
    ensures
        s@ == v@,
{
    let mut s = String::new();
    let mut i: usize = 0;
    while i < v.len()
        invariant
            i <= v.len(),
            s@ == v@.take(i as int),
        decreases v.len() - i,
    {
        push_char(&mut s, v[i]);
        assert(v@.take(i + 1) =~= v@.take(i as int).push(v@[i as int]));
        i = i + 1;
    }
    assert(v@.take(v.len() as int) =~= v@);
    s
}


/// `p` occurs in `s` starting at index `i`.
pub open spec fn occurs_at(s: Seq<char>, p: Seq<char>, i: int) -> bool {
    0 <= i && i + p.len() <= s.len() && s.subrange(i, i + p.len()) == p
}

/// `p` occurs somewhere in `s` (the empty sequence occurs everywhere).
pub open spec fn contains_seq(s: Seq<char>, p: Seq<char>) -> bool {
    exists|i: int| occurs_at(s, p, i)
}

/// Every non-overlapping occurrence of `p` in `s`, taken from left to right,
/// replaced by `r`. An empty `p` matches before every character and at the end.
pub open spec fn replace_all(s: Seq<char>, p: Seq<char>, r: Seq<char>) -> Seq<char>
    decreases s.len(),
{
    if p.len() == 0 {
        if s.len() == 0 {
            r
        } else {
            r + seq![s[0]] + replace_all(s.drop_first(), p, r)
        }
    } else if s.len() < p.len() {
        s
    } else if s.take(p.len() as int) == p {
        r + replace_all(s.skip(p.len() as int), p, r)
    } else {
        seq![s[0]] + replace_all(s.drop_first(), p, r)
    }
}

/// The Unicode `White_Space` property.
pub open spec fn is_white_space(c: char) -> bool {
    ||| ('\t' <= c && c <= '\r')
    ||| c == ' '
    ||| c == '\u{85}'
    ||| c == '\u{a0}'
    ||| c == '\u{1680}'
    ||| ('\u{2000}' <= c && c <= '\u{200a}')
    ||| c == '\u{2028}'
    ||| c == '\u{2029}'
    ||| c == '\u{202f}'
    ||| c == '\u{205f}'
    ||| c == '\u{3000}'
}

/// Number of white-space characters at the start of `s`.
pub open spec fn leading_white_space(s: Seq<char>) -> nat
    decreases s.len(),
{
    if s.len() > 0 && is_white_space(s[0]) {
        1 + leading_white_space(s.drop_first())
    } else {
        0
    }
}

/// Number of white-space characters at the end of `s`.
pub open spec fn trailing_white_space(s: Seq<char>) -> nat
    decreases s.len(),
{
    if s.len() > 0 && is_white_space(s.last()) {
        1 + trailing_white_space(s.drop_last())
    } else {
        0
    }
}

/// `s` without its leading and trailing white space.
pub open spec fn trim(s: Seq<char>) -> Seq<char> {
    let t = s.skip(leading_white_space(s) as int);
    t.take(t.len() - trailing_white_space(t))
}

proof fn lemma_leading_white_space_bound(s: Seq<char>)
    ensures
        leading_white_space(s) <= s.len(),
        forall|k: int| 0 <= k < leading_white_space(s) ==> is_white_space(#[trigger] s[k]),
        leading_white_space(s) < s.len() ==> !is_white_space(s[leading_white_space(s) as int]),
    decreases s.len(),
{
    if s.len() > 0 && is_white_space(s[0]) {
        lemma_leading_white_space_bound(s.drop_first());
        assert forall|k: int| 0 <= k < leading_white_space(s) implies is_white_space(#[trigger] s[k]) by {
            if k > 0 {
                assert(s[k] == s.drop_first()[k - 1]);
            }
        }
    }
}

proof fn lemma_trailing_white_space_bound(s: Seq<char>)
    ensures
        trailing_white_space(s) <= s.len(),
        forall|k: int| s.len() - trailing_white_space(s) <= k < s.len() ==> is_white_space(#[trigger] s[k]),
        trailing_white_space(s) < s.len() ==> !is_white_space(s[s.len() - trailing_white_space(s) - 1]),
    decreases s.len(),
{
    if s.len() > 0 && is_white_space(s.last()) {
        lemma_trailing_white_space_bound(s.drop_last());
        assert forall|k: int| s.len() - trailing_white_space(s) <= k < s.len() implies is_white_space(#[trigger] s[k]) by {
            if k < s.len() - 1 {
                assert(s[k] == s.drop_last()[k]);
            }
        }
    }
}

/// Leading white-space count is determined by the positions of white space.
proof fn lemma_leading_white_space_exact(s: Seq<char>, n: int)
    requires
        0 <= n <= s.len(),
        forall|k: int| 0 <= k < n ==> is_white_space(#[trigger] s[k]),
        n < s.len() ==> !is_white_space(s[n]),
    ensures
        leading_white_space(s) == n,
    decreases s.len(),
{
    if n > 0 {
        assert(is_white_space(s[0]));
        assert forall|k: int| 0 <= k < n - 1 implies is_white_space(#[trigger] s.drop_first()[k]) by {
            assert(s.drop_first()[k] == s[k + 1]);
        }
        if n - 1 < s.drop_first().len() {
            assert(s.drop_first()[n - 1] == s[n]);
        }
        lemma_leading_white_space_exact(s.drop_first(), n - 1);
    } else if s.len() > 0 {
        assert(!is_white_space(s[0]));
    }
}

/// Trailing white-space count is determined by the positions of white space.
proof fn lemma_trailing_white_space_exact(s: Seq<char>, n: int)
    requires
        0 <= n <= s.len(),
        forall|k: int| s.len() - n <= k < s.len() ==> is_white_space(#[trigger] s[k]),
        n < s.len() ==> !is_white_space(s[s.len() - n - 1]),
    ensures
        trailing_white_space(s) == n,
    decreases s.len(),
{
    if n > 0 {
        assert(is_white_space(s[s.len() - 1]));
        assert forall|k: int| s.drop_last().len() - (n - 1) <= k < s.drop_last().len() implies is_white_space(#[trigger] s.drop_last()[k]) by {
            assert(s.drop_last()[k] == s[k]);
        }
        if n - 1 < s.drop_last().len() {
            assert(s.drop_last()[s.drop_last().len() - (n - 1) - 1] == s[s.len() - n - 1]);
        }
        lemma_trailing_white_space_exact(s.drop_last(), n - 1);
    } else if s.len() > 0 {
        assert(!is_white_space(s.last()));
    }
}

/// Whether `c` has the Unicode `White_Space` property (`char::is_whitespace`).
pub fn is_white_space_char(c: char) -> (b: bool)
    ensures
        b == is_white_space(c),
{
    ('\t' <= c && c <= '\r') || c == ' ' || c == '\u{85}' || c == '\u{a0}' || c == '\u{1680}'
        || ('\u{2000}' <= c && c <= '\u{200a}') || c == '\u{2028}' || c == '\u{2029}'
        || c == '\u{202f}' || c == '\u{205f}' || c == '\u{3000}'
}

/// `s` without its leading and trailing white space (`str::trim`).
pub fn trim_chars(s: &[char]) -> (t: Vec<char>)
    ensures
        t@ == trim(s@),
{
    let n = s.len();
    let mut a: usize = 0;
    while a < n && is_white_space_char(s[a])
        invariant
            n == s@.len(),
            a <= n,
            forall|k: int| 0 <= k < a ==> is_white_space(#[trigger] s@[k]),
        decreases n - a,
    {
        a = a + 1;
    }
    proof {
        lemma_leading_white_space_exact(s@, a as int);
    }
    let mut b: usize = n;
    while b > a && is_white_space_char(s[b - 1])
        invariant
            n == s@.len(),
            a <= b <= n,
            forall|k: int| b <= k < n ==> is_white_space(#[trigger] s@[k]),
        decreases b - a,
    {
        b = b - 1;
    }
    let ghost u = s@.skip(a as int);
    proof {
        assert forall|k: int| u.len() - (n - b) <= k < u.len() implies is_white_space(#[trigger] u[k]) by {
            assert(u[k] == s@[k + a]);
        }
        if n - b < u.len() {
            assert(u[u.len() - (n - b) - 1] == s@[b - 1]);
        }
        lemma_trailing_white_space_exact(u, (n - b) as int);
    }
    let mut t: Vec<char> = Vec::new();
    let mut i: usize = a;
    while i < b
        invariant
            a <= i <= b <= n,
            n == s@.len(),
            t@ == s@.subrange(a as int, i as int),
        decreases b - i,
    {
        t.push(s[i]);
        assert(s@.subrange(a as int, i + 1) =~= s@.subrange(a as int, i as int).push(s@[i as int]));
        i = i + 1;
    }
    assert(t@ =~= trim(s@));
    t
}

/// Whether `p` occurs in `s` at index `i`.
pub fn occurs_at_index(s: &[char], p: &[char], i: usize) -> (b: bool)
    ensures
        b == occurs_at(s@, p@, i as int),
{
    if i > s.len() || p.len() > s.len() - i {
        return false;
    }
    let mut k: usize = 0;
    while k < p.len()
        invariant
            i + p.len() <= s.len(),
            k <= p@.len(),
            forall|j: int| 0 <= j < k ==> s@[i + j] == p@[j],
        decreases p.len() - k,
    {
        if s[i + k] != p[k] {
            assert(s@.subrange(i as int, i + p@.len())[k as int] != p@[k as int]);
            return false;
        }
        k = k + 1;
    }
    assert(s@.subrange(i as int, i + p@.len()) =~= p@);
    true
}

/// Whether `p` occurs anywhere in `s` (`str::contains`).
pub fn contains_chars(s: &[char], p: &[char]) -> (b: bool)
    ensures
        b == contains_seq(s@, p@),
{
    let mut i: usize = 0;
    loop
        invariant
            i <= s.len(),
            forall|j: int| 0 <= j < i ==> !occurs_at(s@, p@, j),
        decreases s.len() - i,
    {
        if occurs_at_index(s, p, i) {
            return true;
        }
        if i == s.len() {
            assert forall|j: int| !occurs_at(s@, p@, j) by {
                if 0 <= j && j < i {
                }
            }
            return false;
        }
        i = i + 1;
    }
}


/// Appends the characters of `r` to `out`.
pub fn extend_chars(out: &mut Vec<char>, r: &[char])
    ensures
        final(out)@ == old(out)@ + r@,
{
    let mut k: usize = 0;
    while k < r.len()
        invariant
            k <= r@.len(),
            out@ == old(out)@ + r@.take(k as int),
        decreases r.len() - k,
    {
        out.push(r[k]);
        assert(r@.take(k + 1) =~= r@.take(k as int).push(r@[k as int]));
        k = k + 1;
    }
    assert(r@.take(r@.len() as int) =~= r@);
}

/// Every non-overlapping occurrence of `p` in `s` replaced by `r` (`str::replace`).
pub fn replace_all_chars(s: &[char], p: &[char], r: &[char]) -> (out: Vec<char>)
    ensures
        out@ == replace_all(s@, p@, r@),
{
    let mut out: Vec<char> = Vec::new();
    let mut i: usize = 0;
    assert(s@.skip(0) =~= s@);
    if p.len() == 0 {
        while i < s.len()
            invariant
                p@.len() == 0,
                i <= s@.len(),
                out@ + replace_all(s@.skip(i as int), p@, r@) == replace_all(s@, p@, r@),
            decreases s.len() - i,
        {
            let ghost t = s@.skip(i as int);
            assert(t.drop_first() =~= s@.skip(i + 1));
            assert(t[0] == s@[i as int]);
            extend_chars(&mut out, r);
            out.push(s[i]);
            i = i + 1;
        }
        assert(replace_all(s@.skip(i as int), p@, r@) == r@);
        extend_chars(&mut out, r);
    } else {
        while i < s.len()
            invariant
                p@.len() > 0,
                i <= s@.len(),
                out@ + replace_all(s@.skip(i as int), p@, r@) == replace_all(s@, p@, r@),
            decreases s.len() - i,
        {
            let ghost t = s@.skip(i as int);
            let ghost prev = out@;
            if occurs_at_index(s, p, i) {
                assert(t.take(p@.len() as int) =~= s@.subrange(i as int, i + p@.len()));
                assert(t.skip(p@.len() as int) =~= s@.skip(i + p@.len()));
                extend_chars(&mut out, r);
                i = i + p.len();
                assert(prev + replace_all(t, p@, r@) =~= out@ + replace_all(s@.skip(i as int), p@, r@));
            } else {
                assert(t.drop_first() =~= s@.skip(i + 1));
                if p.len() <= s.len() - i {
                    assert(t.take(p@.len() as int) != p@) by {
                        if t.take(p@.len() as int) == p@ {
                            assert(s@.subrange(i as int, i + p@.len()) =~= t.take(p@.len() as int));
                        }
                    }
                    assert(replace_all(t, p@, r@) == seq![t[0]] + replace_all(t.drop_first(), p@, r@));
                } else {
                    assert(replace_all(t, p@, r@) == t);
                    assert(replace_all(t.drop_first(), p@, r@) == t.drop_first());
                    assert(t =~= seq![t[0]] + t.drop_first());
                }
                out.push(s[i]);
                i = i + 1;
                assert(prev + replace_all(t, p@, r@) =~= out@ + replace_all(s@.skip(i as int), p@, r@));
            }
        }
        assert(replace_all(s@.skip(i as int), p@, r@) == Seq::<char>::empty());
        assert(out@ + Seq::<char>::empty() =~= out@);
    }
    out
}


/// An occurrence of `q` inside an occurrence of `p` is an occurrence of `q`.
pub proof fn lemma_occurs_at_trans(s: Seq<char>, p: Seq<char>, q: Seq<char>, i: int, j: int)
    requires
        occurs_at(s, p, i),
        occurs_at(p, q, j),
    ensures
        occurs_at(s, q, i + j),
{
    assert(s.subrange(i + j, i + j + q.len()) =~= p.subrange(j, j + q.len()));
}

/// Containment is transitive.
pub proof fn lemma_contains_trans(s: Seq<char>, p: Seq<char>, q: Seq<char>)
    requires
        contains_seq(s, p),
        contains_seq(p, q),
    ensures
        contains_seq(s, q),
{
    let i = choose|i: int| occurs_at(s, p, i);
    let j = choose|j: int| occurs_at(p, q, j);
    lemma_occurs_at_trans(s, p, q, i, j);
}

/// Whatever occurs in `t` still occurs once something is put before or after `t`.
pub proof fn lemma_contains_concat(x: Seq<char>, t: Seq<char>, y: Seq<char>, q: Seq<char>)
    requires
        contains_seq(t, q),
    ensures
        contains_seq(x + t, q),
        contains_seq(t + y, q),
{
    let i = choose|i: int| occurs_at(t, q, i);
    assert((x + t).subrange(x.len() + i, x.len() + i + q.len()) =~= t.subrange(i, i + q.len()));
    assert(occurs_at(x + t, q, x.len() + i));
    assert((t + y).subrange(i, i + q.len()) =~= t.subrange(i, i + q.len()));
    assert(occurs_at(t + y, q, i));
}

/// A sequence contains its own prefix.
pub proof fn lemma_contains_prefix(p: Seq<char>, rest: Seq<char>)
    ensures
        contains_seq(p + rest, p),
{
    assert((p + rest).subrange(0, p.len() as int) =~= p);
    assert(occurs_at(p + rest, p, 0));
}

/// A sequence contains itself.
pub proof fn lemma_contains_self(p: Seq<char>)
    ensures
        contains_seq(p, p),
{
    assert(p.subrange(0, p.len() as int) =~= p);
    assert(occurs_at(p, p, 0));
}

/// Replacing the occurrences of `p` leaves `r` in place of at least one of them.
pub proof fn lemma_replace_all_contains_replacement(s: Seq<char>, p: Seq<char>, r: Seq<char>)
    requires
        contains_seq(s, p),
    ensures
        contains_seq(replace_all(s, p, r), r),
    decreases s.len(),
{
    if p.len() == 0 {
        if s.len() == 0 {
            lemma_contains_self(r);
        } else {
            lemma_contains_prefix(r, seq![s[0]] + replace_all(s.drop_first(), p, r));
            assert(r + seq![s[0]] + replace_all(s.drop_first(), p, r) =~= r + (seq![s[0]] + replace_all(s.drop_first(), p, r)));
        }
    } else {
        let i = choose|i: int| occurs_at(s, p, i);
        if s.take(p.len() as int) == p {
            lemma_contains_prefix(r, replace_all(s.skip(p.len() as int), p, r));
        } else {
            assert(i != 0) by {
                if i == 0 {
                    assert(s.take(p.len() as int) =~= s.subrange(0, p.len() as int));
                }
            }
            assert(s.drop_first().subrange(i - 1, i - 1 + p.len()) =~= s.subrange(i, i + p.len()));
            assert(occurs_at(s.drop_first(), p, i - 1));
            lemma_replace_all_contains_replacement(s.drop_first(), p, r);
            lemma_contains_concat(seq![s[0]], replace_all(s.drop_first(), p, r), Seq::empty(), r);
        }
    }
}

/// Text in which the pattern does not occur is left exactly as it is.
pub proof fn lemma_replace_all_without_occurrence(s: Seq<char>, p: Seq<char>, r: Seq<char>)
    requires
        p.len() > 0,
        !contains_seq(s, p),
    ensures
        replace_all(s, p, r) == s,
    decreases s.len(),
{
    if s.len() >= p.len() {
        assert(s.take(p.len() as int) != p) by {
            if s.take(p.len() as int) == p {
                assert(s.subrange(0, p.len() as int) =~= s.take(p.len() as int));
                assert(occurs_at(s, p, 0));
            }
        }
        assert forall|j: int| !occurs_at(s.drop_first(), p, j) by {
            if occurs_at(s.drop_first(), p, j) {
                assert(s.subrange(j + 1, j + 1 + p.len()) =~= s.drop_first().subrange(j, j + p.len()));
                assert(occurs_at(s, p, j + 1));
            }
        }
        lemma_replace_all_without_occurrence(s.drop_first(), p, r);
        assert(seq![s[0]] + s.drop_first() =~= s);
    }
}

/// The text before the first occurrence of the pattern is kept as it is.
pub proof fn lemma_replace_all_keeps_prefix(s: Seq<char>, p: Seq<char>, r: Seq<char>, k: int)
    requires
        p.len() > 0,
        0 <= k <= s.len(),
        forall|j: int| 0 <= j < k ==> !occurs_at(s, p, j),
    ensures
        replace_all(s, p, r) == s.take(k) + replace_all(s.skip(k), p, r),
    decreases k,
{
    if k == 0 {
        assert(s.skip(0) =~= s);
        assert(s.take(0) + s =~= s);
    } else {
        assert(!occurs_at(s, p, 0));
        if s.len() < p.len() {
            assert(s.skip(k).len() < p.len());
            assert(s.take(k) + s.skip(k) =~= s);
        } else {
            assert(s.take(p.len() as int) != p) by {
                if s.take(p.len() as int) == p {
                    assert(s.subrange(0, p.len() as int) =~= s.take(p.len() as int));
                }
            }
            let t = s.drop_first();
            assert forall|j: int| 0 <= j < k - 1 implies !occurs_at(t, p, j) by {
                if occurs_at(t, p, j) {
                    assert(s.subrange(j + 1, j + 1 + p.len()) =~= t.subrange(j, j + p.len()));
                    assert(occurs_at(s, p, j + 1));
                }
            }
            lemma_replace_all_keeps_prefix(t, p, r, k - 1);
            assert(t.skip(k - 1) =~= s.skip(k));
            assert(seq![s[0]] + t.take(k - 1) =~= s.take(k));
            assert(seq![s[0]] + (t.take(k - 1) + replace_all(s.skip(k), p, r))
                =~= s.take(k) + replace_all(s.skip(k), p, r));
        }
    }
}

/// Replacing a pattern by itself changes nothing.
pub proof fn lemma_replace_all_by_itself(s: Seq<char>, p: Seq<char>)
    ensures
        replace_all(s, p, p) == s,
    decreases s.len(),
{
    if p.len() == 0 {
        if s.len() > 0 {
            lemma_replace_all_by_itself(s.drop_first(), p);
            assert(p + seq![s[0]] + s.drop_first() =~= s);
        }
    } else if s.len() >= p.len() {
        if s.take(p.len() as int) == p {
            lemma_replace_all_by_itself(s.skip(p.len() as int), p);
            assert(s.take(p.len() as int) + s.skip(p.len() as int) =~= s);
        } else {
            lemma_replace_all_by_itself(s.drop_first(), p);
            assert(seq![s[0]] + s.drop_first() =~= s);
        }
    }
}

/// Two sequences that differ at some index are different.
pub proof fn lemma_differ_at(a: Seq<char>, b: Seq<char>, k: int)
    requires
        0 <= k < a.len(),
        k < b.len(),
        a[k] != b[k],
    ensures
        a != b,
{
}

/// A list none of whose entries has `c` at index `k` does not hold a text that has.
pub proof fn lemma_not_listed_by_char(list: Seq<Seq<char>>, x: Seq<char>, k: int, c: char)
    requires
        0 <= k < x.len(),
        x[k] == c,
        forall|i: int| 0 <= i < list.len() ==> #[trigger] list[i].len() > k && list[i][k] != c,
    ensures
        !list.contains(x),
{
    if list.contains(x) {
        let i = choose|i: int| 0 <= i < list.len() && list[i] == x;
        assert(list[i][k] != c);
    }
}

/// Membership in a concatenation is membership in one of its parts.
pub proof fn lemma_listed_in_concat(a: Seq<Seq<char>>, b: Seq<Seq<char>>, x: Seq<char>)
    ensures
        (a + b).contains(x) <==> (a.contains(x) || b.contains(x)),
{
    if (a + b).contains(x) {
        let i = choose|i: int| 0 <= i < (a + b).len() && (a + b)[i] == x;
        if i < a.len() {
            assert(a[i] == x);
        } else {
            assert(b[i - a.len()] == x);
        }
    }
    if a.contains(x) {
        let i = choose|i: int| 0 <= i < a.len() && a[i] == x;
        assert((a + b)[i] == x);
    }
    if b.contains(x) {
        let i = choose|i: int| 0 <= i < b.len() && b[i] == x;
        assert((a + b)[a.len() + i] == x);
    }
}

/// The trimmed form of `s` occurs in `s`.
pub proof fn lemma_contains_trim(s: Seq<char>)
    ensures
        contains_seq(s, trim(s)),
{
    lemma_leading_white_space_bound(s);
    let a = leading_white_space(s) as int;
    let t = s.skip(a);
    lemma_trailing_white_space_bound(t);
    let n = t.len() - trailing_white_space(t);
    assert(s.subrange(a, a + n) =~= trim(s));
    assert(occurs_at(s, trim(s), a));
}

} // verus!
