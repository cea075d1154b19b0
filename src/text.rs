use vstd::prelude::*;

verus! {

/// `p` occurs in `s` as a contiguous run of characters.
pub open spec fn has_sub(s: Seq<char>, p: Seq<char>) -> bool {
    exists|i: int| 0 <= i <= s.len() - p.len() && #[trigger] s.subrange(i, i + p.len()) == p
}

/// Every non-overlapping occurrence of `pat`, scanning left to right, replaced by `rep`.
/// An empty pattern leaves the text unchanged.
pub open spec fn replaced(s: Seq<char>, pat: Seq<char>, rep: Seq<char>) -> Seq<char>
    decreases s.len(),
{
    if pat.len() == 0 || s.len() < pat.len() {
        s
    } else if s.subrange(0, pat.len() as int) == pat {
        rep + replaced(s.subrange(pat.len() as int, s.len() as int), pat, rep)
    } else {
        seq![s[0]] + replaced(s.subrange(1, s.len() as int), pat, rep)
    }
}

/// The views of a list of strings.
pub open spec fn texts(v: Seq<String>) -> Seq<Seq<char>> {
    v.map_values(|t: String| t@)
}

/// The first `n` characters of `s` (all of them when it is shorter).
pub open spec fn take_chars(s: Seq<char>, n: nat) -> Seq<char> {
    if s.len() <= n {
        s
    } else {
        s.subrange(0, n as int)
    }
}

/// The characters of a string slice.
pub fn chars_of(s: &str) -> (v: Vec<char>)
    ensures
        v@ == s@,
{
    let n = s.unicode_len();
    let mut v: Vec<char> = Vec::new();
    let mut i: usize = 0;
    while i < n
        invariant
            n == s@.len(),
            i <= n,
            v@ == s@.subrange(0, i as int),
        decreases n - i,
    {
        v.push(s.get_char(i));
        i = i + 1;
        assert(v@ =~= s@.subrange(0, i as int));
    }
    assert(v@ =~= s@);
    v
}

/// Relies on `String`'s `FromIterator<&char>`: the string holds the characters in order.
#[verifier::external_body]
pub(crate) fn string_of(v: &Vec<char>) -> (r: String)
    ensures
        r@ == v@,
{
    v.iter().collect()
}

/// Whether `p` occurs in `s` at position `i`.
fn occurs_at(s: &Vec<char>, p: &Vec<char>, i: usize) -> (r: bool)
    requires
        i + p@.len() <= s@.len(),
    ensures
        r == (s@.subrange(i as int, i + p@.len()) == p@),
{
    let sl = s.len();
    let mut j: usize = 0;
    while j < p.len()
        invariant
            sl == s@.len(),
            i + p@.len() <= s@.len(),
            j <= p@.len(),
            forall|k: int| 0 <= k < j ==> s@[i + k] == p@[k],
        decreases p@.len() - j,
    {
        if s[i + j] != p[j] {
            assert(s@.subrange(i as int, i + p@.len())[j as int] != p@[j as int]);
            return false;
        }
        j = j + 1;
    }
    assert(s@.subrange(i as int, i + p@.len()) =~= p@);
    true
}

/// Whether the character sequence `p` occurs in `s`.
pub fn seq_contains(s: &Vec<char>, p: &Vec<char>) -> (r: bool)
    ensures
        r == has_sub(s@, p@),
{
    if p.len() > s.len() {
        return false;
    }
    if p.len() == 0 {
        assert(s@.subrange(0, 0 + p@.len() as int) =~= p@);
        return true;
    }
    let sl = s.len();
    let last = sl - p.len();
    let mut i: usize = 0;
    while i <= last
        invariant
            sl == s@.len(),
            p@.len() > 0,
            last == s@.len() - p@.len(),
            i <= last + 1,
            forall|k: int| 0 <= k < i ==> #[trigger] s@.subrange(k, k + p@.len()) != p@,
        decreases last + 1 - i,
    {
        if occurs_at(s, p, i) {
            return true;
        }
        i = i + 1;
    }
    false
}

/// Whether `p` occurs in `s`.
pub fn str_contains(s: &str, p: &str) -> (r: bool)
    ensures
        r == has_sub(s@, p@),
{
    let sv = chars_of(s);
    let pv = chars_of(p);
    seq_contains(&sv, &pv)
}

/// `s` with every non-overlapping occurrence of `pat` replaced by `rep`.
pub fn seq_replace(s: &Vec<char>, pat: &Vec<char>, rep: &Vec<char>) -> (r: Vec<char>)
    ensures
        r@ == replaced(s@, pat@, rep@),
{
    let n = s.len();
    let m = pat.len();
    let mut out: Vec<char> = Vec::new();
    if m == 0 {
        let mut k: usize = 0;
        while k < n
            invariant
                n == s@.len(),
                k <= n,
                out@ == s@.subrange(0, k as int),
            decreases n - k,
        {
            out.push(s[k]);
            k = k + 1;
            assert(out@ =~= s@.subrange(0, k as int));
        }
        assert(out@ =~= s@);
        return out;
    }
    let mut i: usize = 0;
    assert(s@.subrange(0, n as int) =~= s@);
    assert(out@ + replaced(s@, pat@, rep@) =~= replaced(s@, pat@, rep@));
    while i < n
        invariant
            n == s@.len(),
            m == pat@.len(),
            m > 0,
            i <= n,
            out@ + replaced(s@.subrange(i as int, n as int), pat@, rep@) == replaced(s@, pat@, rep@),
        decreases n - i,
    {
        let ghost rest = s@.subrange(i as int, n as int);
        if n - i < m {
            assert(replaced(rest, pat@, rep@) == rest);
            let mut k: usize = i;
            let ghost out0 = out@;
            while k < n
                invariant
                    n == s@.len(),
                    i <= k <= n,
                    out@ == out0 + s@.subrange(i as int, k as int),
                decreases n - k,
            {
                out.push(s[k]);
                k = k + 1;
                assert(out@ =~= out0 + s@.subrange(i as int, k as int));
            }
            assert(s@.subrange(i as int, n as int) == rest);
            assert(out@ + replaced(s@.subrange(n as int, n as int), pat@, rep@) =~= out0 + rest);
            i = n;
        } else if occurs_at(s, pat, i) {
            assert(rest.subrange(0, m as int) =~= s@.subrange(i as int, i + m));
            assert(rest.subrange(m as int, rest.len() as int) =~= s@.subrange(i + m, n as int));
            let mut k: usize = 0;
            let ghost out0 = out@;
            while k < rep.len()
                invariant
                    k <= rep@.len(),
                    out@ == out0 + rep@.subrange(0, k as int),
                decreases rep@.len() - k,
            {
                out.push(rep[k]);
                k = k + 1;
                assert(out@ =~= out0 + rep@.subrange(0, k as int));
            }
            assert(rep@.subrange(0, rep@.len() as int) =~= rep@);
            assert(out0 + (rep@ + replaced(s@.subrange(i + m, n as int), pat@, rep@)) =~= out@
                + replaced(s@.subrange(i + m, n as int), pat@, rep@));
            i = i + m;
        } else {
            assert(rest.subrange(0, m as int) =~= s@.subrange(i as int, i + m));
            assert(rest.subrange(1, rest.len() as int) =~= s@.subrange(i + 1, n as int));
            let ghost out0 = out@;
            out.push(s[i]);
            assert(out0 + (seq![s@[i as int]] + replaced(s@.subrange(i + 1, n as int), pat@, rep@))
                =~= out@ + replaced(s@.subrange(i + 1, n as int), pat@, rep@));
            i = i + 1;
        }
    }
    assert(s@.subrange(n as int, n as int) =~= Seq::<char>::empty());
    assert(out@ + Seq::<char>::empty() =~= out@);
    out
}

/// `s` with every non-overlapping occurrence of `pat` replaced by `rep`.
pub fn str_replace(s: &str, pat: &str, rep: &str) -> (r: String)
    ensures
        r@ == replaced(s@, pat@, rep@),
{
    let sv = chars_of(s);
    let pv = chars_of(pat);
    let rv = chars_of(rep);
    let out = seq_replace(&sv, &pv, &rv);
    string_of(&out)
}

/// The first `n` characters of `v`.
pub fn seq_take(v: &Vec<char>, n: usize) -> (r: Vec<char>)
    ensures
        r@ == take_chars(v@, n as nat),
{
    let mut out: Vec<char> = Vec::new();
    let mut k: usize = 0;
    while k < n && k < v.len()
        invariant
            k <= v@.len(),
            k <= n,
            out@ == v@.subrange(0, k as int),
        decreases v@.len() - k,
    {
        out.push(v[k]);
        k = k + 1;
        assert(out@ =~= v@.subrange(0, k as int));
    }
    if v.len() <= n {
        assert(out@ =~= v@);
    }
    out
}

/// A copy of a string slice as an owned string.
pub fn owned(s: &str) -> (r: String)
    ensures
        r@ == s@,
{
    s.to_owned()
}

/// Whether two strings hold the same characters.
pub fn same_text(a: &str, b: &str) -> (r: bool)
    ensures
        r == (a@ == b@),
{
    seq_equal(&chars_of(a), &chars_of(b))
}

/// The first position of `c` in `s`.
pub open spec fn index_of(s: Seq<char>, c: char) -> Option<int>
    decreases s.len(),
{
    if s.len() == 0 {
        None
    } else if s[0] == c {
        Some(0)
    } else {
        match index_of(s.subrange(1, s.len() as int), c) {
            Some(k) => Some(k + 1),
            None => None,
        }
    }
}

/// Positions are shifted by `d`.
pub open spec fn shifted(o: Option<int>, d: int) -> Option<int> {
    match o {
        Some(k) => Some(k + d),
        None => None,
    }
}

/// The first position of `c` in `v[from..to]`, counted from the start of `v`.
pub fn find_char(v: &Vec<char>, from: usize, to: usize, c: char) -> (r: Option<usize>)
    requires
        from <= to <= v@.len(),
    ensures
        shifted(index_of(v@.subrange(from as int, to as int), c), from as int) == match r {
            Some(k) => Some(k as int),
            None => None::<int>,
        },
        r matches Some(k) ==> from <= k < to && v@[k as int] == c,
{
    let mut i: usize = from;
    while i < to
        invariant
            from <= i <= to <= v@.len(),
            shifted(index_of(v@.subrange(from as int, to as int), c), from as int) == shifted(
                index_of(v@.subrange(i as int, to as int), c),
                i as int,
            ),
        decreases to - i,
    {
        let ghost sub = v@.subrange(i as int, to as int);
        assert(sub.subrange(1, sub.len() as int) =~= v@.subrange(i + 1, to as int));
        if v[i] == c {
            return Some(i);
        }
        i = i + 1;
    }
    None
}

/// A copy of `v[from..to]`.
pub fn sub_vec(v: &Vec<char>, from: usize, to: usize) -> (r: Vec<char>)
    requires
        from <= to <= v@.len(),
    ensures
        r@ == v@.subrange(from as int, to as int),
{
    let mut out: Vec<char> = Vec::new();
    let mut i: usize = from;
    while i < to
        invariant
            from <= i <= to <= v@.len(),
            out@ == v@.subrange(from as int, i as int),
        decreases to - i,
    {
        out.push(v[i]);
        i = i + 1;
        assert(out@ =~= v@.subrange(from as int, i as int));
    }
    out
}

/// Whether two character sequences are equal.
pub fn seq_equal(a: &Vec<char>, b: &Vec<char>) -> (r: bool)
    ensures
        r == (a@ == b@),
{
    if a.len() != b.len() {
        return false;
    }
    let mut i: usize = 0;
    while i < a.len()
        invariant
            a@.len() == b@.len(),
            i <= a@.len(),
            forall|k: int| 0 <= k < i ==> a@[k] == b@[k],
        decreases a@.len() - i,
    {
        if a[i] != b[i] {
            return false;
        }
        i = i + 1;
    }
    assert(a@ =~= b@);
    true
}

} // verus!
