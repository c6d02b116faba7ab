//! Character-sequence utilities: whitespace stripping, substring search and
//! replacement (used by the textual type-expression rewriting), and the
//! lexicographic name order used to sort the final document.

use vstd::prelude::*;

verus! {

/// Whitespace as it occurs in rendered type-expression text.
pub open spec fn is_ws(c: char) -> bool {
    c == ' ' || c == '\t' || c == '\n' || c == '\r'
}

/// `s` with every whitespace character removed.
pub open spec fn strip_ws_spec(s: Seq<char>) -> Seq<char>
    decreases s.len(),
{
    if s.len() == 0 {
        Seq::empty()
    } else if is_ws(s[0]) {
        strip_ws_spec(s.skip(1))
    } else {
        seq![s[0]] + strip_ws_spec(s.skip(1))
    }
}

/// The pattern `p` occurs in `s` starting at position `i`.
pub open spec fn match_at(s: Seq<char>, p: Seq<char>, i: int) -> bool {
    0 <= i && i + p.len() <= s.len() && s.subrange(i, i + p.len()) == p
}

/// The pattern `p` occurs somewhere in `s`.
pub open spec fn contains_seq(s: Seq<char>, p: Seq<char>) -> bool {
    exists|i: int| match_at(s, p, i)
}

/// Whether `p` occurs in `s` at position `i`.
fn matches_at(s: &Vec<char>, p: &Vec<char>, i: usize) -> (r: bool)
    requires
        i + p@.len() <= s@.len(),
    ensures
        r == match_at(s@, p@, i as int),
{
    let n = s.len();
    let mut j: usize = 0;
    while j < p.len()
        invariant
            n == s@.len(),
            i + p@.len() <= s@.len(),
            j <= p@.len(),
            forall|k: int| 0 <= k < j ==> s@[i + k] == p@[k],
        decreases p@.len() - j,
    {
        proof {
            assert(i + j < s@.len());
        }
        if s[i + j] != p[j] {
            proof {
                assert(s@.subrange(i as int, i + p@.len())[j as int] == s@[i + j]);
            }
            return false;
        }
        j = j + 1;
    }
    proof {
        assert(s@.subrange(i as int, i + p@.len()) =~= p@);
    }
    true
}

/// Whether `p` occurs anywhere in `s`.
pub fn contains_pat(s: &Vec<char>, p: &Vec<char>) -> (r: bool)
    ensures
        r == contains_seq(s@, p@),
{
    if p.len() == 0 {
        proof {
            assert(s@.subrange(0, 0) =~= p@);
            assert(match_at(s@, p@, 0));
        }
        return true;
    }
    if p.len() > s.len() {
        return false;
    }
    let n = s.len();
    let last = n - p.len();
    let mut i: usize = 0;
    while i <= last
        invariant
            n == s@.len(),
            0 < p@.len() <= s@.len(),
            last == s@.len() - p@.len(),
            i <= last + 1,
            forall|k: int| 0 <= k < i ==> !match_at(s@, p@, k),
        decreases last - i + 1,
    {
        if matches_at(s, p, i) {
            return true;
        }
        proof {
            assert(i < s@.len());
        }
        i = i + 1;
    }
    false
}

/// `s` with every (leftmost, non-overlapping) occurrence of `p` replaced by `r`.
pub open spec fn replace_spec(s: Seq<char>, p: Seq<char>, r: Seq<char>) -> Seq<char>
    decreases s.len(),
{
    if p.len() == 0 || s.len() < p.len() {
        s
    } else if s.take(p.len() as int) == p {
        r + replace_spec(s.skip(p.len() as int), p, r)
    } else {
        seq![s[0]] + replace_spec(s.skip(1), p, r)
    }
}

/// Append all characters of `src` to `out`.
pub fn push_all(out: &mut Vec<char>, src: &Vec<char>)
    ensures
        final(out)@ == old(out)@ + src@,
{
    let mut j: usize = 0;
    while j < src.len()
        invariant
            j <= src@.len(),
            out@ == old(out)@ + src@.take(j as int),
        decreases src@.len() - j,
    {
        out.push(src[j]);
        proof {
            assert(src@.take(j as int).push(src@[j as int]) =~= src@.take(j + 1));
        }
        j = j + 1;
    }
    proof {
        assert(src@.take(src@.len() as int) =~= src@);
    }
}

/// Replace every occurrence of `p` in `s` by `rep`.
pub fn replace_all(s: &Vec<char>, p: &Vec<char>, rep: &Vec<char>) -> (out: Vec<char>)
    requires
        p@.len() > 0,
    ensures
        out@ == replace_spec(s@, p@, rep@),
{
    let mut out: Vec<char> = Vec::new();
    let mut i: usize = 0;
    proof {
        assert(s@.skip(0) =~= s@);
        assert(Seq::<char>::empty() + replace_spec(s@, p@, rep@) =~= replace_spec(s@, p@, rep@));
    }
    while i < s.len()
        invariant
            p@.len() > 0,
            i <= s@.len(),
            replace_spec(s@, p@, rep@) == out@ + replace_spec(s@.skip(i as int), p@, rep@),
        decreases s@.len() - i,
    {
        if p.len() <= s.len() - i && matches_at(s, p, i) {
            proof {
                assert(s@.skip(i as int).take(p@.len() as int) =~= s@.subrange(
                    i as int,
                    i + p@.len(),
                ));
                assert(s@.skip(i as int).skip(p@.len() as int) =~= s@.skip(i + p@.len()));
            }
            push_all(&mut out, rep);
            i = i + p.len();
        } else {
            proof {
                let rem = s@.skip(i as int);
                if rem.len() >= p@.len() {
                    assert(rem.take(p@.len() as int) =~= s@.subrange(i as int, i + p@.len()));
                }
                assert(rem[0] == s@[i as int]);
                assert(rem.skip(1) =~= s@.skip(i as int + 1));
            }
            out.push(s[i]);
            i = i + 1;
        }
    }
    proof {
        assert(s@.skip(s@.len() as int) =~= Seq::<char>::empty());
        assert(out@ + Seq::<char>::empty() =~= out@);
    }
    out
}

/// The characters of a string.
pub fn chars_of(s: &str) -> (r: Vec<char>)
    ensures
        r@ == s@,
{
    let n = s.unicode_len();
    let mut r: Vec<char> = Vec::new();
    let mut i: usize = 0;
    while i < n
        invariant
            n == s@.len(),
            i <= n,
            r@ == s@.take(i as int),
        decreases n - i,
    {
        let c = s.get_char(i);
        r.push(c);
        proof {
            assert(s@.take(i as int).push(s@[i as int]) =~= s@.take(i + 1));
        }
        i = i + 1;
    }
    proof {
        assert(s@.take(n as int) =~= s@);
    }
    r
}

/// Remove all whitespace from a character sequence.
pub fn strip_ws_vec(s: &Vec<char>) -> (r: Vec<char>)
    ensures
        r@ == strip_ws_spec(s@),
{
    let mut r: Vec<char> = Vec::new();
    let mut i: usize = 0;
    proof {
        assert(s@.skip(0) =~= s@);
        assert(Seq::<char>::empty() + strip_ws_spec(s@) =~= strip_ws_spec(s@));
    }
    while i < s.len()
        invariant
            i <= s@.len(),
            strip_ws_spec(s@) == r@ + strip_ws_spec(s@.skip(i as int)),
        decreases s@.len() - i,
    {
        let c = s[i];
        proof {
            assert(s@.skip(i as int)[0] == c);
            assert(s@.skip(i as int).skip(1) =~= s@.skip(i as int + 1));
        }
        if !(c == ' ' || c == '\t' || c == '\n' || c == '\r') {
            r.push(c);
        }
        i = i + 1;
    }
    proof {
        assert(s@.skip(s@.len() as int) =~= Seq::<char>::empty());
        assert(r@ + Seq::<char>::empty() =~= r@);
    }
    r
}

/// Copy the characters of `v` between `from` and `to`.
pub fn vec_subrange(v: &Vec<char>, from: usize, to: usize) -> (r: Vec<char>)
    requires
        from <= to <= v@.len(),
    ensures
        r@ == v@.subrange(from as int, to as int),
{
    let mut r: Vec<char> = Vec::new();
    let mut i: usize = from;
    while i < to
        invariant
            from <= i <= to <= v@.len(),
            r@ == v@.subrange(from as int, i as int),
        decreases to - i,
    {
        r.push(v[i]);
        proof {
            assert(v@.subrange(from as int, i as int).push(v@[i as int]) =~= v@.subrange(
                from as int,
                i as int + 1,
            ));
        }
        i = i + 1;
    }
    r
}

/// Whether a character sequence equals a string's characters.
pub fn vec_eq_str(v: &Vec<char>, s: &str) -> (r: bool)
    ensures
        r == (v@ == s@),
{
    let n = s.unicode_len();
    if v.len() != n {
        return false;
    }
    let mut i: usize = 0;
    while i < n
        invariant
            n == s@.len(),
            n == v@.len(),
            i <= n,
            forall|k: int| 0 <= k < i ==> v@[k] == s@[k],
        decreases n - i,
    {
        if v[i] != s.get_char(i) {
            return false;
        }
        i = i + 1;
    }
    proof {
        assert(v@ =~= s@);
    }
    true
}

/// Whether two strings hold the same characters.
pub fn str_eq(a: &str, b: &str) -> (r: bool)
    ensures
        r == (a@ == b@),
{
    let an = a.unicode_len();
    let bn = b.unicode_len();
    if an != bn {
        return false;
    }
    let mut i: usize = 0;
    while i < an
        invariant
            an == a@.len(),
            an == b@.len(),
            i <= an,
            forall|k: int| 0 <= k < i ==> a@[k] == b@[k],
        decreases an - i,
    {
        let ca = a.get_char(i);
        let cb = b.get_char(i);
        if ca != cb {
            return false;
        }
        i = i + 1;
    }
    proof {
        assert(a@ =~= b@);
    }
    true
}

/// Lexicographic order on character sequences, by code point.
pub open spec fn lex_le(a: Seq<char>, b: Seq<char>) -> bool
    decreases a.len(),
{
    if a.len() == 0 {
        true
    } else if b.len() == 0 {
        false
    } else if (a[0] as u32) == (b[0] as u32) {
        lex_le(a.skip(1), b.skip(1))
    } else {
        (a[0] as u32) < (b[0] as u32)
    }
}

/// The lexicographic order is reflexive.
pub proof fn lemma_lex_le_refl(a: Seq<char>)
    ensures
        lex_le(a, a),
    decreases a.len(),
{
    if a.len() > 0 {
        lemma_lex_le_refl(a.skip(1));
    }
}

/// The lexicographic order is total.
pub proof fn lemma_lex_le_total(a: Seq<char>, b: Seq<char>)
    ensures
        lex_le(a, b) || lex_le(b, a),
    decreases a.len(),
{
    if a.len() == 0 || b.len() == 0 {
    } else if (a[0] as u32) == (b[0] as u32) {
        lemma_lex_le_total(a.skip(1), b.skip(1));
    } else {
    }
}

/// The lexicographic order is transitive.
pub proof fn lemma_lex_le_trans(a: Seq<char>, b: Seq<char>, c: Seq<char>)
    requires
        lex_le(a, b),
        lex_le(b, c),
    ensures
        lex_le(a, c),
    decreases a.len(),
{
    if a.len() == 0 {
    } else if b.len() == 0 {
    } else if c.len() == 0 {
    } else {
        if (a[0] as u32) == (b[0] as u32) && (b[0] as u32) == (c[0] as u32) {
            lemma_lex_le_trans(a.skip(1), b.skip(1), c.skip(1));
        } else {
        }
    }
}

/// Decide the lexicographic order on two strings.
pub fn str_le(a: &str, b: &str) -> (r: bool)
    ensures
        r == lex_le(a@, b@),
{
    let an = a.unicode_len();
    let bn = b.unicode_len();
    let mut i: usize = 0;
    proof {
        assert(a@.skip(0) =~= a@);
        assert(b@.skip(0) =~= b@);
    }
    loop
        invariant
            an == a@.len(),
            bn == b@.len(),
            i <= an,
            i <= bn,
            lex_le(a@, b@) == lex_le(a@.skip(i as int), b@.skip(i as int)),
        decreases an - i,
    {
        if i == an {
            return true;
        }
        if i == bn {
            return false;
        }
        let ca = a.get_char(i);
        let cb = b.get_char(i);
        proof {
            assert(a@.skip(i as int)[0] == ca);
            assert(b@.skip(i as int)[0] == cb);
            assert(a@.skip(i as int).skip(1) =~= a@.skip(i as int + 1));
            assert(b@.skip(i as int).skip(1) =~= b@.skip(i as int + 1));
        }
        let ua = ca as u32;
        let ub = cb as u32;
        if ua != ub {
            return ua < ub;
        }
        i = i + 1;
    }
}

} // verus!
