//! Substring matching and sentinel replacement over character sequences.
//!
//! All session text is handled as `Vec<char>` / `Seq<char>`, so cutting or
//! replacing a range can never split a character.
use vstd::prelude::*;

verus! {

/// `n` occurs in `h` starting exactly at index `i`.
pub open spec fn occurs_at(h: Seq<char>, n: Seq<char>, i: int) -> bool {
    0 <= i && i + n.len() <= h.len() && h.subrange(i, i + n.len() as int) == n
}

/// `n` occurs somewhere in `h`.
pub open spec fn contains_seq(h: Seq<char>, n: Seq<char>) -> bool {
    exists|i: int| occurs_at(h, n, i)
}

/// Left-to-right, non-overlapping replacement of every occurrence of the
/// non-empty needle `n` by the single sentinel character `c`.
pub open spec fn replace_all(h: Seq<char>, n: Seq<char>, c: char) -> Seq<char>
    decreases h.len(),
{
    if n.len() == 0 || h.len() < n.len() {
        h
    } else if h.subrange(0, n.len() as int) == n {
        seq![c] + replace_all(h.skip(n.len() as int), n, c)
    } else {
        seq![h[0]] + replace_all(h.skip(1), n, c)
    }
}

/// ASCII lowercasing of one character; other characters are unchanged.
pub open spec fn lower_char(ch: char) -> char {
    if 'A' <= ch && ch <= 'Z' {
        ((ch as u32) + 32) as char
    } else {
        ch
    }
}

/// ASCII lowercasing of a whole sequence.
pub open spec fn lower_seq(s: Seq<char>) -> Seq<char> {
    s.map_values(|ch: char| lower_char(ch))
}

/// Whether `n` occurs in `h` under ASCII-case-insensitive comparison.
pub open spec fn contains_ci(h: Seq<char>, n: Seq<char>) -> bool {
    contains_seq(lower_seq(h), lower_seq(n))
}

/// Exact check of one candidate position.
pub fn match_at(h: &[char], n: &[char], i: usize) -> (r: bool)
    requires
        i + n@.len() <= h@.len(),
    ensures
        r == occurs_at(h@, n@, i as int),
{
    let hl: usize = h.len();
    let mut j: usize = 0;
    while j < n.len()
        invariant
            i + n@.len() <= h@.len(),
            h@.len() == hl,
            j <= n@.len(),
            forall|k: int| 0 <= k < j ==> h@[i + k] == n@[k],
        decreases n@.len() - j,
    {
        if h[i + j] != n[j] {
            proof {
                assert(h@.subrange(i as int, i + n@.len() as int)[j as int] == h@[i + j]);
            }
            return false;
        }
        j += 1;
    }
    proof {
        assert(h@.subrange(i as int, i + n@.len() as int) =~= n@);
    }
    true
}

/// First occurrence of `n` in `h`, if any.
pub fn find_first(h: &[char], n: &[char]) -> (r: Option<usize>)
    requires
        n@.len() >= 1,
    ensures
        match r {
            Some(i) => occurs_at(h@, n@, i as int) && forall|j: int|
                0 <= j < i ==> !occurs_at(h@, n@, j),
            None => !contains_seq(h@, n@),
        },
{
    if n.len() > h.len() {
        return None;
    }
    let mut i: usize = 0;
    while n.len() <= h.len() - i
        invariant
            n@.len() >= 1,
            i <= h@.len(),
            forall|j: int| 0 <= j < i ==> !occurs_at(h@, n@, j),
        decreases h@.len() - i,
    {
        if match_at(h, n, i) {
            return Some(i);
        }
        i += 1;
    }
    None
}

/// Substring containment test, the engine's one matching primitive.
pub fn contains_sub(h: &[char], n: &[char]) -> (r: bool)
    requires
        n@.len() >= 1,
    ensures
        r == contains_seq(h@, n@),
{
    match find_first(h, n) {
        Some(_) => true,
        None => false,
    }
}

/// Replaces every occurrence of `n` in `h` by the sentinel `c`.
pub fn replace_all_exec(h: &[char], n: &[char], c: char) -> (r: Vec<char>)
    requires
        n@.len() >= 1,
    ensures
        r@ == replace_all(h@, n@, c),
{
    let mut out: Vec<char> = Vec::new();
    let mut i: usize = 0;
    proof {
        assert(h@.skip(0) =~= h@);
        assert(Seq::<char>::empty() + replace_all(h@, n@, c) =~= replace_all(h@, n@, c));
    }
    while i < h.len()
        invariant
            n@.len() >= 1,
            i <= h@.len(),
            replace_all(h@, n@, c) == out@ + replace_all(h@.skip(i as int), n@, c),
        decreases h@.len() - i,
    {
        let ghost t = h@;
        if n.len() <= h.len() - i && match_at(h, n, i) {
            out.push(c);
            proof {
                assert(t.skip(i as int).subrange(0, n@.len() as int) =~= t.subrange(
                    i as int,
                    i + n@.len() as int,
                ));
                assert(t.skip(i as int).skip(n@.len() as int) =~= t.skip(i + n@.len()));
                assert(out@ + replace_all(t.skip(i + n@.len()), n@, c) =~= replace_all(t, n@, c));
            }
            i += n.len();
        } else {
            out.push(h[i]);
            proof {
                assert(t.skip(i as int)[0] == t[i as int]);
                if i + n@.len() <= t.len() {
                    assert(t.skip(i as int).subrange(0, n@.len() as int) =~= t.subrange(
                        i as int,
                        i + n@.len() as int,
                    ));
                    assert(t.skip(i as int).subrange(0, n@.len() as int) != n@);
                } else {
                    assert(t.skip(i as int).len() < n@.len());
                }
                assert(t.skip(i as int).skip(1) =~= t.skip(i as int + 1));
                assert(out@ + replace_all(t.skip(i as int + 1), n@, c) =~= replace_all(t, n@, c));
            }
            i += 1;
        }
    }
    proof {
        assert(h@.skip(i as int) =~= Seq::<char>::empty());
    }
    out
}

/// ASCII-case-insensitive equality of two characters.
pub fn eq_ci(a: char, b: char) -> (r: bool)
    ensures
        r == (lower_char(a) == lower_char(b)),
{
    a == b || ('A' <= a && a <= 'Z' && (b as u32) == (a as u32) + 32) || ('A' <= b && b <= 'Z' && (
    a as u32) == (b as u32) + 32)
}

/// Case-insensitive variant of `match_at`.
pub fn match_at_ci(h: &[char], n: &[char], i: usize) -> (r: bool)
    requires
        i + n@.len() <= h@.len(),
    ensures
        r == occurs_at(lower_seq(h@), lower_seq(n@), i as int),
{
    let hl: usize = h.len();
    let mut j: usize = 0;
    while j < n.len()
        invariant
            i + n@.len() <= h@.len(),
            h@.len() == hl,
            j <= n@.len(),
            forall|k: int| 0 <= k < j ==> lower_char(h@[i + k]) == lower_char(n@[k]),
        decreases n@.len() - j,
    {
        if !eq_ci(h[i + j], n[j]) {
            proof {
                assert(lower_seq(h@).subrange(i as int, i + n@.len() as int)[j as int]
                    == lower_seq(h@)[i + j]);
                assert(lower_seq(h@)[i + j] == lower_char(h@[i + j]));
                assert(lower_seq(n@)[j as int] == lower_char(n@[j as int]));
            }
            return false;
        }
        j += 1;
    }
    proof {
        assert(lower_seq(h@).subrange(i as int, i + n@.len() as int) =~= lower_seq(n@));
    }
    true
}

/// Case-insensitive substring containment.
pub fn contains_ci_exec(h: &[char], n: &[char]) -> (r: bool)
    requires
        n@.len() >= 1,
    ensures
        r == contains_ci(h@, n@),
{
    if n.len() > h.len() {
        proof {
            assert(forall|i: int| !occurs_at(lower_seq(h@), lower_seq(n@), i));
        }
        return false;
    }
    let mut i: usize = 0;
    while n.len() <= h.len() - i
        invariant
            n@.len() >= 1,
            i <= h@.len(),
            forall|j: int| 0 <= j < i ==> !occurs_at(lower_seq(h@), lower_seq(n@), j),
        decreases h@.len() - i,
    {
        if match_at_ci(h, n, i) {
            return true;
        }
        i += 1;
    }
    proof {
        assert(forall|j: int| i <= j ==> !occurs_at(lower_seq(h@), lower_seq(n@), j));
    }
    false
}

/// `p` is a prefix of `s`.
pub open spec fn is_prefix(p: Seq<char>, s: Seq<char>) -> bool {
    p.len() <= s.len() && p == s.subrange(0, p.len() as int)
}

/// Replacing a needle by a single sentinel character never grows the text.
pub proof fn lemma_replace_all_len(h: Seq<char>, n: Seq<char>, c: char)
    ensures
        replace_all(h, n, c).len() <= h.len(),
    decreases h.len(),
{
    if n.len() == 0 || h.len() < n.len() {
    } else if h.subrange(0, n.len() as int) == n {
        lemma_replace_all_len(h.skip(n.len() as int), n, c);
    } else {
        lemma_replace_all_len(h.skip(1), n, c);
    }
}

/// A sentinel-free prefix of the replacement's result is a prefix of the
/// original text: replacement only ever rewrites by inserting the sentinel.
pub proof fn lemma_replace_prefix(h: Seq<char>, n: Seq<char>, c: char, p: Seq<char>)
    requires
        n.len() >= 1,
        is_prefix(p, replace_all(h, n, c)),
        forall|k: int| 0 <= k < p.len() ==> p[k] != c,
    ensures
        is_prefix(p, h),
    decreases h.len(),
{
    let res = replace_all(h, n, c);
    if h.len() < n.len() {
        assert(res == h);
    } else if h.subrange(0, n.len() as int) == n {
        if p.len() == 0 {
            assert(p =~= h.subrange(0, 0));
        } else {
            assert(res[0] == c);
            assert(p[0] == res.subrange(0, p.len() as int)[0]);
            assert(false);
        }
    } else {
        if p.len() == 0 {
            assert(p =~= h.subrange(0, 0));
        } else {
            let rest = replace_all(h.skip(1), n, c);
            let p1 = p.skip(1);
            assert forall|k: int| 0 <= k < p1.len() implies p1[k] != c by {
                assert(p1[k] == p[k + 1]);
            }
            assert(is_prefix(p1, rest)) by {
                assert forall|k: int| 0 <= k < p1.len() implies p1[k] == rest.subrange(
                    0,
                    p1.len() as int,
                )[k] by {
                    assert(p1[k] == p[k + 1]);
                    assert(p[k + 1] == res.subrange(0, p.len() as int)[k + 1]);
                    assert(res[k + 1] == rest[k]);
                }
                assert(p1 =~= rest.subrange(0, p1.len() as int));
            }
            lemma_replace_prefix(h.skip(1), n, c, p1);
            assert(p[0] == res.subrange(0, p.len() as int)[0]);
            assert(res[0] == h[0]);
            assert forall|k: int| 0 <= k < p.len() implies p[k] == h.subrange(
                0,
                p.len() as int,
            )[k] by {
                if k >= 1 {
                    assert(p1[k - 1] == h.skip(1).subrange(0, p1.len() as int)[k - 1]);
                    assert(h.skip(1)[k - 1] == h[k]);
                }
            }
            assert(p =~= h.subrange(0, p.len() as int));
        }
    }
}

/// Once every occurrence of a phrase is replaced by a sentinel character
/// that the phrase does not contain, the result no longer contains the
/// phrase: a consumed trigger cannot re-fire on the same text.
pub proof fn lemma_replace_all_clears(h: Seq<char>, n: Seq<char>, c: char)
    requires
        n.len() >= 1,
        forall|k: int| 0 <= k < n.len() ==> n[k] != c,
    ensures
        !contains_seq(replace_all(h, n, c), n),
    decreases h.len(),
{
    let res = replace_all(h, n, c);
    if h.len() < n.len() {
        assert(res == h);
        assert forall|i: int| !occurs_at(res, n, i) by {}
    } else if h.subrange(0, n.len() as int) == n {
        let rest = replace_all(h.skip(n.len() as int), n, c);
        lemma_replace_all_clears(h.skip(n.len() as int), n, c);
        assert forall|i: int| !occurs_at(res, n, i) by {
            if occurs_at(res, n, i) {
                if i == 0 {
                    assert(n[0] == res.subrange(0, n.len() as int)[0]);
                    assert(res[0] == c);
                } else {
                    assert forall|k: int| 0 <= k < n.len() implies rest.subrange(
                        i - 1,
                        i - 1 + n.len(),
                    )[k] == n[k] by {
                        assert(rest[i - 1 + k] == res[i + k]);
                        assert(n[k] == res.subrange(i, i + n.len() as int)[k]);
                    }
                    assert(rest.subrange(i - 1, i - 1 + n.len()) =~= n);
                    assert(occurs_at(rest, n, i - 1));
                }
            }
        }
    } else {
        let rest = replace_all(h.skip(1), n, c);
        lemma_replace_all_clears(h.skip(1), n, c);
        assert forall|i: int| !occurs_at(res, n, i) by {
            if occurs_at(res, n, i) {
                if i == 0 {
                    assert(is_prefix(n, res)) by {
                        assert(n =~= res.subrange(0, n.len() as int));
                    }
                    lemma_replace_prefix(h, n, c, n);
                    assert(h.subrange(0, n.len() as int) == n);
                } else {
                    assert forall|k: int| 0 <= k < n.len() implies rest.subrange(
                        i - 1,
                        i - 1 + n.len(),
                    )[k] == n[k] by {
                        assert(rest[i - 1 + k] == res[i + k]);
                        assert(n[k] == res.subrange(i, i + n.len() as int)[k]);
                    }
                    assert(rest.subrange(i - 1, i - 1 + n.len()) =~= n);
                    assert(occurs_at(rest, n, i - 1));
                }
            }
        }
    }
}

/// An occurrence inside a suffix is an occurrence in the whole text.
pub proof fn lemma_skip_contains(h: Seq<char>, k: int, p: Seq<char>)
    requires
        0 <= k <= h.len(),
        contains_seq(h.skip(k), p),
    ensures
        contains_seq(h, p),
{
    let i = choose|i: int| occurs_at(h.skip(k), p, i);
    assert(h.subrange(k + i, k + i + p.len() as int) =~= h.skip(k).subrange(i, i + p.len() as int));
    assert(occurs_at(h, p, k + i));
}

/// Replacing one phrase by a sentinel character that a second phrase
/// does not contain never creates an occurrence of the second phrase.
pub proof fn lemma_replace_preserves_absence(h: Seq<char>, n: Seq<char>, p: Seq<char>, c: char)
    requires
        n.len() >= 1,
        p.len() >= 1,
        !contains_seq(h, p),
        forall|k: int| 0 <= k < p.len() ==> p[k] != c,
    ensures
        !contains_seq(replace_all(h, n, c), p),
    decreases h.len(),
{
    let res = replace_all(h, n, c);
    if h.len() < n.len() {
        assert(res == h);
    } else if h.subrange(0, n.len() as int) == n {
        let tail = h.skip(n.len() as int);
        let rest = replace_all(tail, n, c);
        assert(!contains_seq(tail, p)) by {
            if contains_seq(tail, p) {
                lemma_skip_contains(h, n.len() as int, p);
            }
        }
        lemma_replace_preserves_absence(tail, n, p, c);
        assert forall|i: int| !occurs_at(res, p, i) by {
            if occurs_at(res, p, i) {
                if i == 0 {
                    assert(p[0] == res.subrange(0, p.len() as int)[0]);
                    assert(res[0] == c);
                } else {
                    assert forall|k: int| 0 <= k < p.len() implies rest.subrange(
                        i - 1,
                        i - 1 + p.len(),
                    )[k] == p[k] by {
                        assert(rest[i - 1 + k] == res[i + k]);
                        assert(p[k] == res.subrange(i, i + p.len() as int)[k]);
                    }
                    assert(rest.subrange(i - 1, i - 1 + p.len()) =~= p);
                    assert(occurs_at(rest, p, i - 1));
                }
            }
        }
    } else {
        let tail = h.skip(1);
        let rest = replace_all(tail, n, c);
        assert(!contains_seq(tail, p)) by {
            if contains_seq(tail, p) {
                lemma_skip_contains(h, 1, p);
            }
        }
        lemma_replace_preserves_absence(tail, n, p, c);
        assert forall|i: int| !occurs_at(res, p, i) by {
            if occurs_at(res, p, i) {
                if i == 0 {
                    assert(is_prefix(p, res)) by {
                        assert(p =~= res.subrange(0, p.len() as int));
                    }
                    lemma_replace_prefix(h, n, c, p);
                    assert(h.subrange(0, p.len() as int) == p);
                    assert(occurs_at(h, p, 0));
                } else {
                    assert forall|k: int| 0 <= k < p.len() implies rest.subrange(
                        i - 1,
                        i - 1 + p.len(),
                    )[k] == p[k] by {
                        assert(rest[i - 1 + k] == res[i + k]);
                        assert(p[k] == res.subrange(i, i + p.len() as int)[k]);
                    }
                    assert(rest.subrange(i - 1, i - 1 + p.len()) =~= p);
                    assert(occurs_at(rest, p, i - 1));
                }
            }
        }
    }
}

/// Compares two character slices.
pub fn chars_eq(a: &[char], b: &[char]) -> (r: bool)
    ensures
        r == (a@ == b@),
{
    if a.len() != b.len() {
        proof {
            assert(a@ != b@);
        }
        return false;
    }
    let mut i: usize = 0;
    while i < a.len()
        invariant
            a@.len() == b@.len(),
            i <= a@.len(),
            forall|k: int| 0 <= k < i ==> a@[k] == b@[k],
        decreases a@.len() - i,
    {
        if a[i] != b[i] {
            return false;
        }
        i += 1;
    }
    proof {
        assert(a@ =~= b@);
    }
    true
}

/// Compares character text against borrowed string text.
pub fn chars_eq_str(t: &[char], s: &str) -> (r: bool)
    ensures
        r == (t@ == s@),
{
    let n = s.unicode_len();
    if t.len() != n {
        proof {
            assert(t@ != s@);
        }
        return false;
    }
    let mut i: usize = 0;
    while i < n
        invariant
            n == s@.len(),
            t@.len() == n,
            i <= n,
            forall|k: int| 0 <= k < i ==> t@[k] == s@[k],
        decreases n - i,
    {
        if t[i] != s.get_char(i) {
            return false;
        }
        i += 1;
    }
    proof {
        assert(t@ =~= s@);
    }
    true
}

/// Turns borrowed text into the character form the engine works on.
pub fn str_to_chars(s: &str) -> (r: Vec<char>)
    ensures
        r@ == s@,
{
    let n = s.unicode_len();
    let mut out: Vec<char> = Vec::new();
    let mut i: usize = 0;
    while i < n
        invariant
            n == s@.len(),
            i <= n,
            out@ == s@.subrange(0, i as int),
        decreases n - i,
    {
        out.push(s.get_char(i));
        proof {
            assert(out@ =~= s@.subrange(0, i as int + 1));
        }
        i += 1;
    }
    proof {
        assert(out@ =~= s@);
    }
    out
}

} // verus!
