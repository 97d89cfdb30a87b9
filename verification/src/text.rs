//! Character-level views of strings: lexicographic order, prefixes and
//! positions of a separator, stated over `Seq<char>` and computed over
//! the characters of a `&str`.
use vstd::prelude::*;

verus! {

broadcast use vstd::string::group_string_axioms;

/// The character sequences of a sequence of strings.
pub open spec fn string_views(v: Seq<String>) -> Seq<Seq<char>> {
    v.map_values(|s: String| s@)
}

/// The first `n` characters of `a` and `b` agree.
pub open spec fn agree_upto(a: Seq<char>, b: Seq<char>, n: int) -> bool {
    forall|k: int| 0 <= k < n ==> #[trigger] a[k] == b[k]
}

/// Strict lexicographic order on character sequences, by code point.
/// For valid UTF-8 this is the same order as the byte-wise order that
/// `Ord for String` uses.
pub open spec fn lex_lt(a: Seq<char>, b: Seq<char>) -> bool {
    exists|i: int|
        #![trigger agree_upto(a, b, i)]
        0 <= i && agree_upto(a, b, i) && ((i == a.len() && i < b.len()) || (i < a.len() && i
            < b.len() && (a[i] as u32) < (b[i] as u32)))
}

/// `p` is a prefix of `s` (what `str::starts_with` decides).
pub open spec fn is_prefix(p: Seq<char>, s: Seq<char>) -> bool {
    p.len() <= s.len() && agree_upto(p, s, p.len() as int)
}

/// No `'/'` occurs in `s` at positions `lo..hi`.
pub open spec fn slash_free(s: Seq<char>, lo: int, hi: int) -> bool {
    forall|k: int| lo <= k < hi ==> #[trigger] s[k] != '/'
}

/// Returns the length of the longest common prefix of `a` and `b`, starting
/// the search at `i`.
proof fn common_prefix(a: Seq<char>, b: Seq<char>, i: int) -> (k: int)
    requires
        0 <= i <= a.len(),
        i <= b.len(),
        agree_upto(a, b, i),
    ensures
        i <= k <= a.len(),
        k <= b.len(),
        agree_upto(a, b, k),
        k == a.len() || k == b.len() || a[k] != b[k],
    decreases a.len() - i,
{
    if i == a.len() || i == b.len() || a[i] != b[i] {
        i
    } else {
        common_prefix(a, b, i + 1)
    }
}

/// Two different sequences are ordered one way or the other.
pub proof fn lemma_lex_total(a: Seq<char>, b: Seq<char>)
    ensures
        a == b || lex_lt(a, b) || lex_lt(b, a),
{
    let k = common_prefix(a, b, 0);
    assert(agree_upto(b, a, k));
    if k == a.len() && k == b.len() {
        assert(a =~= b);
    } else if k == a.len() {
        assert(lex_lt(a, b));
    } else if k == b.len() {
        assert(lex_lt(b, a));
    } else if (a[k] as u32) < (b[k] as u32) {
        assert(lex_lt(a, b));
    } else {
        vstd::utf8::char_u32_cast(a[k], a[k] as u32);
        vstd::utf8::char_u32_cast(b[k], b[k] as u32);
        assert((a[k] as u32) != (b[k] as u32));
        assert(lex_lt(b, a));
    }
}

/// The order is transitive.
pub proof fn lemma_lex_transitive(a: Seq<char>, b: Seq<char>, c: Seq<char>)
    requires
        lex_lt(a, b),
        lex_lt(b, c),
    ensures
        lex_lt(a, c),
{
    let i = choose|i: int|
        #![trigger agree_upto(a, b, i)]
        0 <= i && agree_upto(a, b, i) && ((i == a.len() && i < b.len()) || (i < a.len() && i
            < b.len() && (a[i] as u32) < (b[i] as u32)));
    let j = choose|j: int|
        #![trigger agree_upto(b, c, j)]
        0 <= j && agree_upto(b, c, j) && ((j == b.len() && j < c.len()) || (j < b.len() && j
            < c.len() && (b[j] as u32) < (c[j] as u32)));
    if i < j {
        assert(agree_upto(a, c, i));
    } else if j < i {
        assert(agree_upto(a, c, j));
        assert(a[j] == b[j]);
    } else {
        assert(agree_upto(a, c, i));
    }
}

/// The characters of `s`, in order.
pub fn char_vec(s: &str) -> (v: Vec<char>)
    ensures
        v@ == s@,
{
    let mut v: Vec<char> = Vec::new();
    for c in it: s.chars()
        invariant
            v@ == it.seq().take(it.index() as int),
    {
        v.push(c);
    }
    v
}

/// Decides `lex_lt(a@, b@)`.
pub fn chars_less(a: &Vec<char>, b: &Vec<char>) -> (r: bool)
    ensures
        r == lex_lt(a@, b@),
{
    let mut i: usize = 0;
    while i < a.len() && i < b.len() && a[i] == b[i]
        invariant
            i <= a.len(),
            i <= b.len(),
            agree_upto(a@, b@, i as int),
        decreases a.len() - i,
    {
        i = i + 1;
    }
    let r = if i == a.len() {
        i < b.len()
    } else if i == b.len() {
        false
    } else {
        (a[i] as u32) < (b[i] as u32)
    };
    proof {
        if r {
            assert(agree_upto(a@, b@, i as int));
        } else if lex_lt(a@, b@) {
            let j = choose|j: int|
                #![trigger agree_upto(a@, b@, j)]
                0 <= j && agree_upto(a@, b@, j) && ((j == a@.len() && j < b@.len()) || (j
                    < a@.len() && j < b@.len() && (a@[j] as u32) < (b@[j] as u32)));
            if j < i {
                assert(a@[j] == b@[j]);
            } else if j > i {
                assert(a@[i as int] == b@[i as int]);
            }
        }
    }
    r
}

/// Decides `lex_lt(a@, b@)` for two strings.
pub fn str_less(a: &str, b: &str) -> (r: bool)
    ensures
        r == lex_lt(a@, b@),
{
    let va = char_vec(a);
    let vb = char_vec(b);
    chars_less(&va, &vb)
}

/// Decides whether two character vectors are equal.
pub fn chars_equal(a: &Vec<char>, b: &Vec<char>) -> (r: bool)
    ensures
        r == (a@ == b@),
{
    if a.len() != b.len() {
        return false;
    }
    let mut i: usize = 0;
    while i < a.len()
        invariant
            i <= a.len(),
            a.len() == b.len(),
            agree_upto(a@, b@, i as int),
        decreases a.len() - i,
    {
        if a[i] != b[i] {
            return false;
        }
        i = i + 1;
    }
    assert(a@ =~= b@);
    true
}

/// Decides whether two strings are equal.
pub fn str_equal(a: &str, b: &str) -> (r: bool)
    ensures
        r == (a@ == b@),
{
    let va = char_vec(a);
    let vb = char_vec(b);
    chars_equal(&va, &vb)
}

/// Decides `is_prefix(p@, s@)` (`s.starts_with(p)`).
pub fn chars_start_with(s: &Vec<char>, p: &Vec<char>) -> (r: bool)
    ensures
        r == is_prefix(p@, s@),
{
    if p.len() > s.len() {
        return false;
    }
    let mut i: usize = 0;
    while i < p.len()
        invariant
            i <= p.len(),
            p.len() <= s.len(),
            agree_upto(p@, s@, i as int),
        decreases p.len() - i,
    {
        if p[i] != s[i] {
            return false;
        }
        i = i + 1;
    }
    true
}

/// Decides `is_prefix(p@, s@)` for two strings.
pub fn str_starts_with(s: &str, p: &str) -> (r: bool)
    ensures
        r == is_prefix(p@, s@),
{
    let vs = char_vec(s);
    let vp = char_vec(p);
    chars_start_with(&vs, &vp)
}

/// The first position at or after `from` where `v` holds `'/'`, or `v.len()`.
pub fn next_slash(v: &Vec<char>, from: usize) -> (e: usize)
    requires
        from <= v.len(),
    ensures
        from <= e <= v.len(),
        slash_free(v@, from as int, e as int),
        e == v.len() || v@[e as int] == '/',
{
    let mut e = from;
    while e < v.len() && v[e] != '/'
        invariant
            from <= e <= v.len(),
            slash_free(v@, from as int, e as int),
        decreases v.len() - e,
    {
        e = e + 1;
    }
    e
}

} // verus!
