//! Character-level text helpers shared by the settings file and Run-command
//! parsers: ASCII case folding, Unicode white space, searching and trimming.
//!
//! Executable helpers work on a `Vec<char>` and a half-open range `lo..hi`
//! of it; their contracts speak of the sub-sequence `v@.subrange(lo, hi)`.

use vstd::prelude::*;

verus! {

/// The code of `c` after ASCII lower-casing: `A`..=`Z` map to `a`..=`z`,
/// every other character keeps its code.
pub open spec fn lower_code(c: char) -> int {
    if 65 <= (c as u32) <= 90 {
        (c as u32) + 32
    } else {
        c as u32 as int
    }
}

/// `a` and `b` are equal when ASCII letters are compared case-insensitively
/// (what `str::eq_ignore_ascii_case` decides).
pub open spec fn eq_ignore_ascii_case(a: Seq<char>, b: Seq<char>) -> bool {
    &&& a.len() == b.len()
    &&& forall|i: int| 0 <= i < a.len() ==> lower_code(#[trigger] a[i]) == lower_code(b[i])
}

/// ASCII lower-casing `s` gives exactly `t`.
pub open spec fn lowers_to(s: Seq<char>, t: Seq<char>) -> bool {
    &&& s.len() == t.len()
    &&& forall|i: int| 0 <= i < s.len() ==> lower_code(#[trigger] s[i]) == t[i] as u32
}

/// The Unicode `White_Space` property (what `char::is_whitespace` decides).
pub open spec fn is_white_space(c: char) -> bool {
    let n = c as u32;
    ||| 9 <= n <= 13
    ||| n == 32
    ||| n == 0x85
    ||| n == 0xA0
    ||| n == 0x1680
    ||| 0x2000 <= n <= 0x200A
    ||| n == 0x2028
    ||| n == 0x2029
    ||| n == 0x202F
    ||| n == 0x205F
    ||| n == 0x3000
}

/// The first position in `i..n` at which `p` holds, or `n` when none does.
pub open spec fn find_from(n: int, p: spec_fn(int) -> bool, i: int) -> int
    decreases n - i,
{
    if i >= n {
        n
    } else if p(i) {
        i
    } else {
        find_from(n, p, i + 1)
    }
}

/// One past the last position below `i` at which `p` holds, or `0` when none does.
pub open spec fn find_back(p: spec_fn(int) -> bool, i: int) -> int
    decreases i,
{
    if i <= 0 {
        0
    } else if p(i - 1) {
        i
    } else {
        find_back(p, i - 1)
    }
}

/// Positions of `s` that hold `c`.
pub open spec fn char_at(s: Seq<char>, c: char) -> spec_fn(int) -> bool {
    |i: int| s[i] == c
}

/// Positions of `s` that hold a white-space character.
pub open spec fn white_at(s: Seq<char>) -> spec_fn(int) -> bool {
    |i: int| is_white_space(s[i])
}

/// Positions of `s` that hold a character other than white space.
pub open spec fn non_white_at(s: Seq<char>) -> spec_fn(int) -> bool {
    |i: int| !is_white_space(s[i])
}

/// Index of the first `c` in `s`, or `s.len()` when `s` holds none.
pub open spec fn index_of(s: Seq<char>, c: char) -> int {
    find_from(s.len() as int, char_at(s, c), 0)
}

/// `s` without its leading and trailing white space (what `str::trim` gives).
pub open spec fn trim(s: Seq<char>) -> Seq<char> {
    let lo = find_from(s.len() as int, non_white_at(s), 0);
    let hi = find_back(non_white_at(s), s.len() as int);
    if lo < hi {
        s.subrange(lo, hi)
    } else {
        Seq::empty()
    }
}

pub proof fn lemma_find_from_bounds(n: int, p: spec_fn(int) -> bool, i: int)
    requires
        i <= n,
    ensures
        i <= find_from(n, p, i) <= n,
        find_from(n, p, i) < n ==> p(find_from(n, p, i)),
    decreases n - i,
{
    if i < n && !p(i) {
        lemma_find_from_bounds(n, p, i + 1);
    }
}

/// `find_from` is the position `k` that a left-to-right scan stops at.
pub proof fn lemma_find_from_is(n: int, p: spec_fn(int) -> bool, i: int, k: int)
    requires
        i <= k <= n,
        forall|j: int| i <= j < k ==> !#[trigger] p(j),
        k == n || p(k),
    ensures
        find_from(n, p, i) == k,
    decreases k - i,
{
    if i < k {
        lemma_find_from_is(n, p, i + 1, k);
    }
}

pub proof fn lemma_find_back_bounds(p: spec_fn(int) -> bool, i: int)
    requires
        0 <= i,
    ensures
        0 <= find_back(p, i) <= i,
        find_back(p, i) > 0 ==> p(find_back(p, i) - 1),
    decreases i,
{
    if i > 0 && !p(i - 1) {
        lemma_find_back_bounds(p, i - 1);
    }
}

/// A right-to-left scan from `i` stops past every position below `i` at
/// which `p` holds.
pub proof fn lemma_find_back_passes(p: spec_fn(int) -> bool, i: int, k: int)
    requires
        0 <= k < i,
        p(k),
    ensures
        k < find_back(p, i) <= i,
    decreases i,
{
    if !p(i - 1) {
        lemma_find_back_passes(p, i - 1, k);
    }
}

/// `find_back` is the position `k` that a right-to-left scan stops at.
pub proof fn lemma_find_back_is(p: spec_fn(int) -> bool, i: int, k: int)
    requires
        0 <= k <= i,
        forall|j: int| k <= j < i ==> !#[trigger] p(j),
        k == 0 || p(k - 1),
    ensures
        find_back(p, i) == k,
    decreases i - k,
{
    if k < i {
        lemma_find_back_is(p, i - 1, k);
    }
}

/// The characters of `s`, in order.
pub fn chars_of(s: &str) -> (v: Vec<char>)
    ensures
        v@ == s@,
{
    let n = s.unicode_len();
    let mut v: Vec<char> = Vec::new();
    let mut i: usize = 0;
    while i < n
        invariant
            n == s@.len(),
            i <= n,
            v@ == s@.take(i as int),
        decreases n - i,
    {
        let c = s.get_char(i);
        v.push(c);
        i = i + 1;
        assert(v@ =~= s@.take(i as int));
    }
    assert(v@ =~= s@);
    v
}

/// ASCII lower-cased code of `c`.
pub fn lower_code_of(c: char) -> (r: u32)
    ensures
        r == lower_code(c),
{
    let n = c as u32;
    if 65 <= n && n <= 90 {
        n + 32
    } else {
        n
    }
}

/// Whether `c` is Unicode white space.
pub fn is_white_space_char(c: char) -> (r: bool)
    ensures
        r == is_white_space(c),
{
    let n = c as u32;
    (9 <= n && n <= 13) || n == 32 || n == 0x85 || n == 0xA0 || n == 0x1680 || (0x2000 <= n && n
        <= 0x200A) || n == 0x2028 || n == 0x2029 || n == 0x202F || n == 0x205F || n == 0x3000
}

/// Position of the first `c` in `v[lo..hi]`, or `hi` when there is none.
pub fn find_char_in(v: &Vec<char>, lo: usize, hi: usize, c: char) -> (r: usize)
    requires
        lo <= hi <= v@.len(),
    ensures
        lo <= r <= hi,
        r - lo == index_of(v@.subrange(lo as int, hi as int), c),
{
    let ghost s = v@.subrange(lo as int, hi as int);
    let mut i = lo;
    while i < hi && v[i] != c
        invariant
            lo <= i <= hi <= v@.len(),
            s == v@.subrange(lo as int, hi as int),
            forall|j: int| lo <= j < i ==> v@[j] != c,
        decreases hi - i,
    {
        i = i + 1;
    }
    proof {
        assert forall|j: int| 0 <= j < i - lo implies !(#[trigger] char_at(s, c)(j)) by {
            assert(s[j] == v@[lo + j]);
        }
        lemma_find_from_is(s.len() as int, char_at(s, c), 0, i - lo);
    }
    i
}

/// Bounds of `trim(v[lo..hi])` inside `v`.
pub fn trim_in(v: &Vec<char>, lo: usize, hi: usize) -> (r: (usize, usize))
    requires
        lo <= hi <= v@.len(),
    ensures
        lo <= r.0 <= r.1 <= hi,
        v@.subrange(r.0 as int, r.1 as int) == trim(v@.subrange(lo as int, hi as int)),
{
    let ghost s = v@.subrange(lo as int, hi as int);
    let mut a = lo;
    while a < hi && is_white_space_char(v[a])
        invariant
            lo <= a <= hi <= v@.len(),
            forall|j: int| lo <= j < a ==> is_white_space(v@[j]),
        decreases hi - a,
    {
        a = a + 1;
    }
    let mut b = hi;
    while b > a && is_white_space_char(v[b - 1])
        invariant
            lo <= a <= b <= hi <= v@.len(),
            forall|j: int| b <= j < hi ==> is_white_space(v@[j]),
        decreases b - a,
    {
        b = b - 1;
    }
    proof {
        let n = s.len() as int;
        assert forall|j: int| 0 <= j < a - lo implies !(#[trigger] non_white_at(s)(j)) by {
            assert(s[j] == v@[lo + j]);
        }
        if a < hi {
            assert(s[a - lo] == v@[a as int]);
        }
        lemma_find_from_is(n, non_white_at(s), 0, a - lo);
        if a < hi {
            assert(b > a);
            assert(s[b - 1 - lo] == v@[b - 1]);
            assert forall|j: int| b - lo <= j < n implies !(#[trigger] non_white_at(s)(j)) by {
                assert(s[j] == v@[lo + j]);
            }
            lemma_find_back_is(non_white_at(s), n, b - lo);
            assert(v@.subrange(a as int, b as int) =~= s.subrange(a - lo, b - lo));
        } else {
            lemma_find_back_bounds(non_white_at(s), n);
            assert(v@.subrange(a as int, b as int) =~= Seq::<char>::empty());
        }
    }
    (a, b)
}

/// Whether `v[lo..hi]` equals `w` with ASCII letters compared case-insensitively.
pub fn eq_ignore_ascii_case_in(v: &Vec<char>, lo: usize, hi: usize, w: &Vec<char>) -> (r: bool)
    requires
        lo <= hi <= v@.len(),
    ensures
        r == eq_ignore_ascii_case(v@.subrange(lo as int, hi as int), w@),
{
    if hi - lo != w.len() {
        return false;
    }
    let mut i: usize = 0;
    while i < w.len()
        invariant
            lo <= hi <= v@.len(),
            hi - lo == w@.len(),
            i <= w@.len(),
            forall|j: int| 0 <= j < i ==> lower_code(v@[lo + j]) == lower_code(w@[j]),
        decreases w@.len() - i,
    {
        if lower_code_of(v[lo + i]) != lower_code_of(w[i]) {
            proof {
                let s = v@.subrange(lo as int, hi as int);
                assert(s[i as int] == v@[lo + i]);
            }
            return false;
        }
        i = i + 1;
    }
    proof {
        let s = v@.subrange(lo as int, hi as int);
        assert forall|j: int| 0 <= j < s.len() implies lower_code(#[trigger] s[j]) == lower_code(
            w@[j],
        ) by {
            assert(s[j] == v@[lo + j]);
        }
    }
    true
}

/// Whether ASCII lower-casing `v[lo..hi]` gives exactly `w`.
pub fn lowers_to_in(v: &Vec<char>, lo: usize, hi: usize, w: &Vec<char>) -> (r: bool)
    requires
        lo <= hi <= v@.len(),
    ensures
        r == lowers_to(v@.subrange(lo as int, hi as int), w@),
{
    if hi - lo != w.len() {
        return false;
    }
    let mut i: usize = 0;
    while i < w.len()
        invariant
            lo <= hi <= v@.len(),
            hi - lo == w@.len(),
            i <= w@.len(),
            forall|j: int| 0 <= j < i ==> lower_code(v@[lo + j]) == w@[j] as u32,
        decreases w@.len() - i,
    {
        if lower_code_of(v[lo + i]) != w[i] as u32 {
            proof {
                let s = v@.subrange(lo as int, hi as int);
                assert(s[i as int] == v@[lo + i]);
            }
            return false;
        }
        i = i + 1;
    }
    proof {
        let s = v@.subrange(lo as int, hi as int);
        assert forall|j: int| 0 <= j < s.len() implies lower_code(#[trigger] s[j]) == w@[j] as u32 by {
            assert(s[j] == v@[lo + j]);
        }
    }
    true
}

/// Position of the first white-space character in `v[lo..hi]`, or `hi` when there is none.
pub fn find_white_in(v: &Vec<char>, lo: usize, hi: usize) -> (r: usize)
    requires
        lo <= hi <= v@.len(),
    ensures
        lo <= r <= hi,
        r - lo == find_from(hi - lo, white_at(v@.subrange(lo as int, hi as int)), 0),
{
    let ghost s = v@.subrange(lo as int, hi as int);
    let mut i = lo;
    while i < hi && !is_white_space_char(v[i])
        invariant
            lo <= i <= hi <= v@.len(),
            forall|j: int| lo <= j < i ==> !is_white_space(v@[j]),
        decreases hi - i,
    {
        i = i + 1;
    }
    proof {
        assert forall|j: int| 0 <= j < i - lo implies !(#[trigger] white_at(s)(j)) by {
            assert(s[j] == v@[lo + j]);
        }
        if i < hi {
            assert(s[i - lo] == v@[i as int]);
        }
        lemma_find_from_is(s.len() as int, white_at(s), 0, i - lo);
    }
    i
}

} // verus!
