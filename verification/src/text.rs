//! Operations on text: trimming, searching and splitting, each stated over
//! the sequence of characters that a string holds.

use vstd::prelude::*;
use vstd::string::*;

verus! {

/// Whether `c` is white space: the code points with Unicode's `White_Space` property.
pub open spec fn is_space(c: char) -> bool {
    let n = c as u32;
    ||| 0x09 <= n <= 0x0D
    ||| n == 0x20
    ||| n == 0x85
    ||| n == 0xA0
    ||| n == 0x1680
    ||| 0x2000 <= n <= 0x200A
    ||| n == 0x2028
    ||| n == 0x2029
    ||| n == 0x202F
    ||| n == 0x205F
    ||| n == 0x3000
}

pub fn char_is_space(c: char) -> (b: bool)
    ensures
        b == is_space(c),
{
    let n: u32 = c as u32;
    (0x09 <= n && n <= 0x0D) || n == 0x20 || n == 0x85 || n == 0xA0 || n == 0x1680
        || (0x2000 <= n && n <= 0x200A) || n == 0x2028 || n == 0x2029 || n == 0x202F
        || n == 0x205F || n == 0x3000
}

/// The first index at or after `i` that holds no white space, or the length.
pub open spec fn skip_spaces(s: Seq<char>, i: int) -> int
    decreases s.len() - i,
{
    if 0 <= i < s.len() && is_space(s[i]) {
        skip_spaces(s, i + 1)
    } else {
        i
    }
}

/// The end of `s[lo..j]` once the white space at its end is taken off.
pub open spec fn back_spaces(s: Seq<char>, lo: int, j: int) -> int
    decreases j,
{
    if 0 <= lo < j <= s.len() && is_space(s[j - 1]) {
        back_spaces(s, lo, j - 1)
    } else {
        j
    }
}

/// `s` without the white space at its two ends.
pub open spec fn trimmed(s: Seq<char>) -> Seq<char> {
    let a = skip_spaces(s, 0);
    let b = back_spaces(s, a, s.len() as int);
    s.subrange(a, b)
}

/// The first index at or after `i` that holds `c`, or the length where none does.
pub open spec fn find_from(s: Seq<char>, c: char, i: int) -> int
    decreases s.len() - i,
{
    if 0 <= i < s.len() && s[i] != c {
        find_from(s, c, i + 1)
    } else {
        i
    }
}

/// Whether `pat` stands in `s` at index `i`.
pub open spec fn matches_at(s: Seq<char>, pat: Seq<char>, i: int) -> bool {
    0 <= i && i + pat.len() <= s.len() && s.subrange(i, i + pat.len()) == pat
}

/// The first index at or after `i` at which `pat` stands in `s`; where it
/// stands nowhere, the first index from which it no longer fits.
pub open spec fn find_sub_from(s: Seq<char>, pat: Seq<char>, i: int) -> int
    decreases s.len() - i,
{
    if 0 <= i < s.len() && i + pat.len() <= s.len() && !matches_at(s, pat, i) {
        find_sub_from(s, pat, i + 1)
    } else {
        i
    }
}

/// The pieces of `s[start..]` between the occurrences of `pat`, left to right.
pub open spec fn split_from(s: Seq<char>, pat: Seq<char>, start: int) -> Seq<Seq<char>>
    decreases s.len() - start,
{
    let i = find_sub_from(s, pat, start);
    if pat.len() > 0 && 0 <= start <= i && matches_at(s, pat, i) {
        seq![s.subrange(start, i)] + split_from(s, pat, i + pat.len())
    } else {
        seq![s.subrange(start, s.len() as int)]
    }
}

/// The pieces of `s` between the occurrences of `pat`.
pub open spec fn split_on(s: Seq<char>, pat: Seq<char>) -> Seq<Seq<char>> {
    split_from(s, pat, 0)
}

/// The strings of `v`, each as its characters.
pub open spec fn views(v: Seq<String>) -> Seq<Seq<char>> {
    v.map_values(|s: String| s@)
}

/// All of `parts`, one after the other.
pub open spec fn joined(parts: Seq<Seq<char>>) -> Seq<char>
    decreases parts.len(),
{
    if parts.len() == 0 {
        Seq::empty()
    } else {
        joined(parts.drop_last()) + parts.last()
    }
}

/// Where no index from `i` up to `j` holds `c`, the search from `i` is the search from `j`.
pub proof fn lemma_find_absent(s: Seq<char>, c: char, i: int, j: int)
    requires
        0 <= i <= j <= s.len(),
        forall|k: int| i <= k < j ==> s[k] != c,
    ensures
        find_from(s, c, i) == find_from(s, c, j),
    decreases j - i,
{
    if i < j {
        lemma_find_absent(s, c, i + 1, j);
    }
}

/// Where the skipping of white space stops: at the end, or at a character
/// that is none.
pub proof fn lemma_skip_spaces_stops(s: Seq<char>, i: int)
    requires
        0 <= i <= s.len(),
    ensures
        i <= skip_spaces(s, i) <= s.len(),
        skip_spaces(s, i) < s.len() ==> !is_space(s[skip_spaces(s, i)]),
    decreases s.len() - i,
{
    if i < s.len() && is_space(s[i]) {
        lemma_skip_spaces_stops(s, i + 1);
    }
}

/// Where the skipping of white space from the end stops: at the lower
/// bound, or behind a character that is none.
pub proof fn lemma_back_spaces_stops(s: Seq<char>, lo: int, j: int)
    requires
        0 <= lo <= j <= s.len(),
    ensures
        lo <= back_spaces(s, lo, j) <= j,
        lo < back_spaces(s, lo, j) ==> !is_space(s[back_spaces(s, lo, j) - 1]),
    decreases j,
{
    if lo < j && is_space(s[j - 1]) {
        lemma_back_spaces_stops(s, lo, j - 1);
    }
}

/// A trimmed text that is not empty begins and ends with a character that
/// is no white space.
pub proof fn lemma_trimmed_ends(s: Seq<char>)
    ensures
        trimmed(s).len() > 0 ==> !is_space(trimmed(s)[0]) && !is_space(trimmed(s).last()),
{
    let a = skip_spaces(s, 0);
    lemma_skip_spaces_stops(s, 0);
    lemma_back_spaces_stops(s, a, s.len() as int);
}

/// `s` without the white space at its two ends.
pub fn trim(s: &str) -> (r: String)
    ensures
        r@ == trimmed(s@),
{
    let n: usize = s.unicode_len();
    let mut a: usize = 0;
    while a < n && char_is_space(s.get_char(a))
        invariant
            n == s@.len(),
            0 <= a <= n,
            skip_spaces(s@, 0) == skip_spaces(s@, a as int),
        decreases n - a,
    {
        a = a + 1;
    }
    let mut b: usize = n;
    while a < b && char_is_space(s.get_char(b - 1))
        invariant
            n == s@.len(),
            a <= b <= n,
            back_spaces(s@, a as int, n as int) == back_spaces(s@, a as int, b as int),
        decreases b,
    {
        b = b - 1;
    }
    String::from_str(s.substring_char(a, b))
}

/// The first index at or after `i` that holds `c`, or the length where none does.
pub fn find_char(s: &str, c: char, i: usize) -> (r: usize)
    requires
        i <= s@.len(),
    ensures
        r == find_from(s@, c, i as int),
        i <= r <= s@.len(),
{
    let n: usize = s.unicode_len();
    let mut k: usize = i;
    while k < n && s.get_char(k) != c
        invariant
            n == s@.len(),
            i <= k <= n,
            find_from(s@, c, i as int) == find_from(s@, c, k as int),
        decreases n - k,
    {
        k = k + 1;
    }
    k
}

/// Whether `pat` stands in `s` at index `i`.
pub fn starts_at(s: &str, pat: &str, i: usize) -> (r: bool)
    ensures
        r == matches_at(s@, pat@, i as int),
{
    let n: usize = s.unicode_len();
    let m: usize = pat.unicode_len();
    if i > n || m > n - i {
        return false;
    }
    let mut k: usize = 0;
    while k < m
        invariant
            n == s@.len(),
            m == pat@.len(),
            i + m <= n,
            0 <= k <= m,
            s@.subrange(i as int, i + k) == pat@.subrange(0, k as int),
        decreases m - k,
    {
        if s.get_char(i + k) != pat.get_char(k) {
            proof {
                let w = s@.subrange(i as int, i + m);
                assert(w[k as int] == s@[i + k]);
            }
            return false;
        }
        proof {
            assert(s@.subrange(i as int, i + k + 1) =~= s@.subrange(i as int, i + k).push(
                s@[i + k],
            ));
            assert(pat@.subrange(0, k + 1) =~= pat@.subrange(0, k as int).push(pat@[k as int]));
        }
        k = k + 1;
    }
    proof {
        assert(pat@.subrange(0, m as int) =~= pat@);
    }
    true
}

/// The first index at or after `i` at which `pat` stands in `s`; where it
/// stands nowhere, the first index from which it no longer fits.
pub fn find_sub(s: &str, pat: &str, i: usize) -> (r: usize)
    requires
        i <= s@.len(),
    ensures
        r == find_sub_from(s@, pat@, i as int),
        i <= r,
        matches_at(s@, pat@, r as int) || r + pat@.len() > s@.len(),
{
    let n: usize = s.unicode_len();
    let m: usize = pat.unicode_len();
    if m == 0 || m > n {
        proof {
            assert(m == 0 ==> s@.subrange(i as int, i as int) =~= pat@);
        }
        return i;
    }
    let mut k: usize = i;
    while k <= n - m && !starts_at(s, pat, k)
        invariant
            n == s@.len(),
            m == pat@.len(),
            0 < m <= n,
            i <= k <= n,
            find_sub_from(s@, pat@, i as int) == find_sub_from(s@, pat@, k as int),
        decreases n - k,
    {
        k = k + 1;
    }
    k
}

/// The pieces of `s` between the occurrences of `pat`, left to right.
pub fn split(s: &str, pat: &str) -> (out: Vec<String>)
    requires
        pat@.len() > 0,
    ensures
        views(out@) == split_on(s@, pat@),
{
    let n: usize = s.unicode_len();
    let m: usize = pat.unicode_len();
    let mut out: Vec<String> = Vec::new();
    let mut start: usize = 0;
    proof {
        assert(views(out@) =~= Seq::<Seq<char>>::empty());
    }
    loop
        invariant
            n == s@.len(),
            m == pat@.len(),
            m > 0,
            start <= n,
            split_on(s@, pat@) == views(out@) + split_from(s@, pat@, start as int),
        decreases n - start,
    {
        let i: usize = find_sub(s, pat, start);
        let ghost before = views(out@);
        if starts_at(s, pat, i) {
            out.push(String::from_str(s.substring_char(start, i)));
            proof {
                assert(views(out@) =~= before.push(s@.subrange(start as int, i as int)));
                assert(before + (seq![s@.subrange(start as int, i as int)] + split_from(
                    s@,
                    pat@,
                    i + m,
                )) =~= views(out@) + split_from(s@, pat@, i + m));
            }
            start = i + m;
        } else {
            out.push(String::from_str(s.substring_char(start, n)));
            proof {
                assert(views(out@) =~= before.push(s@.subrange(start as int, n as int)));
                assert(before + seq![s@.subrange(start as int, n as int)] =~= views(out@));
            }
            return out;
        }
    }
}

/// Whether two texts hold the same characters.
pub fn same_text(a: &str, b: &str) -> (r: bool)
    ensures
        r == (a@ == b@),
{
    let n: usize = a.unicode_len();
    if n != b.unicode_len() {
        return false;
    }
    let same = starts_at(a, b, 0);
    proof {
        assert(a@.subrange(0, n as int) =~= a@);
    }
    same
}

/// All of `parts`, one after the other.
pub fn join(parts: &Vec<String>) -> (r: String)
    ensures
        r@ == joined(views(parts@)),
{
    let mut r: String = String::new();
    let mut i: usize = 0;
    while i < parts.len()
        invariant
            0 <= i <= parts.len(),
            r@ == joined(views(parts@).subrange(0, i as int)),
        decreases parts.len() - i,
    {
        proof {
            let p = views(parts@).subrange(0, i + 1);
            assert(p.drop_last() =~= views(parts@).subrange(0, i as int));
            assert(p.last() == parts@[i as int]@);
        }
        r.append(parts[i].as_str());
        i = i + 1;
    }
    proof {
        assert(views(parts@).subrange(0, parts.len() as int) =~= views(parts@));
    }
    r
}

} // verus!
