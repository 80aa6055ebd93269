//! Character-level helpers over strings, each proved against a spec function.
use vstd::prelude::*;

verus! {

/// Unicode `White_Space` property, as used by `char::is_whitespace`.
pub open spec fn is_ws(c: char) -> bool {
    let u = c as u32;
    u == 0x09 || u == 0x0A || u == 0x0B || u == 0x0C || u == 0x0D || u == 0x20 || u == 0x85
        || u == 0xA0 || u == 0x1680 || (0x2000 <= u && u <= 0x200A) || u == 0x2028 || u
        == 0x2029 || u == 0x202F || u == 0x205F || u == 0x3000
}

pub open spec fn trim_start_ws(s: Seq<char>) -> Seq<char>
    decreases s.len(),
{
    if s.len() > 0 && is_ws(s[0]) {
        trim_start_ws(s.drop_first())
    } else {
        s
    }
}

pub open spec fn trim_end_ws(s: Seq<char>) -> Seq<char>
    decreases s.len(),
{
    if s.len() > 0 && is_ws(s.last()) {
        trim_end_ws(s.drop_last())
    } else {
        s
    }
}

/// Leading and trailing whitespace removed.
pub open spec fn trim_ws(s: Seq<char>) -> Seq<char> {
    trim_end_ws(trim_start_ws(s))
}

/// Every trailing `c` removed.
pub open spec fn trim_end_char(s: Seq<char>, c: char) -> Seq<char>
    decreases s.len(),
{
    if s.len() > 0 && s.last() == c {
        trim_end_char(s.drop_last(), c)
    } else {
        s
    }
}

pub open spec fn has_prefix(s: Seq<char>, p: Seq<char>) -> bool {
    p.len() <= s.len() && s.subrange(0, p.len() as int) == p
}

pub open spec fn has_suffix(s: Seq<char>, p: Seq<char>) -> bool {
    p.len() <= s.len() && s.subrange(s.len() - p.len(), s.len() as int) == p
}

/// `s` with one trailing `p` removed, if it has one.
pub open spec fn strip_suffix(s: Seq<char>, p: Seq<char>) -> Seq<char> {
    if has_suffix(s, p) {
        s.subrange(0, s.len() - p.len())
    } else {
        s
    }
}

/// Index of the first `c` at or after `from`, or the length when there is none.
pub open spec fn next_char(s: Seq<char>, c: char, from: int) -> int
    decreases s.len() - from,
{
    if from >= s.len() {
        s.len() as int
    } else if from >= 0 && s[from] == c {
        from
    } else {
        next_char(s, c, from + 1)
    }
}

/// Index of the last `c` before `end`, or -1 when there is none.
pub open spec fn prev_char(s: Seq<char>, c: char, end: int) -> int
    decreases end,
{
    if end <= 0 {
        -1
    } else if s[end - 1] == c {
        end - 1
    } else {
        prev_char(s, c, end - 1)
    }
}

pub proof fn lemma_next_char_bounds(s: Seq<char>, c: char, from: int)
    requires
        0 <= from,
    ensures
        from <= next_char(s, c, from) || from > s.len(),
        next_char(s, c, from) <= s.len(),
        next_char(s, c, from) < s.len() ==> s[next_char(s, c, from)] == c,
        forall|j: int| from <= j < next_char(s, c, from) ==> s[j] != c,
    decreases s.len() - from,
{
    if from < s.len() && s[from] != c {
        lemma_next_char_bounds(s, c, from + 1);
    }
}

pub fn is_whitespace(c: char) -> (r: bool)
    ensures
        r == is_ws(c),
{
    let u = c as u32;
    u == 0x09 || u == 0x0A || u == 0x0B || u == 0x0C || u == 0x0D || u == 0x20 || u == 0x85
        || u == 0xA0 || u == 0x1680 || (0x2000 <= u && u <= 0x200A) || u == 0x2028 || u
        == 0x2029 || u == 0x202F || u == 0x205F || u == 0x3000
}

/// `s` without leading and trailing whitespace (as `str::trim`).
pub fn trim<'a>(s: &'a str) -> (r: &'a str)
    ensures
        r@ == trim_ws(s@),
{
    let n = s.unicode_len();
    assert(s@.subrange(0, n as int) =~= s@);
    let mut i: usize = 0;
    while i < n && is_whitespace(s.get_char(i))
        invariant
            n == s@.len(),
            i <= n,
            trim_start_ws(s@.subrange(i as int, n as int)) == trim_start_ws(s@),
        decreases n - i,
    {
        assert(s@.subrange(i as int, n as int).drop_first() =~= s@.subrange(i + 1, n as int));
        i = i + 1;
    }
    let mut j: usize = n;
    while j > i && is_whitespace(s.get_char(j - 1))
        invariant
            n == s@.len(),
            i <= j <= n,
            trim_start_ws(s@) == s@.subrange(i as int, n as int),
            trim_end_ws(s@.subrange(i as int, j as int)) == trim_ws(s@),
        decreases j,
    {
        assert(s@.subrange(i as int, j as int).drop_last() =~= s@.subrange(i as int, j - 1));
        j = j - 1;
    }
    s.substring_char(i, j)
}

/// `s` without any trailing `c` (as `str::trim_end_matches` with a char).
pub fn trim_end_matching<'a>(s: &'a str, c: char) -> (r: &'a str)
    ensures
        r@ == trim_end_char(s@, c),
{
    let n = s.unicode_len();
    assert(s@.subrange(0, n as int) =~= s@);
    let mut j: usize = n;
    while j > 0 && s.get_char(j - 1) == c
        invariant
            n == s@.len(),
            j <= n,
            trim_end_char(s@.subrange(0, j as int), c) == trim_end_char(s@, c),
        decreases j,
    {
        assert(s@.subrange(0, j as int).drop_last() =~= s@.subrange(0, j - 1));
        j = j - 1;
    }
    s.substring_char(0, j)
}

/// Whether `s` begins with `p`.
pub fn starts_with(s: &str, p: &str) -> (r: bool)
    ensures
        r == has_prefix(s@, p@),
{
    let n = s.unicode_len();
    let m = p.unicode_len();
    if m > n {
        return false;
    }
    let mut i: usize = 0;
    while i < m
        invariant
            n == s@.len(),
            m == p@.len(),
            m <= n,
            i <= m,
            forall|k: int| 0 <= k < i ==> s@[k] == p@[k],
        decreases m - i,
    {
        if s.get_char(i) != p.get_char(i) {
            assert(s@.subrange(0, m as int)[i as int] != p@[i as int]);
            return false;
        }
        i = i + 1;
    }
    assert(s@.subrange(0, m as int) =~= p@);
    true
}

/// Whether `s` ends with `p`.
pub fn ends_with(s: &str, p: &str) -> (r: bool)
    ensures
        r == has_suffix(s@, p@),
{
    let n = s.unicode_len();
    let m = p.unicode_len();
    if m > n {
        return false;
    }
    let d = n - m;
    let mut i: usize = 0;
    while i < m
        invariant
            n == s@.len(),
            m == p@.len(),
            d == n - m,
            i <= m,
            forall|k: int| 0 <= k < i ==> s@[d + k] == p@[k],
        decreases m - i,
    {
        if s.get_char(d + i) != p.get_char(i) {
            assert(s@.subrange(d as int, n as int)[i as int] != p@[i as int]);
            return false;
        }
        i = i + 1;
    }
    assert(s@.subrange(d as int, n as int) =~= p@);
    true
}

/// Whether the two strings hold the same characters.
pub fn str_eq(a: &str, b: &str) -> (r: bool)
    ensures
        r == (a@ == b@),
{
    let n = a.unicode_len();
    if n != b.unicode_len() {
        return false;
    }
    let mut i: usize = 0;
    while i < n
        invariant
            n == a@.len(),
            n == b@.len(),
            i <= n,
            forall|k: int| 0 <= k < i ==> a@[k] == b@[k],
        decreases n - i,
    {
        if a.get_char(i) != b.get_char(i) {
            return false;
        }
        i = i + 1;
    }
    assert(a@ =~= b@);
    true
}

/// Whether `c` occurs in `s`.
pub fn contains_char(s: &str, c: char) -> (r: bool)
    ensures
        r == s@.contains(c),
{
    let n = s.unicode_len();
    let mut i: usize = 0;
    while i < n
        invariant
            n == s@.len(),
            i <= n,
            forall|k: int| 0 <= k < i ==> s@[k] != c,
        decreases n - i,
    {
        if s.get_char(i) == c {
            return true;
        }
        i = i + 1;
    }
    false
}

/// Index of the first `c` at or after `from`, or the length of `s`.
pub fn find_char(s: &str, c: char, from: usize) -> (r: usize)
    requires
        from <= s@.len(),
    ensures
        r as int == next_char(s@, c, from as int),
{
    let n = s.unicode_len();
    let mut i: usize = from;
    while i < n && s.get_char(i) != c
        invariant
            n == s@.len(),
            from <= i <= n,
            next_char(s@, c, i as int) == next_char(s@, c, from as int),
        decreases n - i,
    {
        i = i + 1;
    }
    i
}

pub open spec fn last_segment(s: Seq<char>, c: char) -> Seq<char> {
    s.subrange(prev_char(s, c, s.len() as int) + 1, s.len() as int)
}

/// Index just after the last `c` in `s` (0 when there is none): where the last segment starts.
pub fn last_segment_start(s: &str, c: char) -> (r: usize)
    ensures
        r as int == prev_char(s@, c, s@.len() as int) + 1,
        r <= s@.len(),
{
    let n = s.unicode_len();
    let mut j: usize = n;
    while j > 0 && s.get_char(j - 1) != c
        invariant
            n == s@.len(),
            j <= n,
            prev_char(s@, c, j as int) == prev_char(s@, c, n as int),
        decreases j,
    {
        j = j - 1;
    }
    j
}

/// The part of `s` after its last `c` (all of `s` when there is none).
pub fn last_segment_of<'a>(s: &'a str, c: char) -> (r: &'a str)
    ensures
        r@ == last_segment(s@, c),
{
    let n = s.unicode_len();
    let k = last_segment_start(s, c);
    s.substring_char(k, n)
}

/// Every leading `c` removed.
pub open spec fn trim_start_char(s: Seq<char>, c: char) -> Seq<char>
    decreases s.len(),
{
    if s.len() > 0 && s[0] == c {
        trim_start_char(s.drop_first(), c)
    } else {
        s
    }
}

/// `s` without any leading or trailing `c` (as `str::trim_matches` with a char).
pub fn trim_matching<'a>(s: &'a str, c: char) -> (r: &'a str)
    ensures
        r@ == trim_end_char(trim_start_char(s@, c), c),
{
    let n = s.unicode_len();
    assert(s@.subrange(0, n as int) =~= s@);
    let mut i: usize = 0;
    while i < n && s.get_char(i) == c
        invariant
            n == s@.len(),
            i <= n,
            trim_start_char(s@.subrange(i as int, n as int), c) == trim_start_char(s@, c),
        decreases n - i,
    {
        assert(s@.subrange(i as int, n as int).drop_first() =~= s@.subrange(i + 1, n as int));
        i = i + 1;
    }
    let rest = s.substring_char(i, n);
    trim_end_matching(rest, c)
}

} // verus!
