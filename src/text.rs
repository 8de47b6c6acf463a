use vstd::prelude::*;

verus! {

/// `suffix` is a suffix of `s`.
pub open spec fn has_suffix(s: Seq<char>, suffix: Seq<char>) -> bool {
    suffix.len() <= s.len() && s.subrange(s.len() - suffix.len(), s.len() as int) == suffix
}

/// `prefix` is a prefix of `s`.
pub open spec fn has_prefix(s: Seq<char>, prefix: Seq<char>) -> bool {
    prefix.len() <= s.len() && s.subrange(0, prefix.len() as int) == prefix
}

/// Whether `s` ends with `suffix`, character by character.
pub fn ends_with(s: &str, suffix: &str) -> (r: bool)
    ensures
        r == has_suffix(s@, suffix@),
{
    let n = s.unicode_len();
    let m = suffix.unicode_len();
    if m > n {
        return false;
    }
    let off: usize = n - m;
    let mut i: usize = 0;
    while i < m
        invariant
            n == s@.len(),
            m == suffix@.len(),
            off == n - m,
            i <= m,
            forall|j: int| 0 <= j < i ==> s@[off + j] == suffix@[j],
        decreases m - i,
    {
        if s.get_char(off + i) != suffix.get_char(i) {
            assert(s@.subrange(off as int, n as int)[i as int] != suffix@[i as int]);
            return false;
        }
        i = i + 1;
    }
    assert(s@.subrange(off as int, n as int) =~= suffix@);
    true
}

/// Whether `s` starts with `prefix`, character by character.
pub fn starts_with(s: &str, prefix: &str) -> (r: bool)
    ensures
        r == has_prefix(s@, prefix@),
{
    let n = s.unicode_len();
    let m = prefix.unicode_len();
    if m > n {
        return false;
    }
    let mut i: usize = 0;
    while i < m
        invariant
            n == s@.len(),
            m == prefix@.len(),
            m <= n,
            i <= m,
            forall|j: int| 0 <= j < i ==> s@[j] == prefix@[j],
        decreases m - i,
    {
        if s.get_char(i) != prefix.get_char(i) {
            assert(s@.subrange(0, m as int)[i as int] != prefix@[i as int]);
            return false;
        }
        i = i + 1;
    }
    assert(s@.subrange(0, m as int) =~= prefix@);
    true
}

/// Whether two strings hold the same characters.
pub fn same_text(a: &str, b: &str) -> (r: bool)
    ensures
        r == (a@ == b@),
{
    let n = a.unicode_len();
    if n != b.unicode_len() {
        return false;
    }
    let mut i: usize = 0;
    while i < n
        invariant
            n == a@.len(),
            n == b@.len(),
            i <= n,
            forall|j: int| 0 <= j < i ==> a@[j] == b@[j],
        decreases n - i,
    {
        if a.get_char(i) != b.get_char(i) {
            return false;
        }
        i = i + 1;
    }
    assert(a@ =~= b@);
    true
}

/// The index of the first space in `s` at or after `start`, or the length of
/// `s` when there is none.
pub open spec fn token_end(s: Seq<char>, start: int) -> int
    decreases s.len() - start,
{
    if start >= s.len() {
        s.len() as int
    } else if s[start] == ' ' {
        start
    } else {
        token_end(s, start + 1)
    }
}

/// Where the characters from `start` up to `k` are no spaces and `k` ends the
/// text or holds a space, the token that starts at `start` ends at `k`.
pub proof fn lemma_token_end_at(s: Seq<char>, start: int, k: int)
    requires
        0 <= start <= k <= s.len(),
        forall|j: int| start <= j < k ==> s[j] != ' ',
        k == s.len() || s[k] == ' ',
    ensures
        token_end(s, start) == k,
    decreases k - start,
{
    if start < k {
        lemma_token_end_at(s, start + 1, k);
    }
}

/// The index of the first space in `s` at or after `start`, or the length of
/// `s` when there is none.
pub fn find_token_end(s: &str, start: usize) -> (r: usize)
    requires
        start <= s@.len(),
    ensures
        r == token_end(s@, start as int),
        start <= r <= s@.len(),
{
    let n = s.unicode_len();
    let mut i = start;
    while i < n && s.get_char(i) != ' '
        invariant
            n == s@.len(),
            start <= i <= n,
            token_end(s@, i as int) == token_end(s@, start as int),
        decreases n - i,
    {
        i = i + 1;
    }
    i
}

} // verus!
