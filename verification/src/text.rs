//! Small verified helpers over `String` and `str` used by the parsers.

use vstd::prelude::*;

verus! {

/// Appends one character (`String::push`).
#[verifier::external_body]
pub fn push_char(s: &mut String, c: char)
    ensures
        final(s)@ == old(s)@.push(c),
{
    s.push(c);
}

/// A new string holding exactly the characters of `s`.
pub fn string_from(s: &str) -> (r: String)
    ensures
        r@ == s@,
{
    String::from_str(s)
}

/// Appends the characters of `other`.
pub fn append_str(s: &mut String, other: &str)
    ensures
        final(s)@ == old(s)@ + other@,
{
    s.append(other);
}

/// Number of characters of a string.
pub fn char_len(s: &str) -> (n: usize)
    ensures
        n == s@.len(),
{
    s.unicode_len()
}

/// The character at position `i`.
pub fn char_at(s: &str, i: usize) -> (c: char)
    requires
        i < s@.len(),
    ensures
        c == s@[i as int],
{
    s.get_char(i)
}

/// Whether two strings hold the same characters.
pub fn str_eq(a: &str, b: &str) -> (r: bool)
    ensures
        r == (a@ == b@),
{
    let n = char_len(a);
    let m = char_len(b);
    if n != m {
        return false;
    }
    let mut i: usize = 0;
    while i < n
        invariant
            n == a@.len(),
            m == b@.len(),
            n == m,
            i <= n,
            forall|j: int| 0 <= j < i ==> a@[j] == b@[j],
        decreases n - i,
    {
        if char_at(a, i) != char_at(b, i) {
            return false;
        }
        i = i + 1;
    }
    assert(a@ =~= b@);
    true
}

/// The characters of `s` from `from` (inclusive) to `to` (exclusive), as a new string.
pub fn substring(s: &str, from: usize, to: usize) -> (r: String)
    requires
        from <= to <= s@.len(),
    ensures
        r@ == s@.subrange(from as int, to as int),
{
    String::from_str(s.substring_char(from, to))
}

/// A copy of a string.
pub fn copy_string(s: &String) -> (r: String)
    ensures
        r == *s,
        r@ == s@,
{
    s.clone()
}

/// Whether `pat` occurs in `s` at some position.
pub open spec fn contains_at(s: Seq<char>, pat: Seq<char>, i: int) -> bool {
    0 <= i && i + pat.len() <= s.len() && s.subrange(i, i + pat.len()) == pat
}

/// Whether the two characters `a`, `b` occur next to each other in `s`.
pub fn contains_pair(s: &str, a: char, b: char) -> (r: bool)
    ensures
        r == exists|i: int| 0 <= i && i + 1 < s@.len() && s@[i] == a && #[trigger] s@[i + 1] == b,
{
    let n = char_len(s);
    if n < 2 {
        return false;
    }
    let mut i: usize = 0;
    while i + 1 < n
        invariant
            n == s@.len(),
            n >= 2,
            i + 1 <= n,
            forall|j: int| 0 <= j < i ==> !(s@[j] == a && #[trigger] s@[j + 1] == b),
        decreases n - i,
    {
        if char_at(s, i) == a && char_at(s, i + 1) == b {
            assert(s@[i as int] == a && s@[i + 1] == b);
            return true;
        }
        i = i + 1;
    }
    proof {
        assert forall|j: int| 0 <= j && j + 1 < s@.len() implies !(s@[j] == a && #[trigger] s@[j + 1] == b) by {
            assert(j < i);
        }
    }
    false
}

/// The first position at or after `i` where `c` occurs in `s`.
pub open spec fn index_from(s: Seq<char>, c: char, i: int) -> Option<int>
    decreases s.len() - i,
{
    if i < 0 || i >= s.len() {
        None
    } else if s[i] == c {
        Some(i)
    } else {
        index_from(s, c, i + 1)
    }
}

/// The last position at or before `i` where `c` occurs in `s`.
pub open spec fn rindex_from(s: Seq<char>, c: char, i: int) -> Option<int>
    decreases i + 1,
{
    if i < 0 || i >= s.len() {
        None
    } else if s[i] == c {
        Some(i)
    } else {
        rindex_from(s, c, i - 1)
    }
}

pub proof fn lemma_index_from(s: Seq<char>, c: char, i: int)
    requires
        0 <= i,
    ensures
        match index_from(s, c, i) {
            Some(p) => i <= p < s.len() && s[p] == c && forall|j: int| i <= j < p ==> s[j] != c,
            None => forall|j: int| i <= j < s.len() ==> s[j] != c,
        },
    decreases s.len() - i,
{
    if i < s.len() && s[i] != c {
        lemma_index_from(s, c, i + 1);
    }
}

pub proof fn lemma_rindex_from(s: Seq<char>, c: char, i: int)
    requires
        i < s.len(),
    ensures
        match rindex_from(s, c, i) {
            Some(p) => 0 <= p <= i && s[p] == c && forall|j: int| p < j <= i ==> s[j] != c,
            None => forall|j: int| 0 <= j <= i ==> s[j] != c,
        },
    decreases i + 1,
{
    if i >= 0 && s[i] != c {
        lemma_rindex_from(s, c, i - 1);
    }
}

/// The first position of `c` in `s`.
pub fn find_char(s: &str, c: char) -> (r: Option<usize>)
    ensures
        r matches Some(p) ==> index_from(s@, c, 0) == Some(p as int),
        r is None ==> index_from(s@, c, 0) is None,
{
    let n = char_len(s);
    let mut i: usize = 0;
    while i < n
        invariant
            n == s@.len(),
            i <= n,
            index_from(s@, c, 0) == index_from(s@, c, i as int),
        decreases n - i,
    {
        if char_at(s, i) == c {
            return Some(i);
        }
        i = i + 1;
    }
    None
}

/// The last position of `c` in `s`.
pub fn rfind_char(s: &str, c: char) -> (r: Option<usize>)
    ensures
        r matches Some(p) ==> rindex_from(s@, c, s@.len() - 1) == Some(p as int),
        r is None ==> rindex_from(s@, c, s@.len() - 1) is None,
{
    let n = char_len(s);
    let mut i: usize = n;
    while i > 0
        invariant
            n == s@.len(),
            i <= n,
            rindex_from(s@, c, n - 1) == rindex_from(s@, c, i - 1),
        decreases i,
    {
        if char_at(s, i - 1) == c {
            return Some(i - 1);
        }
        i = i - 1;
    }
    None
}

/// `s` without its leading backslashes.
pub open spec fn trim_backslashes(s: Seq<char>) -> Seq<char>
    decreases s.len(),
{
    if s.len() > 0 && s[0] == '\\' {
        trim_backslashes(s.drop_first())
    } else {
        s
    }
}

/// A copy of `s` without its leading backslashes.
pub fn trim_leading_backslashes(s: &str) -> (r: String)
    ensures
        r@ == trim_backslashes(s@),
{
    let n = char_len(s);
    let mut i: usize = 0;
    assert(s@.skip(0) =~= s@);
    while i < n && char_at(s, i) == '\\'
        invariant
            n == s@.len(),
            i <= n,
            trim_backslashes(s@) == trim_backslashes(s@.skip(i as int)),
        decreases n - i,
    {
        assert(s@.skip(i as int).drop_first() =~= s@.skip(i + 1));
        i = i + 1;
    }
    assert(s@.subrange(i as int, n as int) =~= s@.skip(i as int));
    substring(s, i, n)
}

} // verus!
