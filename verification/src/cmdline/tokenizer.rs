//! Splitting a kernel command line into `name=value` pairs.
//!
//! A tokenizer walks the line once. Positions are byte offsets into the
//! line, as `str` indexing counts them.

use vstd::prelude::*;
use vstd::utf8::encode_utf8;
use crate::text::{char_at, char_len};

verus! {

/// Whether `c` has the Unicode `White_Space` property, which
/// `char::is_whitespace` tests: the controls from tab to carriage return,
/// the space, next line, no-break space, ogham space mark, the spaces from
/// en quad to hair space, the line and paragraph separators, narrow no-break
/// space, medium mathematical space and ideographic space.
pub open spec fn char_is_whitespace(c: char) -> bool {
    let v = c as u32;
    (9 <= v <= 13) || v == 0x20 || v == 0x85 || v == 0xA0 || v == 0x1680 || (0x2000 <= v <= 0x200A)
        || v == 0x2028 || v == 0x2029 || v == 0x202F || v == 0x205F || v == 0x3000
}

/// Whether `c`, outside ASCII, is alphabetic or numeric as the Unicode
/// tables say (`char::is_alphanumeric`).
pub uninterp spec fn non_ascii_alphanumeric(c: char) -> bool;

/// Whether `c` is alphabetic or numeric (`char::is_alphanumeric`): on ASCII
/// exactly the letters and digits.
pub open spec fn char_is_alphanumeric(c: char) -> bool {
    let v = c as u32;
    if v < 128 {
        (48 <= v <= 57) || (65 <= v <= 90) || (97 <= v <= 122)
    } else {
        non_ascii_alphanumeric(c)
    }
}

/// `char::is_whitespace`, as `char_is_whitespace` states it.
fn is_whitespace(c: char) -> (r: bool)
    ensures
        r == char_is_whitespace(c),
{
    let v = c as u32;
    (9 <= v && v <= 13) || v == 0x20 || v == 0x85 || v == 0xA0 || v == 0x1680 || (0x2000 <= v && v <= 0x200A)
        || v == 0x2028 || v == 0x2029 || v == 0x202F || v == 0x205F || v == 0x3000
}

/// `char::is_alphanumeric`. On ASCII it is true exactly of the letters and
/// digits; other characters are looked up in the Unicode tables, which are
/// not restated here.
#[verifier::external_body]
fn is_alphanumeric(c: char) -> (r: bool)
    ensures
        r == char_is_alphanumeric(c),
        (c as u32) >= 128 ==> r == non_ascii_alphanumeric(c),
{
    c.is_alphanumeric()
}

/// The number of bytes of the UTF-8 encoding of `s`.
pub open spec fn utf8_len(s: Seq<char>) -> nat {
    encode_utf8(s).len()
}

pub proof fn lemma_utf8_len_concat(a: Seq<char>, b: Seq<char>)
    ensures
        utf8_len(a + b) == utf8_len(a) + utf8_len(b),
    decreases a.len(),
{
    if a.len() == 0 {
        assert(a + b =~= b);
    } else {
        lemma_utf8_len_concat(a.drop_first(), b);
        assert((a + b).drop_first() =~= a.drop_first() + b);
        assert((a + b)[0] == a[0]);
    }
}

/// The bytes of the first `k` characters of `s` and of the rest add up to those of `s`.
pub proof fn lemma_utf8_len_split(s: Seq<char>, k: int)
    requires
        0 <= k <= s.len(),
    ensures
        utf8_len(s) == utf8_len(s.take(k)) + utf8_len(s.skip(k)),
        utf8_len(s.take(k)) <= utf8_len(s),
        utf8_len(s.skip(k)) <= utf8_len(s),
{
    assert(s =~= s.take(k) + s.skip(k));
    lemma_utf8_len_concat(s.take(k), s.skip(k));
}

/// The first position at or after `i` whose character satisfies `p`.
pub open spec fn first_from(s: Seq<char>, p: spec_fn(char) -> bool, i: int) -> Option<int>
    decreases s.len() - i,
{
    if i < 0 || i >= s.len() {
        None
    } else if p(s[i]) {
        Some(i)
    } else {
        first_from(s, p, i + 1)
    }
}

/// How many characters at the start of `s` satisfy `p`.
pub open spec fn count_while(s: Seq<char>, p: spec_fn(char) -> bool) -> nat
    decreases s.len(),
{
    if s.len() > 0 && p(s[0]) {
        1 + count_while(s.drop_first(), p)
    } else {
        0
    }
}

/// How many characters at the end of `s` satisfy `p`.
pub open spec fn count_while_back(s: Seq<char>, p: spec_fn(char) -> bool) -> nat
    decreases s.len(),
{
    if s.len() > 0 && p(s.last()) {
        1 + count_while_back(s.drop_last(), p)
    } else {
        0
    }
}

/// White space.
pub open spec fn space() -> spec_fn(char) -> bool {
    |c: char| char_is_whitespace(c)
}

/// What ends a name: anything but letters, digits, `,` and `_`.
pub open spec fn ident_end() -> spec_fn(char) -> bool {
    |c: char| !char_is_alphanumeric(c) && c != ',' && c != '_'
}

/// What must follow a name: `=`.
pub open spec fn ident_sep() -> spec_fn(char) -> bool {
    |c: char| c == '='
}

/// What ends a value: white space, `,` or `=`.
pub open spec fn value_end() -> spec_fn(char) -> bool {
    |c: char| char_is_whitespace(c) || c == ',' || c == '='
}

/// What separates a value from the next name, and is skipped after it:
/// white space or `,`.
pub open spec fn value_sep() -> spec_fn(char) -> bool {
    |c: char| char_is_whitespace(c) || c == ','
}

/// Where a token of `s` ends and where the rest starts: the token is the
/// characters before the first one satisfying `end`; that character must
/// satisfy `sep`, and the characters satisfying `skip` after it are dropped.
/// `None` where `s` is empty, no character ends the token, the token is
/// empty, or the ending character is not a separator.
pub open spec fn split_token(
    s: Seq<char>,
    end: spec_fn(char) -> bool,
    sep: spec_fn(char) -> bool,
    skip: spec_fn(char) -> bool,
) -> Option<(int, int)> {
    if s.len() == 0 {
        None
    } else {
        match first_from(s, end, 0) {
            None => None,
            Some(i) => if i == 0 || !sep(s[i]) {
                None
            } else {
                Some((i, i + 1 + count_while(s.skip(i + 1), skip)))
            },
        }
    }
}

/// One step of the tokenizer on the rest `s` at byte position `idx`: the
/// reported position, the token with its surrounding white space trimmed,
/// the new rest and the new position.
///
/// The reported position is `idx` moved back by the bytes of the white
/// space that leads the token, with wrap-around.
pub open spec fn token_step(
    s: Seq<char>,
    idx: usize,
    end: spec_fn(char) -> bool,
    sep: spec_fn(char) -> bool,
    skip: spec_fn(char) -> bool,
) -> Option<(usize, Seq<char>, Seq<char>, nat)> {
    match split_token(s, end, sep, skip) {
        None => None,
        Some((i, j)) => {
            let a = count_while(s.take(i), space()) as int;
            let b = i - count_while_back(s.subrange(a, i), space());
            Some(
                (
                    idx.wrapping_sub(utf8_len(s.take(a)) as usize),
                    s.subrange(a, b),
                    s.skip(j),
                    (idx + utf8_len(s.take(j))) as nat,
                ),
            )
        },
    }
}

/// A step that takes a name and the `=` after it.
pub open spec fn ident_step(s: Seq<char>, idx: usize) -> Option<(usize, Seq<char>, Seq<char>, nat)> {
    token_step(s, idx, ident_end(), ident_sep(), space())
}

/// A step that takes a value and the separators after it; where no such
/// token is found, the whole rest is the value.
pub open spec fn value_step(s: Seq<char>, idx: usize) -> (usize, Seq<char>, Seq<char>, nat) {
    match token_step(s, idx, value_end(), value_sep(), value_sep()) {
        Some(t) => t,
        None => (idx, s, Seq::empty(), (idx + utf8_len(s)) as nat),
    }
}

pub proof fn lemma_first_from(s: Seq<char>, p: spec_fn(char) -> bool, i: int)
    requires
        0 <= i,
    ensures
        first_from(s, p, i) matches Some(k) ==> i <= k < s.len() && p(s[k]),
    decreases s.len() - i,
{
    if i < s.len() && !p(s[i]) {
        lemma_first_from(s, p, i + 1);
    }
}

/// The first position from `i` satisfying `p` is `k` when `k` does and no
/// position between them does.
pub proof fn lemma_first_from_found(s: Seq<char>, p: spec_fn(char) -> bool, i: int, k: int)
    requires
        0 <= i <= k < s.len(),
        p(s[k]),
        forall|j: int| i <= j < k ==> !p(#[trigger] s[j]),
    ensures
        first_from(s, p, i) == Some(k),
    decreases k - i,
{
    if i < k {
        lemma_first_from_found(s, p, i + 1, k);
    }
}

/// No position from `i` on satisfies `p`: there is no first one.
pub proof fn lemma_first_from_none(s: Seq<char>, p: spec_fn(char) -> bool, i: int)
    requires
        0 <= i,
        forall|j: int| i <= j < s.len() ==> !p(#[trigger] s[j]),
    ensures
        first_from(s, p, i) is None,
    decreases s.len() - i,
{
    if i < s.len() {
        lemma_first_from_none(s, p, i + 1);
    }
}

pub proof fn lemma_count_while(t: Seq<char>, p: spec_fn(char) -> bool)
    ensures
        count_while(t, p) <= t.len(),
    decreases t.len(),
{
    if t.len() > 0 && p(t[0]) {
        lemma_count_while(t.drop_first(), p);
    }
}

/// A name step consumes at least the name and its `=`.
pub proof fn lemma_ident_step_shrinks(s: Seq<char>, idx: usize)
    ensures
        ident_step(s, idx) matches Some((_, _, rest, _)) ==> rest.len() < s.len(),
{
    lemma_first_from(s, ident_end(), 0);
    if let Some(i) = first_from(s, ident_end(), 0) {
        lemma_count_while(s.skip(i + 1), space());
    }
}

/// A value step never makes the rest longer.
pub proof fn lemma_value_step_shrinks(s: Seq<char>, idx: usize)
    ensures
        value_step(s, idx).2.len() <= s.len(),
{
    lemma_first_from(s, value_end(), 0);
    if let Some(i) = first_from(s, value_end(), 0) {
        lemma_count_while(s.skip(i + 1), value_sep());
    }
}

pub proof fn lemma_count_while_back(t: Seq<char>, p: spec_fn(char) -> bool)
    ensures
        count_while_back(t, p) <= t.len(),
    decreases t.len(),
{
    if t.len() > 0 && p(t.last()) {
        lemma_count_while_back(t.drop_last(), p);
    }
}

/// A tokenizer step on what is left of a line after its first `k`
/// characters, at the byte position of those characters, stays within the
/// line: what is then left is the end of the line after some `j` characters,
/// the new position is the number of bytes of the first `j` characters
/// (characters outside ASCII count with all their bytes), and the token is
/// the characters of the line from some `a` on, before `j`.
pub proof fn lemma_step_within_line(
    line: Seq<char>,
    k: int,
    idx: usize,
    end: spec_fn(char) -> bool,
    sep: spec_fn(char) -> bool,
    skip: spec_fn(char) -> bool,
)
    requires
        0 <= k <= line.len(),
        idx == utf8_len(line.take(k)),
    ensures
        token_step(line.skip(k), idx, end, sep, skip) matches Some((_, v, rest, np)) ==> exists|a: int, j: int|
            k <= a && a + v.len() <= j <= line.len() && v == #[trigger] line.subrange(a, a + v.len()) && rest == line.skip(j)
                && np == utf8_len(#[trigger] line.take(j)),
{
    let s = line.skip(k);
    if let Some((i, j)) = split_token(s, end, sep, skip) {
        lemma_first_from(s, end, 0);
        lemma_count_while(s.skip(i + 1), skip);
        let a = count_while(s.take(i), space()) as int;
        lemma_count_while(s.take(i), space());
        lemma_count_while_back(s.subrange(a, i), space());
        let b = i - count_while_back(s.subrange(a, i), space());
        let v = s.subrange(a, b);
        assert(v =~= line.subrange(k + a, k + a + v.len()));
        assert(s.skip(j) =~= line.skip(k + j));
        assert(line.take(k + j) =~= line.take(k) + s.take(j));
        lemma_utf8_len_concat(line.take(k), s.take(j));
        assert(utf8_len(line.take(k + j)) == utf8_len(line.take(k)) + utf8_len(s.take(j)));
        let r = token_step(s, idx, end, sep, skip)->0;
        assert(r.1 == v && r.2 == s.skip(j) && r.3 == (idx + utf8_len(s.take(j))) as nat);
        assert(k <= k + a && k + a + v.len() <= k + j <= line.len() && v == line.subrange(k + a, k + a + v.len())
            && r.2 == line.skip(k + j) && r.3 == utf8_len(line.take(k + j)));
    }
}

/// The value step stays within the line, as `lemma_step_within_line` says;
/// where it takes the whole rest, that rest is the token.
pub proof fn lemma_value_step_within_line(line: Seq<char>, k: int, idx: usize)
    requires
        0 <= k <= line.len(),
        idx == utf8_len(line.take(k)),
    ensures
        ({
            let (_, v, rest, np) = value_step(line.skip(k), idx);
            exists|a: int, j: int|
                k <= a && a + v.len() <= j <= line.len() && v == #[trigger] line.subrange(a, a + v.len()) && rest == line.skip(j)
                    && np == utf8_len(#[trigger] line.take(j))
        }),
{
    lemma_step_within_line(line, k, idx, value_end(), value_sep(), value_sep());
    if token_step(line.skip(k), idx, value_end(), value_sep(), value_sep()) is None {
        let s = line.skip(k);
        let n = line.len() as int;
        assert(s =~= line.subrange(k, k + s.len()));
        assert(Seq::<char>::empty() =~= line.skip(n));
        assert(line.take(n) =~= line.take(k) + s);
        lemma_utf8_len_concat(line.take(k), s);
        assert(utf8_len(line.take(n)) == utf8_len(line.take(k)) + utf8_len(s));
        let r = value_step(s, idx);
        assert(r.1 == s && r.2 == Seq::<char>::empty() && r.3 == (idx + utf8_len(s)) as nat);
        assert(k <= k && k + s.len() <= n <= line.len() && s == line.subrange(k, k + s.len()) && r.2 == line.skip(n)
            && r.3 == utf8_len(line.take(n)));
    } else {
        let r = token_step(line.skip(k), idx, value_end(), value_sep(), value_sep())->0;
        assert(value_step(line.skip(k), idx) == r);
        let (_, v, rest, np) = r;
        assert(exists|a: int, j: int|
            k <= a && a + v.len() <= j <= line.len() && v == #[trigger] line.subrange(a, a + v.len()) && rest == line.skip(j)
                && np == utf8_len(#[trigger] line.take(j)));
    }
}

/// What is left of a line and the byte position after a run of tokenizer
/// calls from `s` at `idx`: `true` for `next_ident` (which changes nothing
/// when it finds no name), `false` for `next_value`.
pub open spec fn tokenizer_run(s: Seq<char>, idx: nat, calls: Seq<bool>) -> (Seq<char>, nat)
    decreases calls.len(),
{
    if calls.len() == 0 {
        (s, idx)
    } else if calls[0] {
        match ident_step(s, idx as usize) {
            Some((_, _, rest, np)) => tokenizer_run(rest, np, calls.drop_first()),
            None => tokenizer_run(s, idx, calls.drop_first()),
        }
    } else {
        let (_, _, rest, np) = value_step(s, idx as usize);
        tokenizer_run(rest, np, calls.drop_first())
    }
}

/// Any run of tokenizer calls on a line, from its first `k` characters on
/// and at their byte position, leaves the end of the line after some `j`
/// characters, at the byte position of those `j` characters (characters
/// outside ASCII count with all their bytes).
pub proof fn lemma_run_within_line(line: Seq<char>, k: int, calls: Seq<bool>)
    requires
        0 <= k <= line.len(),
        utf8_len(line) <= usize::MAX,
    ensures
        exists|j: int|
            k <= j <= line.len() && #[trigger] tokenizer_run(line.skip(k), utf8_len(line.take(k)), calls) == (
                line.skip(j),
                utf8_len(line.take(j)),
            ),
    decreases calls.len(),
{
    let idx = utf8_len(line.take(k));
    lemma_utf8_len_split(line, k);
    assert(line.take(k).len() == k);
    if calls.len() == 0 {
        assert(tokenizer_run(line.skip(k), idx, calls) == (line.skip(k), utf8_len(line.take(k))));
    } else {
        let rest_calls = calls.drop_first();
        if calls[0] {
            lemma_step_within_line(line, k, idx as usize, ident_end(), ident_sep(), space());
            match ident_step(line.skip(k), idx as usize) {
                Some((_, v, rest, np)) => {
                    let (a, j) = choose|a: int, j: int|
                        k <= a && a + v.len() <= j <= line.len() && v == #[trigger] line.subrange(a, a + v.len())
                            && rest == line.skip(j) && np == utf8_len(#[trigger] line.take(j));
                    lemma_run_within_line(line, j, rest_calls);
                    let j2 = choose|j2: int|
                        j <= j2 <= line.len() && #[trigger] tokenizer_run(line.skip(j), utf8_len(line.take(j)), rest_calls)
                            == (line.skip(j2), utf8_len(line.take(j2)));
                    assert(tokenizer_run(line.skip(k), idx, calls) == (line.skip(j2), utf8_len(line.take(j2))));
                },
                None => {
                    lemma_run_within_line(line, k, rest_calls);
                    let j2 = choose|j2: int|
                        k <= j2 <= line.len() && #[trigger] tokenizer_run(line.skip(k), utf8_len(line.take(k)), rest_calls)
                            == (line.skip(j2), utf8_len(line.take(j2)));
                    assert(tokenizer_run(line.skip(k), idx, calls) == (line.skip(j2), utf8_len(line.take(j2))));
                },
            }
        } else {
            lemma_value_step_within_line(line, k, idx as usize);
            let (_, v, rest, np) = value_step(line.skip(k), idx as usize);
            let (a, j) = choose|a: int, j: int|
                k <= a && a + v.len() <= j <= line.len() && v == #[trigger] line.subrange(a, a + v.len()) && rest
                    == line.skip(j) && np == utf8_len(#[trigger] line.take(j));
            lemma_run_within_line(line, j, rest_calls);
            let j2 = choose|j2: int|
                j <= j2 <= line.len() && #[trigger] tokenizer_run(line.skip(j), utf8_len(line.take(j)), rest_calls) == (
                    line.skip(j2),
                    utf8_len(line.take(j2)),
                );
            assert(tokenizer_run(line.skip(k), idx, calls) == (line.skip(j2), utf8_len(line.take(j2))));
        }
    }
}

/// From the start of a line, any run of tokenizer calls leaves an end of the
/// line, at the byte position where that end starts.
pub proof fn lemma_tokenizer_run_from_start(line: Seq<char>, calls: Seq<bool>)
    requires
        utf8_len(line) <= usize::MAX,
    ensures
        exists|j: int|
            0 <= j <= line.len() && #[trigger] tokenizer_run(line, 0, calls) == (line.skip(j), utf8_len(line.take(j))),
{
    lemma_run_within_line(line, 0, calls);
    assert(line.skip(0) =~= line);
    assert(line.take(0) =~= Seq::<char>::empty());
    assert(utf8_len(Seq::<char>::empty()) == 0);
}

#[derive(Clone, Copy)]
enum TokenKind {
    Ident,
    Value,
}

spec fn kind_end(k: TokenKind) -> spec_fn(char) -> bool {
    match k {
        TokenKind::Ident => ident_end(),
        TokenKind::Value => value_end(),
    }
}

spec fn kind_sep(k: TokenKind) -> spec_fn(char) -> bool {
    match k {
        TokenKind::Ident => ident_sep(),
        TokenKind::Value => value_sep(),
    }
}

spec fn kind_skip(k: TokenKind) -> spec_fn(char) -> bool {
    match k {
        TokenKind::Ident => space(),
        TokenKind::Value => value_sep(),
    }
}

fn ends_token(k: TokenKind, c: char) -> (r: bool)
    ensures
        r == kind_end(k)(c),
{
    match k {
        TokenKind::Ident => !is_alphanumeric(c) && c != ',' && c != '_',
        TokenKind::Value => is_whitespace(c) || c == ',' || c == '=',
    }
}

fn separates_token(k: TokenKind, c: char) -> (r: bool)
    ensures
        r == kind_sep(k)(c),
{
    match k {
        TokenKind::Ident => c == '=',
        TokenKind::Value => is_whitespace(c) || c == ',',
    }
}

fn skipped_after(k: TokenKind, c: char) -> (r: bool)
    ensures
        r == kind_skip(k)(c),
{
    match k {
        TokenKind::Ident => is_whitespace(c),
        TokenKind::Value => is_whitespace(c) || c == ',',
    }
}

/// Walks a command line, handing out names and values.
pub struct Tokenizer<'a> {
    running_str: &'a str,
    idx: usize,
}

impl<'a> Tokenizer<'a> {
    /// What is left of the line.
    pub closed spec fn rest(&self) -> Seq<char> {
        self.running_str@
    }

    /// The byte position of what is left.
    pub closed spec fn pos(&self) -> usize {
        self.idx
    }

    /// The byte position and what is left fit the address space.
    pub open spec fn wf(&self) -> bool {
        self.pos() + utf8_len(self.rest()) <= usize::MAX
    }

    /// A tokenizer at the start of `inp`.
    pub fn new(inp: &'a str) -> (r: Self)
        requires
            utf8_len(inp@) <= usize::MAX,
        ensures
            r.wf(),
            r.rest() == inp@,
            r.pos() == 0,
    {
        Self { running_str: inp, idx: 0 }
    }

    /// The byte position of what is left.
    pub fn current_index(&self) -> (r: usize)
        ensures
            r == self.pos(),
    {
        self.idx
    }

    /// The index of the first character at or after `from` that satisfies `p`, or `n`.
    fn find_from(s: &str, n: usize, from: usize, k: TokenKind, ending: bool) -> (r: usize)
        requires
            n == s@.len(),
            from <= n,
        ensures
            from <= r <= n,
            ending ==> first_from(s@, kind_end(k), from as int) == (if r < n {
                Some(r as int)
            } else {
                None::<int>
            }),
            !ending ==> r == from + count_while(s@.skip(from as int), kind_skip(k)),
    {
        let mut i = from;
        while i < n
            invariant
                n == s@.len(),
                from <= i <= n,
                ending ==> first_from(s@, kind_end(k), from as int) == first_from(
                    s@,
                    kind_end(k),
                    i as int,
                ),
                !ending ==> count_while(s@.skip(from as int), kind_skip(k)) == (i - from)
                    + count_while(s@.skip(i as int), kind_skip(k)),
            decreases n - i,
        {
            let c = char_at(s, i);
            let stop = if ending {
                ends_token(k, c)
            } else {
                !skipped_after(k, c)
            };
            proof {
                assert(s@.skip(i as int).drop_first() =~= s@.skip(i + 1));
                assert(s@.skip(i as int)[0] == c);
            }
            if stop {
                return i;
            }
            i = i + 1;
        }
        proof {
            assert(s@.skip(n as int).len() == 0);
        }
        n
    }

    fn next_token(&mut self, k: TokenKind) -> (r: Option<(usize, &'a str)>)
        requires
            old(self).wf(),
        ensures
            final(self).wf(),
            match token_step(old(self).rest(), old(self).pos(), kind_end(k), kind_sep(k), kind_skip(k)) {
                None => r is None && final(self).rest() == old(self).rest() && final(self).pos() == old(
                    self,
                ).pos(),
                Some((p, v, rest, np)) => r matches Some((rp, rv)) && rp == p && rv@ == v
                    && final(self).rest() == rest && final(self).pos() == np,
            },
    {
        let s = self.running_str;
        let n = char_len(s);
        if n == 0 {
            return None;
        }
        let i = Self::find_from(s, n, 0, k, true);
        if i == n {
            return None;
        }
        if i == 0 {
            return None;
        }
        if !separates_token(k, char_at(s, i)) {
            return None;
        }
        let j = Self::find_from(s, n, i + 1, k, false);
        let rest = s.substring_char(j, n);
        let raw = s.substring_char(0, i);
        // leading and trailing white space of the token
        let a = Self::count_space(raw, i);
        let b = Self::count_space_back(raw, a, i);
        let trimmed_start = s.substring_char(a, i);
        let value = s.substring_char(a, b);
        proof {
            let sv = s@;
            assert(raw@ =~= sv.take(i as int));
            assert(rest@ =~= sv.skip(j as int));
            assert(trimmed_start@ =~= sv.subrange(a as int, i as int));
            assert(sv.take(i as int).skip(a as int) =~= sv.subrange(a as int, i as int));
            assert(sv.take(i as int).take(a as int) =~= sv.take(a as int));
            lemma_utf8_len_split(sv, j as int);
            lemma_utf8_len_split(sv, i as int);
            lemma_utf8_len_split(sv.take(i as int), a as int);
        }
        let old_len = raw.len();
        let start_len = trimmed_start.len();
        let lead = old_len - start_len;
        let pos_start = self.idx.wrapping_sub(lead);
        let total = s.len();
        let rest_len = rest.len();
        self.idx = self.idx + (total - rest_len);
        self.running_str = rest;
        Some((pos_start, value))
    }

    /// The number of white-space characters that start `raw`.
    fn count_space(raw: &str, n: usize) -> (a: usize)
        requires
            n == raw@.len(),
        ensures
            a == count_while(raw@, space()),
            a <= n,
    {
        let mut a: usize = 0;
        assert(raw@.skip(0) =~= raw@);
        while a < n && is_whitespace(char_at(raw, a))
            invariant
                n == raw@.len(),
                a <= n,
                count_while(raw@, space()) == a + count_while(raw@.skip(a as int), space()),
            decreases n - a,
        {
            assert(raw@.skip(a as int).drop_first() =~= raw@.skip(a + 1));
            a = a + 1;
        }
        a
    }

    /// Where the trailing white space of `raw[a..n]` starts.
    fn count_space_back(raw: &str, a: usize, n: usize) -> (b: usize)
        requires
            n == raw@.len(),
            a <= n,
        ensures
            a <= b <= n,
            b == n - count_while_back(raw@.subrange(a as int, n as int), space()),
    {
        let mut b: usize = n;
        while b > a && is_whitespace(char_at(raw, b - 1))
            invariant
                n == raw@.len(),
                a <= b <= n,
                count_while_back(raw@.subrange(a as int, n as int), space()) == (n - b)
                    + count_while_back(raw@.subrange(a as int, b as int), space()),
            decreases b,
        {
            assert(raw@.subrange(a as int, b as int).drop_last() =~= raw@.subrange(
                a as int,
                b - 1,
            ));
            b = b - 1;
        }
        b
    }

    /// The next name, which must be followed by `=`.
    ///
    /// `None`, with nothing consumed, where the rest is empty, starts with
    /// a character that ends names, or holds no `=` after the name.
    pub fn next_ident(&mut self) -> (r: Option<(usize, &'a str)>)
        requires
            old(self).wf(),
        ensures
            final(self).wf(),
            match ident_step(old(self).rest(), old(self).pos()) {
                None => r is None && final(self).rest() == old(self).rest() && final(self).pos() == old(
                    self,
                ).pos(),
                Some((p, v, rest, np)) => r matches Some((rp, rv)) && rp == p && rv@ == v
                    && final(self).rest() == rest && final(self).pos() == np,
            },
    {
        self.next_token(TokenKind::Ident)
    }

    /// The next value. Where no separator follows a value, the whole rest
    /// is taken, so there always is one (possibly empty).
    pub fn next_value(&mut self) -> (r: Option<(usize, &'a str)>)
        requires
            old(self).wf(),
        ensures
            final(self).wf(),
            r matches Some((rp, rv)) && ({
                let (p, v, rest, np) = value_step(old(self).rest(), old(self).pos());
                rp == p && rv@ == v && final(self).rest() == rest && final(self).pos() == np
            }),
            r matches Some((rp, _)) && rp == old(self).pos(),
    {
        proof {
            let s = self.rest();
            if let Some(i) = first_from(s, value_end(), 0) {
                lemma_first_from(s, value_end(), 0);
                if i > 0 {
                    assert(!value_end()(s[0]));
                    assert(s.take(i)[0] == s[0]);
                    assert(!space()(s.take(i)[0]));
                    assert(count_while(s.take(i), space()) == 0);
                    assert(s.take(0) =~= Seq::<char>::empty());
                    assert(encode_utf8(Seq::<char>::empty()).len() == 0);
                }
            }
        }
        match self.next_token(TokenKind::Value) {
            Some(t) => Some(t),
            None => {
                let rest = self.running_str;
                let pos_start = self.idx;
                let n = rest.len();
                self.running_str = rest.substring_char(char_len(rest), char_len(rest));
                self.idx = self.idx + n;
                proof {
                    assert(self.running_str@ =~= Seq::<char>::empty());
                    assert(encode_utf8(Seq::<char>::empty()).len() == 0);
                }
                Some((pos_start, rest))
            },
        }
    }
}

} // verus!
