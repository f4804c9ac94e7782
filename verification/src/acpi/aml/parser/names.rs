//! Parsing of AML names.
//!
//! A name is a (possibly empty) sequence of four-character segments,
//! optionally prefixed by the root character `\` or by parent prefixes
//! `^`. Two segments are introduced by `.`, more by `/` and a count.

use vstd::prelude::*;
use super::{AmlParseError, Parser};
use crate::text::push_char;

verus! {

/// A byte that may appear in a name segment after its first character.
pub open spec fn seg_char(b: u8) -> bool {
    (0x41 <= b <= 0x5A) || b == 0x5F || (0x30 <= b <= 0x39)
}

/// A byte that may start a name segment.
pub open spec fn lead_char(b: u8) -> bool {
    (0x41 <= b <= 0x5A) || b == 0x5F
}

/// The outcome of reading a name at some position.
pub ghost enum NameScan {
    /// A name with the position just after it.
    Found(Seq<char>, int),
    /// No name starts here.
    NotName,
    /// A name starts here but is malformed or cut off.
    Failed,
}

/// A single segment at `p`: the null name (one zero byte) or four characters.
pub open spec fn name_seg_at(s: Seq<u8>, p: int, e: int) -> NameScan {
    if p >= e {
        NameScan::Failed
    } else if s[p] == 0 {
        NameScan::Found(Seq::empty(), p + 1)
    } else if p + 4 <= e && seg_char(s[p + 1]) && seg_char(s[p + 2]) && seg_char(s[p + 3]) {
        NameScan::Found(
            seq![s[p] as char, s[p + 1] as char, s[p + 2] as char, s[p + 3] as char],
            p + 4,
        )
    } else {
        NameScan::Failed
    }
}

/// `k` segments separated by `.`.
pub open spec fn name_segs_at(s: Seq<u8>, p: int, e: int, k: int) -> NameScan
    decreases k,
{
    if k <= 0 {
        NameScan::Found(Seq::empty(), p)
    } else {
        match name_seg_at(s, p, e) {
            NameScan::Found(n1, q1) => if k == 1 {
                NameScan::Found(n1, q1)
            } else {
                match name_segs_at(s, q1, e, k - 1) {
                    NameScan::Found(n2, q2) => NameScan::Found(n1 + seq!['.'] + n2, q2),
                    _ => NameScan::Failed,
                }
            },
            _ => NameScan::Failed,
        }
    }
}

/// Number of `^` characters starting at `p`.
pub open spec fn caret_run(s: Seq<u8>, p: int, e: int) -> int
    decreases e - p,
{
    if p < e && s[p] == 0x5E {
        1 + caret_run(s, p + 1, e)
    } else {
        0
    }
}

/// The name that starts at `p`, if any.
pub open spec fn name_at(s: Seq<u8>, p: int, e: int) -> NameScan
    decreases e - p, 0int,
{
    if p >= e {
        NameScan::Failed
    } else {
        let b = s[p];
        if b == 0 {
            NameScan::Found(Seq::empty(), p + 1)
        } else if lead_char(b) {
            name_seg_at(s, p, e)
        } else if b == 0x5C {
            match name_at(s, p + 1, e) {
                NameScan::Found(n, q) => NameScan::Found(seq!['\\'] + n, q),
                _ => NameScan::Failed,
            }
        } else if b == 0x5E {
            let c = caret_run(s, p, e);
            if p + c >= e || c < 1 {
                NameScan::Failed
            } else {
                match name_at(s, p + c, e) {
                    NameScan::Found(n, q) => NameScan::Found(Seq::new(c as nat, |i: int| '^') + n, q),
                    _ => NameScan::Failed,
                }
            }
        } else if b == 0x2E {
            match name_seg_at(s, p + 1, e) {
                NameScan::Found(n1, q1) => match name_seg_at(s, q1, e) {
                    NameScan::Found(n2, q2) => NameScan::Found(n1 + seq!['.'] + n2, q2),
                    _ => NameScan::Failed,
                },
                _ => NameScan::Failed,
            }
        } else if b == 0x2F {
            if p + 1 >= e {
                NameScan::Failed
            } else {
                name_segs_at(s, p + 2, e, s[p + 1] as int)
            }
        } else {
            NameScan::NotName
        }
    }
}

pub proof fn lemma_caret_run_bounds(s: Seq<u8>, p: int, e: int)
    ensures
        0 <= caret_run(s, p, e),
        p <= e ==> p + caret_run(s, p, e) <= e,
    decreases e - p,
{
    if p < e && s[p] == 0x5E {
        lemma_caret_run_bounds(s, p + 1, e);
    }
}

pub proof fn lemma_name_seg_advances(s: Seq<u8>, p: int, e: int)
    ensures
        name_seg_at(s, p, e) matches NameScan::Found(n, q) ==> p < q <= e,
{
}

pub proof fn lemma_name_segs_advances(s: Seq<u8>, p: int, e: int, k: int)
    ensures
        name_segs_at(s, p, e, k) matches NameScan::Found(n, q) ==> p <= q <= e || (k <= 0 && q == p),
    decreases k,
{
    if k > 1 {
        if let NameScan::Found(n1, q1) = name_seg_at(s, p, e) {
            lemma_name_segs_advances(s, q1, e, k - 1);
        }
    }
}

/// A name that is found always ends after it starts and inside the window.
pub proof fn lemma_name_advances(s: Seq<u8>, p: int, e: int)
    ensures
        name_at(s, p, e) matches NameScan::Found(n, q) ==> p < q <= e,
    decreases e - p,
{
    if p < e {
        let b = s[p];
        if b == 0x5C {
            lemma_name_advances(s, p + 1, e);
        } else if b == 0x5E {
            lemma_caret_run_bounds(s, p, e);
            let c = caret_run(s, p, e);
            if p + c < e && c >= 1 {
                lemma_name_advances(s, p + c, e);
            }
        } else if b == 0x2F && p + 1 < e {
            lemma_name_segs_advances(s, p + 2, e, s[p + 1] as int);
        }
    }
}

impl<'a> Parser<'a> {
    /// One name segment: a null name (zero byte) or four characters.
    fn parse_name_path(&mut self) -> (r: Result<String, AmlParseError>)
        requires
            old(self).wf(),
        ensures
            final(self).wf(),
            super::advanced(*old(self), *final(self)),
            match name_seg_at(old(self).code@, old(self).pos as int, old(self).end as int) {
                NameScan::Found(n, q) => r matches Ok(x) && x@ == n && final(self).pos == q,
                _ => r is Err,
            },
    {
        let ghost s = self.code@;
        let ghost p = self.pos as int;
        let ghost e = self.end as int;
        let byte = self.get_next_byte()?;
        let mut str = String::new();
        if byte == 0 {
            return Ok(str);
        }
        push_char(&mut str, byte as char);
        let mut k: usize = 0;
        while k < 3
            invariant
                self.wf(),
                self.code@ == s,
                self.end == e,
                old(self).code@ == s,
                old(self).pos == p,
                old(self).end == e,
                p < e,
                byte == s[p],
                byte != 0,
                k <= 3,
                self.pos == p + 1 + k,
                forall|j: int| 1 <= j <= k ==> seg_char(#[trigger] s[p + j]),
                str@.len() == 1 + k,
                str@[0] == byte as char,
                forall|j: int| 1 <= j <= k ==> str@[j] == #[trigger] s[p + j] as char,
            decreases 3 - k,
        {
            let b = self.get_next_byte()?;
            if !((0x41 <= b && b <= 0x5A) || b == 0x5F || (0x30 <= b && b <= 0x39)) {
                return Err(AmlParseError::InvalidNameChar(b));
            }
            push_char(&mut str, b as char);
            k = k + 1;
        }
        proof {
            assert(str@ =~= seq![s[p] as char, s[p + 1] as char, s[p + 2] as char, s[p + 3] as char]);
        }
        Ok(str)
    }

    /// `count` segments separated by `.`.
    fn parse_name_segments(&mut self, count: u8) -> (r: Result<String, AmlParseError>)
        requires
            old(self).wf(),
        ensures
            final(self).wf(),
            super::advanced(*old(self), *final(self)),
            match name_segs_at(old(self).code@, old(self).pos as int, old(self).end as int, count as int) {
                NameScan::Found(n, q) => r matches Ok(x) && x@ == n && final(self).pos == q,
                _ => r is Err,
            },
        decreases count,
    {
        let ghost s = self.code@;
        let ghost p = self.pos as int;
        let ghost e = self.end as int;
        if count == 0 {
            return Ok(String::new());
        }
        let mut first = self.parse_name_path()?;
        if count == 1 {
            return Ok(first);
        }
        let rest = self.parse_name_segments(count - 1)?;
        crate::text::append_str(&mut first, ".");
        crate::text::append_str(&mut first, rest.as_str());
        proof {
            reveal_strlit(".");
        }
        Ok(first)
    }

    /// Reads a name if one starts here; nothing is consumed when none does.
    pub fn try_parse_name(&mut self) -> (r: Result<Option<String>, AmlParseError>)
        requires
            old(self).wf(),
        ensures
            final(self).wf(),
            super::advanced(*old(self), *final(self)),
            match name_at(old(self).code@, old(self).pos as int, old(self).end as int) {
                NameScan::Found(n, q) => r matches Ok(Some(x)) && x@ == n && final(self).pos == q,
                NameScan::NotName => r == Ok::<Option<String>, AmlParseError>(None) && final(self).pos == old(self).pos,
                NameScan::Failed => r is Err,
            },
        decreases old(self).end - old(self).pos, 0int,
    {
        let ghost s = self.code@;
        let ghost p = self.pos as int;
        let ghost e = self.end as int;
        let name_char_byte = self.peek_next_byte()?;
        if name_char_byte == 0 {
            self.forward(1)?;
            return Ok(Some(String::new()));
        }
        if (0x41 <= name_char_byte && name_char_byte <= 0x5A) || name_char_byte == 0x5F {
            let n = self.parse_name_path()?;
            return Ok(Some(n));
        }
        if name_char_byte == 0x5C {
            // root prefix
            self.forward(1)?;
            let name = self.parse_name()?;
            let mut full = crate::text::string_from("\\");
            proof {
                reveal_strlit("\\");
            }
            crate::text::append_str(&mut full, name.as_str());
            return Ok(Some(full));
        }
        if name_char_byte == 0x5E {
            // parent prefixes
            let mut str = String::new();
            proof {
                lemma_caret_run_bounds(s, p, e);
            }
            while self.peek_next_byte()? == 0x5E
                invariant
                    self.wf(),
                    self.code@ == s,
                    self.end == e,
                    old(self).code@ == s,
                    old(self).pos == p,
                    old(self).end == e,
                    p <= self.pos <= e,
                    p < e && s[p] == 0x5E,
                    caret_run(s, p, e) == (self.pos - p) + caret_run(s, self.pos as int, e),
                    str@ == Seq::new((self.pos - p) as nat, |i: int| '^'),
                decreases e - self.pos,
            {
                self.forward(1)?;
                push_char(&mut str, '^');
                proof {
                    assert(str@ =~= Seq::new((self.pos - p) as nat, |i: int| '^'));
                }
            }
            let ghost c = self.pos - p;
            proof {
                assert(caret_run(s, self.pos as int, e) == 0);
                if c == 0 {
                    assert(caret_run(s, p, e) >= 1);
                }
            }
            let rest = self.parse_name()?;
            crate::text::append_str(&mut str, rest.as_str());
            return Ok(Some(str));
        }
        if name_char_byte == 0x2E {
            self.forward(1)?;
            let mut seg1 = self.parse_name_path()?;
            let seg2 = self.parse_name_path()?;
            crate::text::append_str(&mut seg1, ".");
            crate::text::append_str(&mut seg1, seg2.as_str());
            proof {
                reveal_strlit(".");
            }
            return Ok(Some(seg1));
        }
        if name_char_byte == 0x2F {
            self.forward(1)?;
            let count = self.get_next_byte()?;
            let n = self.parse_name_segments(count)?;
            return Ok(Some(n));
        }
        Ok(None)
    }

    /// Reads a name; it is an error when no name starts here.
    pub fn parse_name(&mut self) -> (r: Result<String, AmlParseError>)
        requires
            old(self).wf(),
        ensures
            final(self).wf(),
            super::advanced(*old(self), *final(self)),
            match name_at(old(self).code@, old(self).pos as int, old(self).end as int) {
                NameScan::Found(n, q) => r matches Ok(x) && x@ == n && final(self).pos == q,
                _ => r is Err,
            },
        decreases old(self).end - old(self).pos, 1int,
    {
        let peek = self.peek_next_byte()?;
        match self.try_parse_name()? {
            Some(name) => Ok(name),
            None => Err(AmlParseError::InvalidNameChar(peek)),
        }
    }
}

} // verus!
