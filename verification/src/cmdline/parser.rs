//! Reading typed option values from a command-line tokenizer.

use vstd::prelude::*;
use core::num::ParseIntError;
use super::tokenizer::{value_step, Tokenizer};
use crate::text::str_eq;

verus! {

#[verifier::external_type_specification]
#[verifier::external_body]
pub struct ExParseIntError(ParseIntError);

/// Whether `c` is an ASCII decimal digit.
pub open spec fn is_decimal_digit(c: char) -> bool {
    48 <= (c as u32) && (c as u32) <= 57
}

/// The number written by the decimal digits `s`.
pub open spec fn digits_value(s: Seq<char>) -> nat
    decreases s.len(),
{
    if s.len() == 0 {
        0
    } else {
        digits_value(s.drop_last()) * 10 + ((s.last() as u32) - 48) as nat
    }
}

/// The `u32` that `s` writes in decimal: an optional `+`, then at least one
/// digit and nothing else, of a value that fits.
pub open spec fn decimal_u32(s: Seq<char>) -> Option<u32> {
    let d = if s.len() > 0 && s[0] == '+' {
        s.drop_first()
    } else {
        s
    };
    if d.len() > 0 && (forall|k: int| 0 <= k < d.len() ==> is_decimal_digit(#[trigger] d[k]))
        && digits_value(d) <= u32::MAX {
        Some(digits_value(d) as u32)
    } else {
        None
    }
}

/// `str::parse::<u32>`, which accepts an optional `+` followed by decimal
/// digits only, of a value that fits in `u32`. Which error it reports is not
/// stated.
#[verifier::external_body]
fn parse_u32(s: &str) -> (r: core::result::Result<u32, ParseIntError>)
    ensures
        match decimal_u32(s@) {
            Some(v) => r == Ok::<u32, ParseIntError>(v),
            None => r is Err,
        },
{
    s.parse::<u32>()
}

/// What went wrong while reading the command line.
#[derive(Debug)]
pub enum ParseErrorKind<'a> {
    /// A value other than one of those listed in `need`.
    Unexpected { need: &'a str, got: Option<&'a str> },
    /// A number that does not parse.
    ParseIntError(ParseIntError),
    /// An option name that is not known.
    UnexpectedId(&'a str),
}

/// An error and the byte position where it was found.
#[derive(Debug)]
#[allow(dead_code)]
pub struct ParseError<'a> {
    kind: ParseErrorKind<'a>,
    loc: usize,
}

/// An error kind, with its strings as characters.
pub enum ErrorKindView {
    Unexpected { need: Seq<char>, got: Option<Seq<char>> },
    BadNumber,
    UnexpectedId(Seq<char>),
}

/// An error, with its strings as characters.
pub struct ErrorView {
    pub kind: ErrorKindView,
    pub loc: usize,
}

pub open spec fn kind_view(k: ParseErrorKind) -> ErrorKindView {
    match k {
        ParseErrorKind::Unexpected { need, got } => ErrorKindView::Unexpected {
            need: need@,
            got: match got {
                Some(g) => Some(g@),
                None => None,
            },
        },
        ParseErrorKind::ParseIntError(_) => ErrorKindView::BadNumber,
        ParseErrorKind::UnexpectedId(id) => ErrorKindView::UnexpectedId(id@),
    }
}

impl<'a> ParseError<'a> {
    pub closed spec fn error_kind(&self) -> ParseErrorKind<'a> {
        self.kind
    }

    pub closed spec fn location(&self) -> usize {
        self.loc
    }

    pub open spec fn view(&self) -> ErrorView {
        ErrorView { kind: kind_view(self.error_kind()), loc: self.location() }
    }

    pub fn new(kind: ParseErrorKind<'a>, loc: usize) -> (r: Self)
        ensures
            r.error_kind() == kind,
            r.location() == loc,
    {
        Self { kind, loc }
    }

    /// What went wrong.
    pub fn kind(&self) -> (r: &ParseErrorKind<'a>)
        ensures
            *r == self.error_kind(),
    {
        &self.kind
    }

    /// The byte position where it went wrong.
    pub fn loc(&self) -> (r: usize)
        ensures
            r == self.location(),
    {
        self.loc
    }
}

/// The result of reading a value.
pub type Result<'a, T> = core::result::Result<T, ParseError<'a>>;

/// The error for a value `got` that is none of `need`, at `loc`.
pub open spec fn unexpected(need: Seq<char>, got: Seq<char>, loc: usize) -> ErrorView {
    ErrorView { kind: ErrorKindView::Unexpected { need, got: Some(got) }, loc }
}

/// What `r` says, as `spec` says it.
pub open spec fn result_is<'a, T>(r: Result<'a, T>, spec: core::result::Result<T, ErrorView>) -> bool {
    match spec {
        Ok(v) => r == Ok::<T, ParseError<'a>>(v),
        Err(e) => r matches Err(x) && x.view() == e,
    }
}

/// A value of `true` or `false`.
pub open spec fn bool_value(v: Seq<char>, loc: usize) -> core::result::Result<bool, ErrorView> {
    if v == "true"@ {
        Ok(true)
    } else if v == "false"@ {
        Ok(false)
    } else {
        Err(unexpected("true/false"@, v, loc))
    }
}

/// A decimal `u32` value.
pub open spec fn u32_value(v: Seq<char>, loc: usize) -> core::result::Result<u32, ErrorView> {
    match decimal_u32(v) {
        Some(n) => Ok(n),
        None => Err(ErrorView { kind: ErrorKindView::BadNumber, loc }),
    }
}

/// Something that can be read from the tokenizer as an option's value.
pub trait CmdlineParse<'a> where Self: Sized {
    /// Reads one value.
    fn parse_cmdline(tokenizer: &mut Tokenizer<'a>) -> (r: Result<'a, Self>)
        requires
            old(tokenizer).wf(),
        ensures
            final(tokenizer).wf(),
    ;
}

impl<'a> CmdlineParse<'a> for bool {
    /// `true` or `false`.
    fn parse_cmdline(tokenizer: &mut Tokenizer<'a>) -> (r: Result<'a, Self>)
        ensures
            ({
                let (p, v, rest, np) = value_step(old(tokenizer).rest(), old(tokenizer).pos());
                &&& final(tokenizer).rest() == rest
                &&& final(tokenizer).pos() == np
                &&& result_is(r, bool_value(v, p))
            }),
    {
        let (loc, value) = match tokenizer.next_value() {
            Some(t) => t,
            None => {
                let i = tokenizer.current_index();
                return Err(
                    ParseError::new(ParseErrorKind::Unexpected { need: "true/false", got: None }, i),
                );
            },
        };
        if str_eq(value, "true") {
            Ok(true)
        } else if str_eq(value, "false") {
            Ok(false)
        } else {
            Err(ParseError::new(ParseErrorKind::Unexpected { need: "true/false", got: Some(value) }, loc))
        }
    }
}

impl<'a> CmdlineParse<'a> for u32 {
    /// A decimal number.
    fn parse_cmdline(tokenizer: &mut Tokenizer<'a>) -> (r: Result<'a, Self>)
        ensures
            ({
                let (p, v, rest, np) = value_step(old(tokenizer).rest(), old(tokenizer).pos());
                &&& final(tokenizer).rest() == rest
                &&& final(tokenizer).pos() == np
                &&& result_is(r, u32_value(v, p))
            }),
    {
        let (loc, value) = match tokenizer.next_value() {
            Some(t) => t,
            None => {
                let i = tokenizer.current_index();
                return Err(
                    ParseError::new(ParseErrorKind::Unexpected { need: "<number>", got: None }, i),
                );
            },
        };
        match parse_u32(value) {
            Ok(n) => Ok(n),
            Err(e) => Err(ParseError::new(ParseErrorKind::ParseIntError(e), loc)),
        }
    }
}

impl<'a> CmdlineParse<'a> for &'a str {
    /// Any text.
    fn parse_cmdline(tokenizer: &mut Tokenizer<'a>) -> (r: Result<'a, Self>)
        ensures
            ({
                let (p, v, rest, np) = value_step(old(tokenizer).rest(), old(tokenizer).pos());
                &&& final(tokenizer).rest() == rest
                &&& final(tokenizer).pos() == np
                &&& r matches Ok(s) && s@ == v
            }),
    {
        let (_loc, value) = match tokenizer.next_value() {
            Some(t) => t,
            None => {
                let i = tokenizer.current_index();
                return Err(ParseError::new(ParseErrorKind::Unexpected { need: "<str>", got: None }, i));
            },
        };
        Ok(value)
    }
}

} // verus!
