//! The kernel command line: `name=value` pairs that set boot options.
//!
//! Pairs are separated by white space or commas. Names not listed in
//! [`Cmd`] are refused; options that are not given keep their defaults.

pub mod tokenizer;
pub mod parser;

use vstd::prelude::*;
use crate::text::str_eq;
use parser::{
    bool_value, result_is, u32_value, unexpected, CmdlineParse, ErrorKindView, ErrorView,
    ParseError, ParseErrorKind, Result,
};
use tokenizer::{
    char_is_whitespace, ident_end, ident_step, lemma_first_from_found, lemma_first_from_none,
    lemma_ident_step_shrinks, lemma_value_step_shrinks, space, split_token, utf8_len, value_end,
    value_step, Tokenizer,
};

verus! {

/// The most detailed level of log messages that is kept.
#[derive(Debug, Clone, Copy)]
pub enum LogLevel {
    Trace,
    Debug,
    Info,
    Warn,
    Error,
}

impl Default for LogLevel {
    fn default() -> (r: Self)
        ensures
            r == LogLevel::Info,
    {
        LogLevel::Info
    }
}

/// Whether and how the firmware's AML code is logged on boot.
#[derive(Debug, Clone, Copy)]
pub enum LogAml {
    /// Do not print the ASL content
    Off,
    /// Print the ASL content as parsed, without moving anything
    Normal,
    /// Reorganize the content of the ASL code to be in an easier structure
    /// to work with and traverse
    Structured,
}

impl Default for LogAml {
    fn default() -> (r: Self)
        ensures
            r == LogAml::Off,
    {
        LogAml::Off
    }
}

/// A log level value: `trace`, `debug`, `info`, `warn` or `error`.
pub open spec fn level_value(v: Seq<char>, loc: usize) -> core::result::Result<LogLevel, ErrorView> {
    if v == "trace"@ {
        Ok(LogLevel::Trace)
    } else if v == "debug"@ {
        Ok(LogLevel::Debug)
    } else if v == "info"@ {
        Ok(LogLevel::Info)
    } else if v == "warn"@ {
        Ok(LogLevel::Warn)
    } else if v == "error"@ {
        Ok(LogLevel::Error)
    } else {
        Err(unexpected("trace/debug/info/warn/error"@, v, loc))
    }
}

/// The word that names a log level on the command line.
pub open spec fn level_word(l: LogLevel) -> Seq<char> {
    match l {
        LogLevel::Trace => "trace"@,
        LogLevel::Debug => "debug"@,
        LogLevel::Info => "info"@,
        LogLevel::Warn => "warn"@,
        LogLevel::Error => "error"@,
    }
}

/// Each log level is read from its own word, and a word read as a level is
/// that level's word: the five words and the five levels correspond one to
/// one (so `warn` reads as `Warn`, never as another level).
pub proof fn lemma_level_words(w: Seq<char>, l: LogLevel, loc: usize)
    ensures
        level_value(level_word(l), loc) == Ok::<LogLevel, ErrorView>(l),
        level_value(w, loc) matches Ok(m) ==> w == level_word(m),
{
    reveal_strlit("trace");
    reveal_strlit("debug");
    reveal_strlit("info");
    reveal_strlit("warn");
    reveal_strlit("error");
    assert("trace"@ != "debug"@ && "trace"@ != "error"@ && "debug"@ != "error"@) by {
        assert("trace"@[0] != "debug"@[0]);
        assert("trace"@[0] != "error"@[0]);
        assert("debug"@[0] != "error"@[0]);
    }
    assert("info"@ != "warn"@) by {
        assert("info"@[0] != "warn"@[0]);
    }
    assert("info"@.len() != "trace"@.len() && "warn"@.len() != "trace"@.len());
}

/// An AML logging value: `off`, `normal` or `structured`.
pub open spec fn aml_value(v: Seq<char>, loc: usize) -> core::result::Result<LogAml, ErrorView> {
    if v == "off"@ {
        Ok(LogAml::Off)
    } else if v == "normal"@ {
        Ok(LogAml::Normal)
    } else if v == "structured"@ {
        Ok(LogAml::Structured)
    } else {
        Err(unexpected("off/normal/structured"@, v, loc))
    }
}

/// The word that names an AML logging mode on the command line.
pub open spec fn aml_word(a: LogAml) -> Seq<char> {
    match a {
        LogAml::Off => "off"@,
        LogAml::Normal => "normal"@,
        LogAml::Structured => "structured"@,
    }
}

/// Each AML logging mode is read from its own word, and a word read as a
/// mode is that mode's word: `off`, `normal` and `structured` correspond
/// one to one to the three modes.
pub proof fn lemma_aml_words(w: Seq<char>, a: LogAml, loc: usize)
    ensures
        aml_value(aml_word(a), loc) == Ok::<LogAml, ErrorView>(a),
        aml_value(w, loc) matches Ok(m) ==> w == aml_word(m),
{
    reveal_strlit("off");
    reveal_strlit("normal");
    reveal_strlit("structured");
    assert("off"@.len() != "normal"@.len() && "off"@.len() != "structured"@.len()
        && "normal"@.len() != "structured"@.len());
}

/// A yes-or-no value reads `true` from the word `true` and `false` from the
/// word `false`, and from no other word.
pub proof fn lemma_bool_words(w: Seq<char>, loc: usize)
    ensures
        bool_value("true"@, loc) == Ok::<bool, ErrorView>(true),
        bool_value("false"@, loc) == Ok::<bool, ErrorView>(false),
        bool_value(w, loc) matches Ok(b) ==> w == (if b { "true"@ } else { "false"@ }),
{
    reveal_strlit("true");
    reveal_strlit("false");
    assert("true"@.len() != "false"@.len());
}

impl<'a> CmdlineParse<'a> for LogLevel {
    fn parse_cmdline(tokenizer: &mut Tokenizer<'a>) -> (r: Result<'a, Self>)
        ensures
            ({
                let (p, v, rest, np) = value_step(old(tokenizer).rest(), old(tokenizer).pos());
                &&& final(tokenizer).rest() == rest
                &&& final(tokenizer).pos() == np
                &&& result_is(r, level_value(v, p))
            }),
    {
        let (loc, value) = match tokenizer.next_value() {
            Some(t) => t,
            None => {
                let i = tokenizer.current_index();
                return Err(
                    ParseError::new(
                        ParseErrorKind::Unexpected { need: "trace/debug/info/warn/error", got: None },
                        i,
                    ),
                );
            },
        };
        if str_eq(value, "trace") {
            Ok(Self::Trace)
        } else if str_eq(value, "debug") {
            Ok(Self::Debug)
        } else if str_eq(value, "info") {
            Ok(Self::Info)
        } else if str_eq(value, "warn") {
            Ok(Self::Warn)
        } else if str_eq(value, "error") {
            Ok(Self::Error)
        } else {
            Err(
                ParseError::new(
                    ParseErrorKind::Unexpected {
                        need: "trace/debug/info/warn/error",
                        got: Some(value),
                    },
                    loc,
                ),
            )
        }
    }
}

impl<'a> CmdlineParse<'a> for LogAml {
    fn parse_cmdline(tokenizer: &mut Tokenizer<'a>) -> (r: Result<'a, Self>)
        ensures
            ({
                let (p, v, rest, np) = value_step(old(tokenizer).rest(), old(tokenizer).pos());
                &&& final(tokenizer).rest() == rest
                &&& final(tokenizer).pos() == np
                &&& result_is(r, aml_value(v, p))
            }),
    {
        let (loc, value) = match tokenizer.next_value() {
            Some(t) => t,
            None => {
                let i = tokenizer.current_index();
                return Err(
                    ParseError::new(
                        ParseErrorKind::Unexpected { need: "off/normal/structured", got: None },
                        i,
                    ),
                );
            },
        };
        if str_eq(value, "off") {
            Ok(Self::Off)
        } else if str_eq(value, "normal") {
            Ok(Self::Normal)
        } else if str_eq(value, "structured") {
            Ok(Self::Structured)
        } else {
            Err(
                ParseError::new(
                    ParseErrorKind::Unexpected { need: "off/normal/structured", got: Some(value) },
                    loc,
                ),
            )
        }
    }
}

/// The boot options.
#[derive(Debug)]
pub struct Cmd<'a> {
    /// Enable the UART
    pub uart: bool,
    /// UART baudrate
    pub uart_baud: u32,
    /// Log level
    pub max_log_level: LogLevel,
    /// Log file
    pub log_file: &'a str,
    /// Allow `HPET` (if present), otherwise always use `PIT`
    pub allow_hpet: bool,
    /// Log the AML content as ASL code on boot from ACPI tables
    pub log_aml: LogAml,
}

/// The boot options, with the log file's name as characters.
pub struct CmdView {
    pub uart: bool,
    pub uart_baud: u32,
    pub max_log_level: LogLevel,
    pub log_file: Seq<char>,
    pub allow_hpet: bool,
    pub log_aml: LogAml,
}

impl<'a> View for Cmd<'a> {
    type V = CmdView;

    open spec fn view(&self) -> CmdView {
        CmdView {
            uart: self.uart,
            uart_baud: self.uart_baud,
            max_log_level: self.max_log_level,
            log_file: self.log_file@,
            allow_hpet: self.allow_hpet,
            log_aml: self.log_aml,
        }
    }
}

/// The options when the command line sets none.
pub open spec fn default_view() -> CmdView {
    CmdView {
        uart: true,
        uart_baud: 115200,
        max_log_level: LogLevel::Info,
        log_file: "/kernel.log"@,
        allow_hpet: true,
        log_aml: LogAml::Off,
    }
}

/// Reads the pairs of the rest `s`, at byte position `idx`, into `acc`:
/// each known name sets its option from the value after it; the first
/// unknown name or bad value is the error. Reading stops, successfully, at
/// the first place where no `name=` follows.
pub open spec fn cmd_parse(s: Seq<char>, idx: usize, acc: CmdView) -> core::result::Result<
    CmdView,
    ErrorView,
>
    decreases s.len(),
{
    match ident_step(s, idx) {
        None => Ok(acc),
        Some((loc, name, rest, np)) => {
            let (vp, v, rest2, np2) = value_step(rest, np as usize);
            let next = np2 as usize;
            proof {
                lemma_ident_step_shrinks(s, idx);
                lemma_value_step_shrinks(rest, np as usize);
            }
            if name == "uart"@ {
                match bool_value(v, vp) {
                    Ok(b) => cmd_parse(rest2, next, CmdView { uart: b, ..acc }),
                    Err(e) => Err(e),
                }
            } else if name == "uart_baud"@ {
                match u32_value(v, vp) {
                    Ok(n) => cmd_parse(rest2, next, CmdView { uart_baud: n, ..acc }),
                    Err(e) => Err(e),
                }
            } else if name == "max_log_level"@ {
                match level_value(v, vp) {
                    Ok(l) => cmd_parse(rest2, next, CmdView { max_log_level: l, ..acc }),
                    Err(e) => Err(e),
                }
            } else if name == "log_file"@ {
                cmd_parse(rest2, next, CmdView { log_file: v, ..acc })
            } else if name == "allow_hpet"@ {
                match bool_value(v, vp) {
                    Ok(b) => cmd_parse(rest2, next, CmdView { allow_hpet: b, ..acc }),
                    Err(e) => Err(e),
                }
            } else if name == "log_aml"@ {
                match aml_value(v, vp) {
                    Ok(a) => cmd_parse(rest2, next, CmdView { log_aml: a, ..acc }),
                    Err(e) => Err(e),
                }
            } else {
                Err(ErrorView { kind: ErrorKindView::UnexpectedId(name), loc })
            }
        },
    }
}

/// A line in which no `=` appears sets no option: reading it gives back
/// the options it started from.
pub proof fn lemma_no_pairs_keeps_options(s: Seq<char>, idx: usize, acc: CmdView)
    requires
        !s.contains('='),
    ensures
        cmd_parse(s, idx, acc) == Ok::<CmdView, ErrorView>(acc),
{
    tokenizer::lemma_first_from(s, tokenizer::ident_end(), 0);
    if let Some(i) = tokenizer::first_from(s, tokenizer::ident_end(), 0) {
        assert(s[i] != '=');
    }
}

/// The name of an option.
pub open spec fn option_name(n: Seq<char>) -> bool {
    ||| n == "uart"@
    ||| n == "uart_baud"@
    ||| n == "max_log_level"@
    ||| n == "log_file"@
    ||| n == "allow_hpet"@
    ||| n == "log_aml"@
}

/// A value that runs to the end of its pair: no white space, `,` or `=`.
pub open spec fn bare_value(v: Seq<char>) -> bool {
    forall|i: int| 0 <= i < v.len() ==> !char_is_whitespace(#[trigger] v[i]) && v[i] != ',' && v[i] != '='
}

/// Lower-case letters and `_`, the characters of the option names.
pub open spec fn name_chars(n: Seq<char>) -> bool {
    forall|i: int| 0 <= i < n.len() ==> ('a' <= #[trigger] n[i] <= 'z' || n[i] == '_')
}

/// How a line that is one pair `name=value` is split: the name, then the
/// value running to the end of the line, then nothing.
proof fn lemma_one_pair_tokens(name: Seq<char>, v: Seq<char>, idx: usize)
    requires
        option_name(name),
        bare_value(v),
    ensures
        ident_step(name + "="@ + v, idx) matches Some((_, nm, rest, np)) && nm == name && rest == v
            && value_step(v, np as usize).1 == v && value_step(v, np as usize).2 == Seq::<char>::empty(),
        forall|i2: usize, a2: CmdView| cmd_parse(Seq::<char>::empty(), i2, a2) == Ok::<CmdView, ErrorView>(a2),
{
    reveal_strlit("=");
    reveal_strlit("uart");
    reveal_strlit("uart_baud");
    reveal_strlit("max_log_level");
    reveal_strlit("log_file");
    reveal_strlit("allow_hpet");
    reveal_strlit("log_aml");
    assert(name_chars(name));
    let s = name + "="@ + v;
    let n = name.len() as int;
    assert(n > 0);
    assert(s[n] == '=');
    assert forall|j: int| 0 <= j < n implies !(ident_end())(#[trigger] s[j]) by {
        assert(s[j] == name[j]);
    }
    lemma_first_from_found(s, ident_end(), 0, n);
    assert(s.skip(n + 1) =~= v);
    assert(s.take(n) =~= name);
    assert(s.subrange(0, n) =~= name);
    assert(!char_is_whitespace(name[0]) && !char_is_whitespace(name[n - 1]));
    assert(split_token(s, ident_end(), tokenizer::ident_sep(), space()) == Some((n, n + 1)));
    assert forall|j: int| 0 <= j < v.len() implies !(value_end())(#[trigger] v[j]) by {}
    lemma_first_from_none(v, value_end(), 0);
    assert(split_token(v, value_end(), tokenizer::value_sep(), tokenizer::value_sep()) is None);
    assert(tokenizer::count_while(s.take(n), space()) == 0);
    assert(tokenizer::count_while_back(s.subrange(0, n), space()) == 0);
    let np = (idx + utf8_len(s.take(n + 1))) as nat;
    assert(ident_step(s, idx) == Some((idx.wrapping_sub(utf8_len(s.take(0)) as usize), name, v, np)));
    assert(value_step(v, np as usize).1 == v && value_step(v, np as usize).2 == Seq::<char>::empty());
    assert forall|i2: usize, a2: CmdView| cmd_parse(Seq::<char>::empty(), i2, a2) == Ok::<CmdView, ErrorView>(a2) by {
        assert(split_token(Seq::<char>::empty(), ident_end(), tokenizer::ident_sep(), space()) is None);
        assert(ident_step(Seq::<char>::empty(), i2) is None);
    }
}

/// A line that is one pair `name=value` sets the option of that name from
/// the value, and no other option: `uart` and `allow_hpet` read `true` or
/// `false`, `uart_baud` a decimal number, `max_log_level` a level word,
/// `log_aml` a mode word, and `log_file` takes the value as it is. A value
/// that does not read makes the line an error.
pub proof fn lemma_one_pair_sets_its_option(name: Seq<char>, v: Seq<char>, idx: usize, acc: CmdView)
    requires
        option_name(name),
        bare_value(v),
    ensures
        ({
            let r = cmd_parse(name + "="@ + v, idx, acc);
            &&& name == "uart"@ ==> match bool_value(v, 0) {
                Ok(b) => r == Ok::<CmdView, ErrorView>(CmdView { uart: b, ..acc }),
                Err(_) => r is Err,
            }
            &&& name == "uart_baud"@ ==> match u32_value(v, 0) {
                Ok(n) => r == Ok::<CmdView, ErrorView>(CmdView { uart_baud: n, ..acc }),
                Err(_) => r is Err,
            }
            &&& name == "max_log_level"@ ==> match level_value(v, 0) {
                Ok(l) => r == Ok::<CmdView, ErrorView>(CmdView { max_log_level: l, ..acc }),
                Err(_) => r is Err,
            }
            &&& name == "log_file"@ ==> r == Ok::<CmdView, ErrorView>(CmdView { log_file: v, ..acc })
            &&& name == "allow_hpet"@ ==> match bool_value(v, 0) {
                Ok(b) => r == Ok::<CmdView, ErrorView>(CmdView { allow_hpet: b, ..acc }),
                Err(_) => r is Err,
            }
            &&& name == "log_aml"@ ==> match aml_value(v, 0) {
                Ok(a) => r == Ok::<CmdView, ErrorView>(CmdView { log_aml: a, ..acc }),
                Err(_) => r is Err,
            }
        }),
{
    lemma_one_pair_tokens(name, v, idx);
    reveal_strlit("uart");
    reveal_strlit("uart_baud");
    reveal_strlit("max_log_level");
    reveal_strlit("log_file");
    reveal_strlit("allow_hpet");
    reveal_strlit("log_aml");
    let s = name + "="@ + v;
    let np = ident_step(s, idx).unwrap().3;
    let vs = value_step(v, np as usize);
    let vp = vs.0;
    let rest2 = vs.2;
    let next = vs.3 as usize;
    assert(name.len() == 4 || name.len() == 9 || name.len() == 13 || name.len() == 8 || name.len() == 10
        || name.len() == 7);
    if name == "uart"@ {
        assert(cmd_parse(s, idx, acc) == match bool_value(v, vp) {
            Ok(b) => cmd_parse(rest2, next, CmdView { uart: b, ..acc }),
            Err(e) => Err(e),
        });
        if let Ok(b) = bool_value(v, 0) {
            assert(bool_value(v, vp) == Ok::<_, ErrorView>(b));
        }
    }
    if name == "uart_baud"@ {
        assert(cmd_parse(s, idx, acc) == match u32_value(v, vp) {
            Ok(n) => cmd_parse(rest2, next, CmdView { uart_baud: n, ..acc }),
            Err(e) => Err(e),
        });
        if let Ok(n) = u32_value(v, 0) {
            assert(u32_value(v, vp) == Ok::<_, ErrorView>(n));
        }
    }
    if name == "max_log_level"@ {
        assert(cmd_parse(s, idx, acc) == match level_value(v, vp) {
            Ok(l) => cmd_parse(rest2, next, CmdView { max_log_level: l, ..acc }),
            Err(e) => Err(e),
        });
        if let Ok(l) = level_value(v, 0) {
            assert(level_value(v, vp) == Ok::<_, ErrorView>(l));
        }
    }
    if name == "allow_hpet"@ {
        assert(cmd_parse(s, idx, acc) == match bool_value(v, vp) {
            Ok(b) => cmd_parse(rest2, next, CmdView { allow_hpet: b, ..acc }),
            Err(e) => Err(e),
        });
        if let Ok(b) = bool_value(v, 0) {
            assert(bool_value(v, vp) == Ok::<_, ErrorView>(b));
        }
    }
    if name == "log_aml"@ {
        assert(cmd_parse(s, idx, acc) == match aml_value(v, vp) {
            Ok(a) => cmd_parse(rest2, next, CmdView { log_aml: a, ..acc }),
            Err(e) => Err(e),
        });
        if let Ok(a) = aml_value(v, 0) {
            assert(aml_value(v, vp) == Ok::<_, ErrorView>(a));
        }
    }
    if name == "log_file"@ {
        assert(cmd_parse(s, idx, acc) == cmd_parse(rest2, next, CmdView { log_file: v, ..acc }));
    }
}

/// What `r` says, as `spec` says it.
pub open spec fn cmd_result_is<'a>(
    r: Result<'a, Cmd<'a>>,
    spec: core::result::Result<CmdView, ErrorView>,
) -> bool {
    match spec {
        Ok(c) => r matches Ok(x) && x@ == c,
        Err(e) => r matches Err(x) && x.view() == e,
    }
}

impl<'a> CmdlineParse<'a> for Cmd<'a> {
    /// Reads all the pairs, starting from the defaults.
    fn parse_cmdline(tokenizer: &mut Tokenizer<'a>) -> (r: Result<'a, Self>)
        ensures
            cmd_result_is(r, cmd_parse(old(tokenizer).rest(), old(tokenizer).pos(), default_view())),
    {
        let mut uart = true;
        let mut uart_baud: u32 = 115200;
        let mut max_log_level = LogLevel::Info;
        let mut log_file: &'a str = "/kernel.log";
        let mut allow_hpet = true;
        let mut log_aml = LogAml::Off;
        let ghost s0 = tokenizer.rest();
        let ghost p0 = tokenizer.pos();
        loop
            invariant
                tokenizer.wf(),
                s0 == old(tokenizer).rest(),
                p0 == old(tokenizer).pos(),
                cmd_parse(s0, p0, default_view()) == cmd_parse(
                    tokenizer.rest(),
                    tokenizer.pos(),
                    CmdView {
                        uart,
                        uart_baud,
                        max_log_level,
                        log_file: log_file@,
                        allow_hpet,
                        log_aml,
                    },
                ),
            decreases tokenizer.rest().len(),
        {
            let ghost s = tokenizer.rest();
            let ghost p = tokenizer.pos();
            match tokenizer.next_ident() {
                None => {
                    return Ok(Self { uart, uart_baud, max_log_level, log_file, allow_hpet, log_aml });
                },
                Some((i, ident)) => {
                    proof {
                        lemma_ident_step_shrinks(s, p);
                        lemma_value_step_shrinks(tokenizer.rest(), tokenizer.pos());
                    }
                    if str_eq(ident, "uart") {
                        match <bool as CmdlineParse<'a>>::parse_cmdline(tokenizer) {
                            Ok(v) => uart = v,
                            Err(e) => return Err(e),
                        }
                    } else if str_eq(ident, "uart_baud") {
                        match <u32 as CmdlineParse<'a>>::parse_cmdline(tokenizer) {
                            Ok(v) => uart_baud = v,
                            Err(e) => return Err(e),
                        }
                    } else if str_eq(ident, "max_log_level") {
                        match <LogLevel as CmdlineParse<'a>>::parse_cmdline(tokenizer) {
                            Ok(v) => max_log_level = v,
                            Err(e) => return Err(e),
                        }
                    } else if str_eq(ident, "log_file") {
                        match <&'a str as CmdlineParse<'a>>::parse_cmdline(tokenizer) {
                            Ok(v) => log_file = v,
                            Err(e) => return Err(e),
                        }
                    } else if str_eq(ident, "allow_hpet") {
                        match <bool as CmdlineParse<'a>>::parse_cmdline(tokenizer) {
                            Ok(v) => allow_hpet = v,
                            Err(e) => return Err(e),
                        }
                    } else if str_eq(ident, "log_aml") {
                        match <LogAml as CmdlineParse<'a>>::parse_cmdline(tokenizer) {
                            Ok(v) => log_aml = v,
                            Err(e) => return Err(e),
                        }
                    } else {
                        return Err(ParseError::new(ParseErrorKind::UnexpectedId(ident), i));
                    }
                },
            }
        }
    }
}

/// The options used when the command line is absent or does not parse.
pub fn default_cmdline() -> (r: Cmd<'static>)
    ensures
        r@ == default_view(),
{
    Cmd {
        uart: true,
        uart_baud: 115200,
        max_log_level: LogLevel::Info,
        log_file: "/kernel.log",
        allow_hpet: true,
        log_aml: LogAml::Off,
    }
}

/// Reads a whole command line.
pub fn parse_cmdline(inp: &str) -> (r: Result<'_, Cmd<'_>>)
    requires
        utf8_len(inp@) <= usize::MAX,
    ensures
        cmd_result_is(r, cmd_parse(inp@, 0, default_view())),
{
    let mut tokenizer = Tokenizer::new(inp);
    Cmd::parse_cmdline(&mut tokenizer)
}

} // verus!
