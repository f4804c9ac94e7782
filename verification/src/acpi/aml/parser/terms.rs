//! Parsing of AML terms, term arguments, data objects and targets.

use vstd::prelude::*;
use super::{
    advanced, AccessAttrib, AccessType, AmlCode, AmlParseError, AmlTerm, Buffer, FieldConnection,
    FieldDef, FieldElement, FieldUpdateRule, IndexFieldDef, IntegerData, MethodObj, PackageElement,
    Parser, PowerResource, PredicateBlock, ProcessorDeprecated, RegionObj, RegionSpace, ScopeObj,
    State, Target, TermArg, UnresolvedDataObject, last_segment, pkg_bounds, region_space_of, access_type_of, update_rule_of,
};
use super::names::{name_at, NameScan, lemma_name_advances};
use crate::bytes::{le2, le4, le8};
use crate::text::push_char;

verus! {

/// An uppercase hexadecimal digit.
pub open spec fn hex_digit(n: int) -> char {
    if n < 10 {
        (0x30 + n) as char
    } else {
        (0x41 + n - 10) as char
    }
}

/// The seven-character EISA id text of a 32-bit id: three letters of the
/// manufacturer followed by the two product bytes in hexadecimal.
pub open spec fn eisa_id_text(id: u32) -> Seq<char> {
    let b0 = id as int % 256;
    let b1 = (id as int / 256) % 256;
    let b2 = (id as int / 65536) % 256;
    let b3 = id as int / 16777216;
    seq![
        (b0 / 4 + 0x40) as char,
        ((b0 % 4) * 8 + b1 / 32 + 0x40) as char,
        (b1 % 32 + 0x40) as char,
        hex_digit(b2 / 16),
        hex_digit(b2 % 16),
        hex_digit(b3 / 16),
        hex_digit(b3 % 16),
    ]
}

/// The value of an uppercase hexadecimal digit character.
pub open spec fn hex_value(c: char) -> int {
    if '0' <= c <= '9' {
        c as int - 0x30
    } else {
        c as int - 0x37
    }
}

/// A text that the ASL `EisaId` macro takes: three uppercase letters and
/// four uppercase hexadecimal digits.
pub open spec fn eisa_text_valid(t: Seq<char>) -> bool {
    &&& t.len() == 7
    &&& forall|i: int| 0 <= i < 3 ==> 'A' <= #[trigger] t[i] <= 'Z'
    &&& forall|i: int| 3 <= i < 7 ==> ('0' <= #[trigger] t[i] <= '9' || 'A' <= t[i] <= 'F')
}

/// The 32-bit id that the ASL `EisaId` macro makes of a text: each letter
/// as five bits (`A` is 1), the letters packed big-endian into the first
/// two bytes, then the two product bytes given by the hexadecimal digits,
/// the whole stored little-endian.
pub open spec fn eisa_encode(t: Seq<char>) -> int {
    let l0 = t[0] as int - 0x40;
    let l1 = t[1] as int - 0x40;
    let l2 = t[2] as int - 0x40;
    let vendor = l0 * 1024 + l1 * 32 + l2;
    let byte0 = vendor / 256;
    let byte1 = vendor % 256;
    let byte2 = hex_value(t[3]) * 16 + hex_value(t[4]);
    let byte3 = hex_value(t[5]) * 16 + hex_value(t[6]);
    byte0 + 256 * byte1 + 65536 * byte2 + 16777216 * byte3
}

proof fn lemma_hex_roundtrip(c: char)
    requires
        '0' <= c <= '9' || 'A' <= c <= 'F',
    ensures
        0 <= hex_value(c) < 16,
        hex_digit(hex_value(c)) == c,
{
}

proof fn lemma_bytes_of(b0: int, b1: int, b2: int, b3: int)
    requires
        0 <= b0 < 256,
        0 <= b1 < 256,
        0 <= b2 < 256,
        0 <= b3 < 256,
    ensures
        (b0 + 256 * b1 + 65536 * b2 + 16777216 * b3) % 256 == b0,
        ((b0 + 256 * b1 + 65536 * b2 + 16777216 * b3) / 256) % 256 == b1,
        ((b0 + 256 * b1 + 65536 * b2 + 16777216 * b3) / 65536) % 256 == b2,
        (b0 + 256 * b1 + 65536 * b2 + 16777216 * b3) / 16777216 == b3,
        b0 + 256 * b1 + 65536 * b2 + 16777216 * b3 < 0x1_0000_0000,
{
    assert((b0 + 256 * b1 + 65536 * b2 + 16777216 * b3) % 256 == b0) by (nonlinear_arith)
        requires 0 <= b0 < 256, 0 <= b1 < 256, 0 <= b2 < 256, 0 <= b3 < 256;
    assert(((b0 + 256 * b1 + 65536 * b2 + 16777216 * b3) / 256) == b1 + 256 * b2 + 65536 * b3) by (nonlinear_arith)
        requires 0 <= b0 < 256, 0 <= b1 < 256, 0 <= b2 < 256, 0 <= b3 < 256;
    assert((b1 + 256 * b2 + 65536 * b3) % 256 == b1) by (nonlinear_arith)
        requires 0 <= b1 < 256, 0 <= b2 < 256, 0 <= b3 < 256;
    assert(((b0 + 256 * b1 + 65536 * b2 + 16777216 * b3) / 65536) == b2 + 256 * b3) by (nonlinear_arith)
        requires 0 <= b0 < 256, 0 <= b1 < 256, 0 <= b2 < 256, 0 <= b3 < 256;
    assert((b2 + 256 * b3) % 256 == b2) by (nonlinear_arith)
        requires 0 <= b2 < 256, 0 <= b3 < 256;
    assert((b0 + 256 * b1 + 65536 * b2 + 16777216 * b3) / 16777216 == b3) by (nonlinear_arith)
        requires 0 <= b0 < 256, 0 <= b1 < 256, 0 <= b2 < 256, 0 <= b3 < 256;
}

/// The EISA id text inverts the ASL `EisaId` macro: the text of the id that
/// `EisaId(t)` makes of a valid text `t` is `t` again (so `0x030AD041`,
/// which `EisaId("PNP0A03")` makes, reads as `PNP0A03`).
pub proof fn lemma_eisa_id_text_inverts_encoding(t: Seq<char>)
    requires
        eisa_text_valid(t),
    ensures
        0 <= eisa_encode(t) < 0x1_0000_0000,
        eisa_id_text(eisa_encode(t) as u32) == t,
{
    let l0 = t[0] as int - 0x40;
    let l1 = t[1] as int - 0x40;
    let l2 = t[2] as int - 0x40;
    assert('A' <= t[0] <= 'Z' && 'A' <= t[1] <= 'Z' && 'A' <= t[2] <= 'Z');
    assert(1 <= l0 <= 26 && 1 <= l1 <= 26 && 1 <= l2 <= 26);
    let vendor = l0 * 1024 + l1 * 32 + l2;
    let b0 = vendor / 256;
    let b1 = vendor % 256;
    assert(b0 == l0 * 4 + l1 / 8 && b1 == (l1 % 8) * 32 + l2) by (nonlinear_arith)
        requires
            vendor == l0 * 1024 + l1 * 32 + l2,
            b0 == vendor / 256,
            b1 == vendor % 256,
            1 <= l0 <= 26,
            1 <= l1 <= 26,
            1 <= l2 <= 26,
    ;
    assert(3 <= 3 < 7 && 3 <= 4 < 7 && 3 <= 5 < 7 && 3 <= 6 < 7);
    assert('0' <= t[3] <= '9' || 'A' <= t[3] <= 'F');
    assert('0' <= t[4] <= '9' || 'A' <= t[4] <= 'F');
    assert('0' <= t[5] <= '9' || 'A' <= t[5] <= 'F');
    assert('0' <= t[6] <= '9' || 'A' <= t[6] <= 'F');
    lemma_hex_roundtrip(t[3]);
    lemma_hex_roundtrip(t[4]);
    lemma_hex_roundtrip(t[5]);
    lemma_hex_roundtrip(t[6]);
    let h3 = hex_value(t[3]);
    let h4 = hex_value(t[4]);
    let h5 = hex_value(t[5]);
    let h6 = hex_value(t[6]);
    let b2 = h3 * 16 + h4;
    let b3 = h5 * 16 + h6;
    assert(b2 / 16 == h3 && b2 % 16 == h4 && 0 <= b2 < 256) by (nonlinear_arith)
        requires b2 == h3 * 16 + h4, 0 <= h3 < 16, 0 <= h4 < 16;
    assert(b3 / 16 == h5 && b3 % 16 == h6 && 0 <= b3 < 256) by (nonlinear_arith)
        requires b3 == h5 * 16 + h6, 0 <= h5 < 16, 0 <= h6 < 16;
    assert(0 <= b0 < 256 && 0 <= b1 < 256);
    lemma_bytes_of(b0, b1, b2, b3);
    let id = eisa_encode(t);
    assert(id == b0 + 256 * b1 + 65536 * b2 + 16777216 * b3);
    assert((id as u32) as int == id);
    assert(b0 / 4 == l0 && (b0 % 4) * 8 + b1 / 32 == l1 && b1 % 32 == l2);
    let r = eisa_id_text(id as u32);
    assert(r[0] == t[0] && r[1] == t[1] && r[2] == t[2]);
    assert(r[3] == t[3] && r[4] == t[4] && r[5] == t[5] && r[6] == t[6]);
    assert(r =~= t);
}

fn hex_char(n: u32) -> (c: char)
    requires
        n < 16,
    ensures
        c == hex_digit(n as int),
{
    if n < 10 {
        ((0x30 + n) as u8) as char
    } else {
        ((0x41 + n - 10) as u8) as char
    }
}

/// The bytes of `code` in `[from, to)`.
pub fn copy_window(code: &[u8], from: usize, to: usize) -> (r: Vec<u8>)
    requires
        from <= to <= code@.len(),
    ensures
        r@ == code@.subrange(from as int, to as int),
{
    let mut v: Vec<u8> = Vec::new();
    let mut i = from;
    while i < to
        invariant
            from <= i <= to <= code@.len(),
            v@ == code@.subrange(from as int, i as int),
        decreases to - i,
    {
        v.push(code[i]);
        i = i + 1;
        proof {
            assert(v@ =~= code@.subrange(from as int, i as int));
        }
    }
    v
}

/// Whether an operation stores its result into a target that is not null.
pub open spec fn stores_into_target(term: AmlTerm) -> bool {
    match term {
        AmlTerm::Add(_, _, t) | AmlTerm::Concat(_, _, t) | AmlTerm::Subtract(_, _, t)
        | AmlTerm::Multiply(_, _, t) | AmlTerm::Divide(_, _, _, t) | AmlTerm::ShiftLeft(_, _, t)
        | AmlTerm::ShiftRight(_, _, t) | AmlTerm::And(_, _, t) | AmlTerm::Nand(_, _, t)
        | AmlTerm::Or(_, _, t) | AmlTerm::Nor(_, _, t) | AmlTerm::Xor(_, _, t) | AmlTerm::Not(_, t)
        | AmlTerm::ConcatRes(_, _, t) | AmlTerm::Mod(_, _, t) | AmlTerm::Index(_, _, t) => !(*t is Null),
        _ => false,
    }
}

/// Whether a term, met while guessing the arguments of a method call,
/// cannot be an argument: a statement, a declaration, or an operation that
/// stores into a target.
pub open spec fn ends_argument(term: AmlTerm) -> bool {
    ||| term is Store || term is Notify || term is Release || term is Reset || term is Signal || term is Wait
    ||| term is Sleep || term is Stall || term is Acquire || term is CondRefOf || term is Break || term is Return
    ||| term is Noop || term is Else || term is If || term is While || term is Scope || term is Region
    ||| term is Field || term is IndexField || term is Device || term is Processor || term is PowerResource
    ||| term is Method || term is NameObj || term is Alias || term is ToHexString || term is ToBuffer
    ||| term is ToDecimalString || term is ToInteger || term is Mutex || term is Event
    ||| term is CreateDWordField || term is CreateWordField || term is CreateByteField
    ||| term is CreateBitField || term is CreateQWordField
    ||| stores_into_target(term)
}

/// Whether a term, met while guessing the arguments of a method call,
/// cannot be an argument (it is a statement, or an operation that stores
/// into a target).
fn ends_argument_guess(term: &AmlTerm) -> (r: bool)
    ensures
        r == ends_argument(*term),
{
    match term {
        AmlTerm::Store(_, _) | AmlTerm::Notify(_, _) | AmlTerm::Release(_) | AmlTerm::Reset(_)
        | AmlTerm::Signal(_) | AmlTerm::Wait(_, _) | AmlTerm::Sleep(_) | AmlTerm::Stall(_)
        | AmlTerm::Acquire(_, _) | AmlTerm::CondRefOf(_, _) | AmlTerm::Break | AmlTerm::Return(_)
        | AmlTerm::Noop | AmlTerm::Else(_) | AmlTerm::If(_) | AmlTerm::While(_) | AmlTerm::Scope(_)
        | AmlTerm::Region(_) | AmlTerm::Field(_) | AmlTerm::IndexField(_) | AmlTerm::Device(_)
        | AmlTerm::Processor(_) | AmlTerm::PowerResource(_) | AmlTerm::Method(_)
        | AmlTerm::NameObj(_, _) | AmlTerm::Alias(_, _) | AmlTerm::ToHexString(_, _)
        | AmlTerm::ToBuffer(_, _) | AmlTerm::ToDecimalString(_, _) | AmlTerm::ToInteger(_, _)
        | AmlTerm::Mutex(_, _) | AmlTerm::Event(_) | AmlTerm::CreateDWordField(_, _, _)
        | AmlTerm::CreateWordField(_, _, _) | AmlTerm::CreateByteField(_, _, _)
        | AmlTerm::CreateBitField(_, _, _) | AmlTerm::CreateQWordField(_, _, _) => true,
        AmlTerm::Add(_, _, t) | AmlTerm::Concat(_, _, t) | AmlTerm::Subtract(_, _, t)
        | AmlTerm::Multiply(_, _, t) | AmlTerm::Divide(_, _, _, t) | AmlTerm::ShiftLeft(_, _, t)
        | AmlTerm::ShiftRight(_, _, t) | AmlTerm::And(_, _, t) | AmlTerm::Nand(_, _, t)
        | AmlTerm::Or(_, _, t) | AmlTerm::Nor(_, _, t) | AmlTerm::Xor(_, _, t) | AmlTerm::Not(_, t)
        | AmlTerm::ConcatRes(_, _, t) | AmlTerm::Mod(_, _, t) | AmlTerm::Index(_, _, t) => {
            match &**t {
                Target::Null => false,
                _ => true,
            }
        },
        _ => false,
    }
}

/// The name a name argument or a method call carries.
pub open spec fn arg_name(a: TermArg) -> Option<Seq<char>> {
    match a {
        TermArg::Name(x) => Some(x@),
        TermArg::Expression(c) => match *c {
            AmlTerm::MethodCall(x, _) => Some(x@),
            _ => None,
        },
        _ => None,
    }
}

/// The term argument `a` lies from `p` up to `q`: it is of the kind its
/// first byte names; a simple argument is exactly what `simple_arg` reads;
/// a name is the name read at `p`, ending at `q`; a method call starts with
/// the name of the method.
pub open spec fn arg_at(s: Seq<u8>, p: int, e: int, a: TermArg, q: int) -> bool {
    &&& 0 <= p < q <= e
    &&& term_arg_fits(s[p], s[p + 1], a)
    &&& simple_arg(s, p, e) matches Some((x, q2)) ==> a == x && q == q2
    &&& arg_name(a) matches Some(n) ==> (name_at(s, p, e) matches NameScan::Found(m, q2) && m == n && q2 <= q && (a is Name
        ==> q2 == q))
    &&& arg_string(a) matches Some(x) ==> string_at(s, p, q, x)
}

/// The characters of a string constant argument.
pub open spec fn arg_string(a: TermArg) -> Option<Seq<char>> {
    match a {
        TermArg::DataObject(UnresolvedDataObject::String(x)) => Some(x@),
        _ => None,
    }
}

/// A string constant from `p` up to `q`: its prefix byte, its characters
/// (each byte read as a character, none zero) and the zero that ends it.
pub open spec fn string_at(s: Seq<u8>, p: int, q: int, x: Seq<char>) -> bool {
    &&& s[p] == 0x0D
    &&& p + 2 <= q
    &&& s[q - 1] == 0
    &&& forall|j: int| p < j < q - 1 ==> s[j] != 0
    &&& x == Seq::new((q - p - 2) as nat, |j: int| s[p + 1 + j] as char)
}

/// The target `t` lies from `p` up to `q`: a simple target is exactly what
/// `simple_target` reads; a name is the name read at `p`, ending at `q`.
pub open spec fn target_at(s: Seq<u8>, p: int, e: int, t: Target, q: int) -> bool {
    &&& 0 <= p < q <= e
    &&& simple_target(s, p, e) matches Some((x, q2)) ==> t == x && q == q2
    &&& t matches Target::Name(x) ==> (name_at(s, p, e) matches NameScan::Found(m, q2) && m == x@ && q2 == q)
}

/// Two term arguments laid one after the other from `p` up to `q`.
pub open spec fn two_args_at(s: Seq<u8>, p: int, e: int, a: TermArg, b: TermArg, q: int) -> bool {
    exists|q1: int| #[trigger] arg_at(s, p, e, a, q1) && arg_at(s, q1, e, b, q)
}

/// A term argument then a target, from `p` up to `q`.
pub open spec fn arg_target_at(s: Seq<u8>, p: int, e: int, a: TermArg, t: Target, q: int) -> bool {
    exists|q1: int| #[trigger] arg_at(s, p, e, a, q1) && target_at(s, q1, e, t, q)
}

/// Two term arguments then a target, from `p` up to `q`.
pub open spec fn args_target_at(s: Seq<u8>, p: int, e: int, a: TermArg, b: TermArg, t: Target, q: int) -> bool {
    exists|q2: int| #[trigger] two_args_at(s, p, e, a, b, q2) && target_at(s, q2, e, t, q)
}

/// The operands of an operation with two operands and a target.
pub open spec fn binary_operands(x: AmlTerm) -> Option<(TermArg, TermArg, Target)> {
    match x {
        AmlTerm::Add(a, b, t) => Some((a, b, *t)),
        AmlTerm::Concat(a, b, t) => Some((a, b, *t)),
        AmlTerm::Subtract(a, b, t) => Some((a, b, *t)),
        AmlTerm::Multiply(a, b, t) => Some((a, b, *t)),
        AmlTerm::ShiftLeft(a, b, t) => Some((a, b, *t)),
        AmlTerm::ShiftRight(a, b, t) => Some((a, b, *t)),
        AmlTerm::And(a, b, t) => Some((a, b, *t)),
        AmlTerm::Nand(a, b, t) => Some((a, b, *t)),
        AmlTerm::Or(a, b, t) => Some((a, b, *t)),
        AmlTerm::Nor(a, b, t) => Some((a, b, *t)),
        AmlTerm::Xor(a, b, t) => Some((a, b, *t)),
        AmlTerm::ConcatRes(a, b, t) => Some((a, b, *t)),
        AmlTerm::Mod(a, b, t) => Some((a, b, *t)),
        AmlTerm::Index(a, b, t) => Some((a, b, *t)),
        _ => None,
    }
}

/// The operands of an operation with one operand and a target.
pub open spec fn unary_operands(x: AmlTerm) -> Option<(TermArg, Target)> {
    match x {
        AmlTerm::Store(a, t) => Some((a, *t)),
        AmlTerm::Not(a, t) => Some((a, *t)),
        AmlTerm::FindSetLeftBit(a, t) => Some((a, *t)),
        AmlTerm::FindSetRightBit(a, t) => Some((a, *t)),
        AmlTerm::ToBuffer(a, t) => Some((a, *t)),
        AmlTerm::ToDecimalString(a, t) => Some((a, *t)),
        AmlTerm::ToHexString(a, t) => Some((a, *t)),
        AmlTerm::ToInteger(a, t) => Some((a, *t)),
        _ => None,
    }
}

/// The operands of a logical comparison with two operands.
pub open spec fn logical_operands(x: AmlTerm) -> Option<(TermArg, TermArg)> {
    match x {
        AmlTerm::LAnd(a, b) => Some((a, b)),
        AmlTerm::LOr(a, b) => Some((a, b)),
        AmlTerm::LEqual(a, b) => Some((a, b)),
        AmlTerm::LGreater(a, b) => Some((a, b)),
        AmlTerm::LLess(a, b) => Some((a, b)),
        AmlTerm::LNotEqual(a, b) => Some((a, b)),
        AmlTerm::LLessEqual(a, b) => Some((a, b)),
        AmlTerm::LGreaterEqual(a, b) => Some((a, b)),
        _ => None,
    }
}

/// Where the operands of the term `x`, which the opcode `opcode` starts,
/// lie after it (from `p` up to `q`): the operations with operands and a
/// target, the logical comparisons, `LNot` and `Divide` each have their
/// operands in order; a method call starts with its name (the opcode byte
/// is its first).
pub open spec fn term_operands_at(opcode: u8, s: Seq<u8>, p: int, e: int, x: AmlTerm, q: int) -> bool {
    if is_binary_opcode(opcode) {
        binary_operands(x) matches Some((a, b, t)) && args_target_at(s, p, e, a, b, t, q)
    } else if is_unary_opcode(opcode) {
        unary_operands(x) matches Some((a, t)) && arg_target_at(s, p, e, a, t, q)
    } else if is_logical_opcode(opcode) {
        logical_operands(x) matches Some((a, b)) && two_args_at(s, p, e, a, b, q)
    } else if opcode == 0x92 {
        if 0 <= p < e && (s[p] == 0x93 || s[p] == 0x94 || s[p] == 0x95) {
            logical_operands(x) matches Some((a, b)) && two_args_at(s, p + 1, e, a, b, q)
        } else {
            x matches AmlTerm::LNot(a) && arg_at(s, p, e, a, q)
        }
    } else if opcode == 0x78 {
        x matches AmlTerm::Divide(a, b, t, t2) && exists|q1: int|
            #[trigger] args_target_at(s, p, e, a, b, *t, q1) && target_at(s, q1, e, *t2, q)
    } else if !known_opcode(opcode) {
        p > 0 && (name_at(s, p - 1, e) matches NameScan::Found(n, _) && arg_name(TermArg::Expression(Box::new(x))) == Some(n))
            && x is MethodCall
    } else {
        true
    }
}

/// The method recorded under the last segment of `n`, if any.
pub open spec fn recorded_method(st: State, n: Seq<char>) -> bool {
    exists|k: usize| st.has_method(last_segment(n), k)
}

/// What a term argument that is the name `n` (ending at `q`) gives, from
/// the state `st0` to `st1`: a name shorter than a segment is an error; the
/// name of a recorded method is a call of it with as many arguments as
/// recorded; a known name, or any name where calls are not possible, is the
/// name itself, ending at `q`; otherwise the name itself (then recorded as
/// a name) or a call of it, as the look-ahead guesses.
pub open spec fn name_arg_outcome(
    st0: State,
    st1: State,
    n: Seq<char>,
    q: int,
    can_call_method: bool,
    r: Result<TermArg, AmlParseError>,
    fpos: int,
) -> bool {
    &&& n.len() < 4 ==> (r matches Err(AmlParseError::InvalidName))
    &&& r matches Ok(TermArg::Name(x)) ==> x@ == n && fpos == q && !recorded_method(st0, n)
        && (st1.has_name(n) || st1.has_name(last_segment(n)))
    &&& r matches Ok(TermArg::Expression(c)) ==> (*c matches AmlTerm::MethodCall(x, args) && x@ == n && (recorded_method(st0, n)
        ==> st0.has_method(last_segment(n), args@.len() as usize)))
    &&& r matches Ok(t) ==> (t is Name || t is Expression)
    &&& n.len() >= 4 && recorded_method(st0, n) ==> !(r matches Ok(TermArg::Name(_)))
    &&& n.len() >= 4 && !recorded_method(st0, n) && (st0.has_name(n) || st0.has_name(last_segment(n)) || !can_call_method)
        ==> (r matches Ok(TermArg::Name(x)) && x@ == n && fpos == q)
}

/// The kind of term that `opcode` starts; `next` is the byte after the
/// opcode, which selects among the extended (`0x5B`) opcodes and the
/// logical negations (`0x92`). Any other opcode starts a method call.
pub open spec fn opcode_term(opcode: u8, next: u8, t: AmlTerm) -> bool {
    if opcode == 0x06 { t is Alias }
    else if opcode == 0x08 { t is NameObj }
    else if opcode == 0x10 { t is Scope }
    else if opcode == 0x14 { t is Method }
    else if opcode == 0x5B {
        if next == 0x01 { t is Mutex }
        else if next == 0x02 { t is Event }
        else if next == 0x12 { t is CondRefOf }
        else if next == 0x13 { t is CreateFieldOp }
        else if next == 0x21 { t is Stall }
        else if next == 0x22 { t is Sleep }
        else if next == 0x23 { t is Acquire }
        else if next == 0x24 { t is Signal }
        else if next == 0x25 { t is Wait }
        else if next == 0x26 { t is Reset }
        else if next == 0x27 { t is Release }
        else if next == 0x80 { t is Region }
        else if next == 0x81 { t is Field }
        else if next == 0x82 { t is Device }
        else if next == 0x83 { t is Processor }
        else if next == 0x84 { t is PowerResource }
        else if next == 0x86 { t is IndexField }
        else { false }
    }
    else if opcode == 0x70 { t is Store }
    else if opcode == 0x71 { t is RefOf }
    else if opcode == 0x72 { t is Add }
    else if opcode == 0x73 { t is Concat }
    else if opcode == 0x74 { t is Subtract }
    else if opcode == 0x75 { t is Increment }
    else if opcode == 0x76 { t is Decrement }
    else if opcode == 0x77 { t is Multiply }
    else if opcode == 0x78 { t is Divide }
    else if opcode == 0x79 { t is ShiftLeft }
    else if opcode == 0x7A { t is ShiftRight }
    else if opcode == 0x7B { t is And }
    else if opcode == 0x7C { t is Nand }
    else if opcode == 0x7D { t is Or }
    else if opcode == 0x7E { t is Nor }
    else if opcode == 0x7F { t is Xor }
    else if opcode == 0x80 { t is Not }
    else if opcode == 0x81 { t is FindSetLeftBit }
    else if opcode == 0x82 { t is FindSetRightBit }
    else if opcode == 0x83 { t is DerefOf }
    else if opcode == 0x84 { t is ConcatRes }
    else if opcode == 0x85 { t is Mod }
    else if opcode == 0x86 { t is Notify }
    else if opcode == 0x87 { t is SizeOf }
    else if opcode == 0x88 { t is Index }
    else if opcode == 0x8A { t is CreateDWordField }
    else if opcode == 0x8B { t is CreateWordField }
    else if opcode == 0x8C { t is CreateByteField }
    else if opcode == 0x8D { t is CreateBitField }
    else if opcode == 0x8E { t is ObjectType }
    else if opcode == 0x8F { t is CreateQWordField }
    else if opcode == 0x90 { t is LAnd }
    else if opcode == 0x91 { t is LOr }
    else if opcode == 0x92 {
        if next == 0x93 { t is LNotEqual }
        else if next == 0x94 { t is LLessEqual }
        else if next == 0x95 { t is LGreaterEqual }
        else { t is LNot }
    }
    else if opcode == 0x93 { t is LEqual }
    else if opcode == 0x94 { t is LGreater }
    else if opcode == 0x95 { t is LLess }
    else if opcode == 0x96 { t is ToBuffer }
    else if opcode == 0x97 { t is ToDecimalString }
    else if opcode == 0x98 { t is ToHexString }
    else if opcode == 0x99 { t is ToInteger }
    else if opcode == 0x9E { t is Mid }
    else if opcode == 0xA0 { t is If }
    else if opcode == 0xA1 { t is Else }
    else if opcode == 0xA2 { t is While }
    else if opcode == 0xA3 { t is Noop }
    else if opcode == 0xA4 { t is Return }
    else if opcode == 0xA5 { t is Break }
    else { t is MethodCall }
}

/// Whether `next` is one of the extended opcodes that follow `0x5B`.
pub open spec fn known_extended(next: u8) -> bool {
    next == 0x01 || next == 0x02 || next == 0x12 || next == 0x13 || (0x21 <= next <= 0x27)
        || (0x80 <= next <= 0x84) || next == 0x86
}

/// Whether `opcode` starts a term other than a method call.
pub open spec fn known_opcode(opcode: u8) -> bool {
    opcode == 0x06 || opcode == 0x08 || opcode == 0x10 || opcode == 0x14 || opcode == 0x5B
        || (0x70 <= opcode <= 0x88) || (0x8A <= opcode <= 0x99) || opcode == 0x9E || (0xA0
        <= opcode <= 0xA5)
}

/// The byte at `p` is no opcode and starts no name: no term starts there.
pub open spec fn unknown_opcode_at(s: Seq<u8>, p: int, e: int) -> bool {
    0 <= p < e && !known_opcode(s[p]) && name_at(s, p, e) is NotName
}

/// The terms `ts` start at the offsets `starts` of `code`, in order, the
/// first at `start`, all before `end`; each is of the kind its opcode names.
pub open spec fn terms_laid_out(code: Seq<u8>, ts: Seq<AmlTerm>, starts: Seq<int>, start: int, end: int) -> bool {
    &&& starts.len() == ts.len()
    &&& ts.len() > 0 ==> starts[0] == start
    &&& forall|i: int| 0 <= i < starts.len() ==> start <= #[trigger] starts[i] < end
    &&& forall|i: int, j: int| 0 <= i < j < starts.len() ==> #[trigger] starts[i] < #[trigger] starts[j]
    &&& forall|i: int|
        0 <= i < ts.len() ==> opcode_term(code[starts[i]], code[starts[i] + 1], #[trigger] ts[i])
}

/// Whether `lead` starts a data object: an integer constant or prefix, a
/// string, a buffer or a package.
pub open spec fn is_data_lead(lead: u8) -> bool {
    lead == 0 || lead == 1 || lead == 0x0A || lead == 0x0B || lead == 0x0C || lead == 0x0D || lead == 0x0E
        || lead == 0x11 || lead == 0x12 || lead == 0x13 || lead == 0xFF
}

/// What a term argument starting with `lead` (followed by `next`) can be:
/// a data object for a data lead, a local or an argument for their
/// opcodes, and otherwise a name, a method call, or the term its opcode
/// names.
pub open spec fn term_arg_fits(lead: u8, next: u8, t: TermArg) -> bool {
    match t {
        TermArg::DataObject(_) => is_data_lead(lead),
        TermArg::Local(n) => 0x60 <= lead <= 0x67 && n == lead - 0x60,
        TermArg::Arg(n) => 0x68 <= lead <= 0x6E && n == lead - 0x68,
        TermArg::Name(_) => !is_data_lead(lead) && !(0x60 <= lead <= 0x6E),
        TermArg::Expression(e) => !is_data_lead(lead) && !(0x60 <= lead <= 0x6E) && ((*e) is MethodCall
            || opcode_term(lead, next, *e)),
    }
}

/// Whether a term argument is the single byte `b`: the constants zero,
/// one and ones, a local or an argument.
pub open spec fn single_byte_arg(b: u8) -> bool {
    b == 0 || b == 1 || b == 0xFF || (0x60 <= b <= 0x6E)
}

/// The term argument that is the single byte `b`.
pub open spec fn single_byte_arg_value(b: u8) -> TermArg {
    if b == 0 {
        TermArg::DataObject(UnresolvedDataObject::Integer(IntegerData::ConstZero))
    } else if b == 1 {
        TermArg::DataObject(UnresolvedDataObject::Integer(IntegerData::ConstOne))
    } else if b == 0xFF {
        TermArg::DataObject(UnresolvedDataObject::Integer(IntegerData::ConstOnes))
    } else if b <= 0x67 {
        TermArg::Local((b - 0x60) as u8)
    } else {
        TermArg::Arg((b - 0x68) as u8)
    }
}

/// The `n` bytes from `p`, before `e`, are each a single-byte term argument.
pub open spec fn single_byte_args(s: Seq<u8>, p: int, e: int, n: int) -> bool {
    p + n <= e && forall|i: int| 0 <= i < n ==> #[trigger] single_byte_arg(s[p + i])
}

/// A term argument made of one byte or of an integer constant, starting at
/// `p`: the argument and the position after it.
pub open spec fn simple_arg(s: Seq<u8>, p: int, e: int) -> Option<(TermArg, int)> {
    if 0 <= p < e && single_byte_arg(s[p]) {
        Some((single_byte_arg_value(s[p]), p + 1))
    } else if 0 <= p && p + 2 <= e && s[p] == 0x0A {
        Some((TermArg::DataObject(UnresolvedDataObject::Integer(IntegerData::ByteConst(s[p + 1]))), p + 2))
    } else if 0 <= p && p + 3 <= e && s[p] == 0x0B {
        Some((TermArg::DataObject(UnresolvedDataObject::Integer(IntegerData::WordConst(le2(s[p + 1], s[p + 2]) as u16))), p + 3))
    } else if 0 <= p && p + 5 <= e && s[p] == 0x0C {
        Some((
            TermArg::DataObject(
                UnresolvedDataObject::Integer(IntegerData::DWordConst(le4(s[p + 1], s[p + 2], s[p + 3], s[p + 4]) as u32)),
            ),
            p + 5,
        ))
    } else if 0 <= p && p + 9 <= e && s[p] == 0x0E {
        Some((TermArg::DataObject(UnresolvedDataObject::Integer(IntegerData::QWordConst(le8(s.subrange(p + 1, p + 9)) as u64))), p + 9))
    } else {
        None
    }
}

/// A target made of one byte, starting at `p`: none (zero), a local or an
/// argument, and the position after it.
pub open spec fn simple_target(s: Seq<u8>, p: int, e: int) -> Option<(Target, int)> {
    if 0 <= p < e && s[p] == 0 {
        Some((Target::Null, p + 1))
    } else if 0 <= p < e && 0x60 <= s[p] <= 0x67 {
        Some((Target::Local((s[p] - 0x60) as u8), p + 1))
    } else if 0 <= p < e && 0x68 <= s[p] <= 0x6E {
        Some((Target::Arg((s[p] - 0x68) as u8), p + 1))
    } else {
        None
    }
}

/// Two simple arguments from `p`, then the position after them.
pub open spec fn simple_two(s: Seq<u8>, p: int, e: int) -> Option<(TermArg, TermArg, int)> {
    match simple_arg(s, p, e) {
        Some((a, q1)) => match simple_arg(s, q1, e) {
            Some((b, q2)) => Some((a, b, q2)),
            None => None,
        },
        None => None,
    }
}

/// A simple argument and a simple target from `p`, then the position after
/// them.
pub open spec fn simple_unary(s: Seq<u8>, p: int, e: int) -> Option<(TermArg, Target, int)> {
    match simple_arg(s, p, e) {
        Some((a, q1)) => match simple_target(s, q1, e) {
            Some((t, q2)) => Some((a, t, q2)),
            None => None,
        },
        None => None,
    }
}

/// Two simple arguments and a simple target from `p`, then the position
/// after them.
pub open spec fn simple_binary(s: Seq<u8>, p: int, e: int) -> Option<(TermArg, TermArg, Target, int)> {
    match simple_two(s, p, e) {
        Some((a, b, q2)) => match simple_target(s, q2, e) {
            Some((t, q3)) => Some((a, b, t, q3)),
            None => None,
        },
        None => None,
    }
}

/// The opcodes of the operations with two operands and a target.
pub open spec fn is_binary_opcode(op: u8) -> bool {
    op == 0x72 || op == 0x73 || op == 0x74 || op == 0x77 || op == 0x79 || op == 0x7A || op == 0x7B
        || op == 0x7C || op == 0x7D || op == 0x7E || op == 0x7F || op == 0x84 || op == 0x85 || op == 0x88
}

/// The operation with two operands and a target that `op` names.
pub open spec fn binary_term(op: u8, a: TermArg, b: TermArg, t: Target) -> AmlTerm {
    let t = Box::new(t);
    if op == 0x72 { AmlTerm::Add(a, b, t) }
    else if op == 0x73 { AmlTerm::Concat(a, b, t) }
    else if op == 0x74 { AmlTerm::Subtract(a, b, t) }
    else if op == 0x77 { AmlTerm::Multiply(a, b, t) }
    else if op == 0x79 { AmlTerm::ShiftLeft(a, b, t) }
    else if op == 0x7A { AmlTerm::ShiftRight(a, b, t) }
    else if op == 0x7B { AmlTerm::And(a, b, t) }
    else if op == 0x7C { AmlTerm::Nand(a, b, t) }
    else if op == 0x7D { AmlTerm::Or(a, b, t) }
    else if op == 0x7E { AmlTerm::Nor(a, b, t) }
    else if op == 0x7F { AmlTerm::Xor(a, b, t) }
    else if op == 0x84 { AmlTerm::ConcatRes(a, b, t) }
    else if op == 0x85 { AmlTerm::Mod(a, b, t) }
    else { AmlTerm::Index(a, b, t) }
}

/// The opcodes of the operations with one operand and a target.
pub open spec fn is_unary_opcode(op: u8) -> bool {
    op == 0x70 || op == 0x80 || op == 0x81 || op == 0x82 || op == 0x96 || op == 0x97 || op == 0x98 || op == 0x99
}

/// The operation with one operand and a target that `op` names.
pub open spec fn unary_term(op: u8, a: TermArg, t: Target) -> AmlTerm {
    let t = Box::new(t);
    if op == 0x70 { AmlTerm::Store(a, t) }
    else if op == 0x80 { AmlTerm::Not(a, t) }
    else if op == 0x81 { AmlTerm::FindSetLeftBit(a, t) }
    else if op == 0x82 { AmlTerm::FindSetRightBit(a, t) }
    else if op == 0x96 { AmlTerm::ToBuffer(a, t) }
    else if op == 0x97 { AmlTerm::ToDecimalString(a, t) }
    else if op == 0x98 { AmlTerm::ToHexString(a, t) }
    else { AmlTerm::ToInteger(a, t) }
}

/// The operation on one target that `op` names: a reference, increment,
/// decrement, size, object type, or (after the `0x5B` prefix) signal, reset
/// and release.
pub open spec fn target_term(op: u8, t: Target) -> AmlTerm {
    let t = Box::new(t);
    if op == 0x71 { AmlTerm::RefOf(t) }
    else if op == 0x75 { AmlTerm::Increment(t) }
    else if op == 0x76 { AmlTerm::Decrement(t) }
    else if op == 0x87 { AmlTerm::SizeOf(t) }
    else if op == 0x8E { AmlTerm::ObjectType(t) }
    else if op == 0x24 { AmlTerm::Signal(t) }
    else if op == 0x26 { AmlTerm::Reset(t) }
    else { AmlTerm::Release(t) }
}

/// The opcodes of the logical comparisons with two operands (without the
/// `0x92` prefix).
pub open spec fn is_logical_opcode(op: u8) -> bool {
    op == 0x90 || op == 0x91 || op == 0x93 || op == 0x94 || op == 0x95
}

/// The logical comparison that `op` names; `negated` when it follows the
/// `0x92` prefix (not equal, less or equal, greater or equal).
pub open spec fn logical_term(op: u8, negated: bool, a: TermArg, b: TermArg) -> AmlTerm {
    if negated {
        if op == 0x93 { AmlTerm::LNotEqual(a, b) }
        else if op == 0x94 { AmlTerm::LLessEqual(a, b) }
        else { AmlTerm::LGreaterEqual(a, b) }
    } else {
        if op == 0x90 { AmlTerm::LAnd(a, b) }
        else if op == 0x91 { AmlTerm::LOr(a, b) }
        else if op == 0x93 { AmlTerm::LEqual(a, b) }
        else if op == 0x94 { AmlTerm::LGreater(a, b) }
        else { AmlTerm::LLess(a, b) }
    }
}

/// The term that `opcode` starts when what follows it, from `p`, is made of
/// simple arguments and targets: the term with its operands and the
/// position after it. `None` for other opcodes and operands.
pub open spec fn simple_term(opcode: u8, s: Seq<u8>, p: int, e: int) -> Option<(AmlTerm, int)> {
    if opcode == 0xA3 {
        Some((AmlTerm::Noop, p))
    } else if opcode == 0xA5 {
        Some((AmlTerm::Break, p))
    } else if is_binary_opcode(opcode) {
        match simple_binary(s, p, e) {
            Some((a, b, t, q)) => Some((binary_term(opcode, a, b, t), q)),
            None => None,
        }
    } else if is_unary_opcode(opcode) {
        match simple_unary(s, p, e) {
            Some((a, t, q)) => Some((unary_term(opcode, a, t), q)),
            None => None,
        }
    } else if is_logical_opcode(opcode) {
        match simple_two(s, p, e) {
            Some((a, b, q)) => Some((logical_term(opcode, false, a, b), q)),
            None => None,
        }
    } else if opcode == 0x71 || opcode == 0x75 || opcode == 0x76 || opcode == 0x87 || opcode == 0x8E {
        match simple_target(s, p, e) {
            Some((t, q)) => Some((target_term(opcode, t), q)),
            None => None,
        }
    } else if opcode == 0x83 || opcode == 0xA4 {
        match simple_arg(s, p, e) {
            Some((a, q)) => Some((if opcode == 0x83 { AmlTerm::DerefOf(a) } else { AmlTerm::Return(a) }, q)),
            None => None,
        }
    } else if opcode == 0x86 {
        match simple_target(s, p, e) {
            Some((t, q1)) => match simple_arg(s, q1, e) {
                Some((a, q2)) => Some((AmlTerm::Notify(Box::new(t), a), q2)),
                None => None,
            },
            None => None,
        }
    } else if opcode == 0x78 {
        match simple_binary(s, p, e) {
            Some((a, b, t, q1)) => match simple_target(s, q1, e) {
                Some((t2, q2)) => Some((AmlTerm::Divide(a, b, Box::new(t), Box::new(t2)), q2)),
                None => None,
            },
            None => None,
        }
    } else if opcode == 0x5B {
        if 0 <= p < e && (s[p] == 0x21 || s[p] == 0x22) {
            match simple_arg(s, p + 1, e) {
                Some((a, q)) => Some((if s[p] == 0x21 { AmlTerm::Stall(a) } else { AmlTerm::Sleep(a) }, q)),
                None => None,
            }
        } else if 0 <= p < e && (s[p] == 0x24 || s[p] == 0x26 || s[p] == 0x27) {
            match simple_target(s, p + 1, e) {
                Some((t, q)) => Some((target_term(s[p], t), q)),
                None => None,
            }
        } else if 0 <= p < e && s[p] == 0x25 {
            match simple_target(s, p + 1, e) {
                Some((t, q1)) => match simple_arg(s, q1, e) {
                    Some((a, q2)) => Some((AmlTerm::Wait(Box::new(t), a), q2)),
                    None => None,
                },
                None => None,
            }
        } else {
            None
        }
    } else if opcode == 0x92 {
        if 0 <= p < e && (s[p] == 0x93 || s[p] == 0x94 || s[p] == 0x95) {
            match simple_two(s, p + 1, e) {
                Some((a, b, q)) => Some((logical_term(s[p], true, a, b), q)),
                None => None,
            }
        } else {
            match simple_arg(s, p, e) {
                Some((a, q)) => Some((AmlTerm::LNot(a), q)),
                None => None,
            }
        }
    } else {
        None
    }
}

/// The terms from `p` to `e` when they are all simple terms laid end to end.
pub open spec fn simple_terms(s: Seq<u8>, p: int, e: int) -> Option<Seq<AmlTerm>>
    decreases e - p,
{
    if p >= e || p < 0 {
        Some(Seq::empty())
    } else {
        match simple_term(s[p], s, p + 1, e) {
            Some((t, q)) => if p < q <= e {
                match simple_terms(s, q, e) {
                    Some(rest) => Some(seq![t] + rest),
                    None => None,
                }
            } else {
                None
            },
            None => None,
        }
    }
}

/// Simple terms declare nothing.
pub proof fn lemma_simple_terms_declare_nothing(s: Seq<u8>, p: int, e: int)
    requires
        simple_terms(s, p, e) is Some,
    ensures
        forall|i: int| 0 <= i < simple_terms(s, p, e)->0.len() ==> crate::acpi::aml::structured::declares_nothing(
            #[trigger] simple_terms(s, p, e)->0[i],
        ),
    decreases e - p,
{
    if p < e && p >= 0 {
        let (t, q) = simple_term(s[p], s, p + 1, e)->0;
        lemma_simple_terms_declare_nothing(s, q, e);
        let rest = simple_terms(s, q, e)->0;
        assert(simple_terms(s, p, e)->0 == seq![t] + rest);
        assert(crate::acpi::aml::structured::declares_nothing(t));
        assert forall|i: int| 0 <= i < simple_terms(s, p, e)->0.len() implies crate::acpi::aml::structured::declares_nothing(
            #[trigger] simple_terms(s, p, e)->0[i],
        ) by {
            if i > 0 {
                assert(simple_terms(s, p, e)->0[i] == rest[i - 1]);
            }
        }
    }
}

/// Every byte from `p` to `e` is a Noop or a Break opcode.
pub open spec fn control_bytes(s: Seq<u8>, p: int, e: int) -> bool {
    forall|i: int| p <= i < e ==> (#[trigger] s[i] == 0xA3 || s[i] == 0xA5)
}

/// The term of a Noop or Break opcode.
pub open spec fn control_term(b: u8, t: AmlTerm) -> bool {
    if b == 0xA3 {
        t is Noop
    } else {
        t is Break
    }
}

/// The terms are those of the Noop and Break opcodes from `p` on, one each.
pub open spec fn control_terms(s: Seq<u8>, p: int, v: Seq<AmlTerm>) -> bool {
    forall|i: int| 0 <= i < v.len() ==> control_term(s[p + i], #[trigger] v[i])
}

/// Parses a whole AML code block.
pub fn parse_aml(code: &[u8]) -> (r: Result<AmlCode, AmlParseError>)
    ensures
        r matches Ok(c) ==> exists|starts: Seq<int>|
            #[trigger] terms_laid_out(code@, c.term_list@, starts, 0, code@.len() as int),
        control_bytes(code@, 0, code@.len() as int) ==> (r matches Ok(c) && c.term_list@.len() == code@.len()
            && control_terms(code@, 0, c.term_list@)),
        simple_terms(code@, 0, code@.len() as int) matches Some(ts) ==> (r matches Ok(c) && c.term_list@ == ts),
        unknown_opcode_at(code@, 0, code@.len() as int) ==> r == Err::<AmlCode, AmlParseError>(
            AmlParseError::UnknownOpcode(code@[0]),
        ),
{
    let mut state = State::new();
    let mut parser = Parser::new(code);
    parser.parse_root(&mut state)
}

impl<'a> Parser<'a> {
    pub fn get_next_u16(&mut self) -> (r: Result<u16, AmlParseError>)
        requires
            old(self).wf(),
        ensures
            final(self).wf(),
            advanced(*old(self), *final(self)),
            old(self).pos + 2 <= old(self).end ==> (r matches Ok(v) && v == le2(
                old(self).code@[old(self).pos as int],
                old(self).code@[old(self).pos + 1],
            ) && final(self).pos == old(self).pos + 2),
            old(self).pos + 2 > old(self).end ==> (r matches Err(AmlParseError::UnexpectedEndOfCode)),
    {
        let b0 = self.get_next_byte()?;
        let b1 = self.get_next_byte()?;
        Ok(crate::bytes::u16_from_le(b0, b1))
    }

    pub fn get_next_u32(&mut self) -> (r: Result<u32, AmlParseError>)
        requires
            old(self).wf(),
        ensures
            final(self).wf(),
            advanced(*old(self), *final(self)),
            old(self).pos + 4 <= old(self).end ==> (r matches Ok(v) && v == le4(
                old(self).code@[old(self).pos as int],
                old(self).code@[old(self).pos + 1],
                old(self).code@[old(self).pos + 2],
                old(self).code@[old(self).pos + 3],
            ) && final(self).pos == old(self).pos + 4),
            old(self).pos + 4 > old(self).end ==> (r matches Err(AmlParseError::UnexpectedEndOfCode)),
    {
        let b0 = self.get_next_byte()?;
        let b1 = self.get_next_byte()?;
        let b2 = self.get_next_byte()?;
        let b3 = self.get_next_byte()?;
        Ok(crate::bytes::u32_from_le(b0, b1, b2, b3))
    }

    pub fn get_next_u64(&mut self) -> (r: Result<u64, AmlParseError>)
        requires
            old(self).wf(),
        ensures
            final(self).wf(),
            advanced(*old(self), *final(self)),
            old(self).pos + 8 <= old(self).end ==> (r matches Ok(v) && v == le8(
                old(self).code@.subrange(old(self).pos as int, old(self).pos + 8),
            ) && final(self).pos == old(self).pos + 8),
            old(self).pos + 8 > old(self).end ==> (r matches Err(AmlParseError::UnexpectedEndOfCode)),
    {
        let ghost s = self.code@;
        let ghost p = self.pos as int;
        let b0 = self.get_next_byte()?;
        let b1 = self.get_next_byte()?;
        let b2 = self.get_next_byte()?;
        let b3 = self.get_next_byte()?;
        let b4 = self.get_next_byte()?;
        let b5 = self.get_next_byte()?;
        let b6 = self.get_next_byte()?;
        let b7 = self.get_next_byte()?;
        let arr = [b0, b1, b2, b3, b4, b5, b6, b7];
        proof {
            assert(arr@ =~= s.subrange(p, p + 8));
        }
        Ok(crate::bytes::u64_from_le(arr))
    }

    /// The EISA id text of a 32-bit id.
    pub fn parse_eisa_id(id: u32) -> (r: String)
        ensures
            r@ == eisa_id_text(id),
    {
        let byte2 = (id >> 16u32) & 0xFF;
        let byte3 = (id >> 24u32) & 0xFF;
        let m0 = id & 0xFF;
        let m1 = (id >> 8u32) & 0xFF;
        proof {
            crate::bits::lemma_u32(id);
        }
        assert(byte2 == (id as int / 65536) % 256);
        proof {
            crate::bits::lemma_u32(id);
        }
        assert(byte3 == id as int / 16777216);
        proof {
            crate::bits::lemma_u32(id);
        }
        assert(m0 == id as int % 256);
        proof {
            crate::bits::lemma_u32(id);
        }
        assert(m1 == (id as int / 256) % 256);
        let c0 = m0 >> 2u32;
        let c1 = ((m0 & 0x03) << 3u32) | (m1 >> 5u32);
        let c2 = m1 & 0x1F;
        proof {
            crate::bits::lemma_eisa_letters(m0, m1);
        }
        assert(c0 == m0 / 4);
        proof {
            crate::bits::lemma_eisa_letters(m0, m1);
        }
        assert(c1 == (m0 % 4) * 8 + m1 / 32);
        proof {
            crate::bits::lemma_eisa_letters(m0, m1);
        }
        assert(c2 == m1 % 32);
        let mut s = String::new();
        push_char(&mut s, ((c0 + 0x40) as u8) as char);
        push_char(&mut s, ((c1 + 0x40) as u8) as char);
        push_char(&mut s, ((c2 + 0x40) as u8) as char);
        push_char(&mut s, hex_char(byte2 / 16));
        push_char(&mut s, hex_char(byte2 % 16));
        push_char(&mut s, hex_char(byte3 / 16));
        push_char(&mut s, hex_char(byte3 % 16));
        assert(s@ =~= eisa_id_text(id));
        s
    }

    /// Reads a data object if one starts here; nothing is consumed when none does.
    pub fn try_parse_data_object(&mut self, state: &mut State) -> (r: Result<Option<UnresolvedDataObject>, AmlParseError>)
        requires
            old(self).wf(),
            old(state).wf(),
        ensures
            final(self).wf(),
            final(state).wf(),
            advanced(*old(self), *final(self)),
            r matches Ok(Some(_)) ==> final(self).pos > old(self).pos,
            r matches Ok(None) ==> final(self).pos == old(self).pos,
            r matches Ok(None) ==> old(self).pos < old(self).end && !is_data_lead(old(self).code@[old(self).pos as int]),
            !(old(self).pos < old(self).end && (old(self).code@[old(self).pos as int] == 0x11
                || old(self).code@[old(self).pos as int] == 0x12 || old(self).code@[old(self).pos as int] == 0x13))
                ==> *final(state) == *old(state),
            r matches Ok(Some(_)) ==> is_data_lead(old(self).code@[old(self).pos as int]),
            ({
                let s = old(self).code@;
                let p = old(self).pos as int;
                let e = old(self).end as int;
                let lead = s[p];
                &&& p >= e ==> (r matches Err(AmlParseError::UnexpectedEndOfCode))
                &&& p < e && lead == 0 ==> (r matches Ok(Some(UnresolvedDataObject::Integer(IntegerData::ConstZero)))
                    && final(self).pos == p + 1)
                &&& p < e && lead == 1 ==> (r matches Ok(Some(UnresolvedDataObject::Integer(IntegerData::ConstOne)))
                    && final(self).pos == p + 1)
                &&& p < e && lead == 0xFF ==> (r matches Ok(Some(UnresolvedDataObject::Integer(IntegerData::ConstOnes)))
                    && final(self).pos == p + 1)
                &&& p < e && lead == 0x0A && p + 2 <= e ==> (r matches Ok(Some(UnresolvedDataObject::Integer(IntegerData::ByteConst(v))))
                    && v == s[p + 1] && final(self).pos == p + 2)
                &&& p < e && lead == 0x0B && p + 3 <= e ==> (r matches Ok(Some(UnresolvedDataObject::Integer(IntegerData::WordConst(v))))
                    && v == le2(s[p + 1], s[p + 2]) && final(self).pos == p + 3)
                &&& p < e && lead == 0x0C && p + 5 <= e ==> (r matches Ok(Some(UnresolvedDataObject::Integer(IntegerData::DWordConst(v))))
                    && v == le4(s[p + 1], s[p + 2], s[p + 3], s[p + 4]) && final(self).pos == p + 5)
                &&& p < e && lead == 0x0E && p + 9 <= e ==> (r matches Ok(Some(UnresolvedDataObject::Integer(IntegerData::QWordConst(v))))
                    && v == le8(s.subrange(p + 1, p + 9)) && final(self).pos == p + 9)
                &&& p < e && lead == 0x0D ==> (r is Ok <==> exists|z: int| p < z < e && s[z] == 0)
                &&& p < e && lead == 0x0D ==> (r matches Ok(Some(UnresolvedDataObject::String(x)))
                    || r is Err)
                &&& (r matches Ok(Some(UnresolvedDataObject::String(x))) ==> lead == 0x0D && {
                    let z = final(self).pos - 1;
                    &&& p < z < e
                    &&& s[z] == 0
                    &&& forall|j: int| p < j < z ==> s[j] != 0
                    &&& x@ == Seq::new((z - p - 1) as nat, |j: int| s[p + 1 + j] as char)
                })
                &&& p < e && lead == 0x11 ==> (r matches Ok(Some(UnresolvedDataObject::Buffer(_))) || r is Err)
                &&& p < e && lead == 0x12 ==> (r matches Ok(Some(UnresolvedDataObject::Package(_, _))) || r is Err)
                &&& p < e && lead == 0x13 ==> (r matches Ok(Some(UnresolvedDataObject::VarPackage(_, _))) || r is Err)
                &&& p < e && !(lead == 0 || lead == 1 || lead == 0x0A || lead == 0x0B || lead == 0x0C
                    || lead == 0x0D || lead == 0x0E || lead == 0x11 || lead == 0x12 || lead == 0x13
                    || lead == 0xFF) ==> r == Ok::<Option<UnresolvedDataObject>, AmlParseError>(None)
            }),
        decreases old(self).end - old(self).pos, 0int,
    {
        let ghost s = self.code@;
        let ghost p = self.pos as int;
        let ghost e = self.end as int;
        let lead_byte = self.get_next_byte()?;
        if lead_byte == 0 {
            return Ok(Some(UnresolvedDataObject::Integer(IntegerData::ConstZero)));
        } else if lead_byte == 1 {
            return Ok(Some(UnresolvedDataObject::Integer(IntegerData::ConstOne)));
        } else if lead_byte == 0x0A {
            let data = self.get_next_byte()?;
            return Ok(Some(UnresolvedDataObject::Integer(IntegerData::ByteConst(data))));
        } else if lead_byte == 0x0B {
            let data = self.get_next_u16()?;
            return Ok(Some(UnresolvedDataObject::Integer(IntegerData::WordConst(data))));
        } else if lead_byte == 0x0C {
            let data = self.get_next_u32()?;
            return Ok(Some(UnresolvedDataObject::Integer(IntegerData::DWordConst(data))));
        } else if lead_byte == 0x0D {
            let mut str = String::new();
            loop
                invariant_except_break
                    p + 1 <= self.pos <= e,
                    forall|j: int| p < j < self.pos ==> s[j] != 0,
                    str@ == Seq::new((self.pos - p - 1) as nat, |j: int| s[p + 1 + j] as char),
                invariant
                    self.wf(),
                    state.wf(),
                    self.code@ == s,
                    self.end == e,
                    old(self).code@ == s,
                    old(self).pos == p,
                    old(self).end == e,
                    p < e,
                    s[p] == 0x0D,
                ensures
                    p + 2 <= self.pos <= e,
                    s[self.pos - 1] == 0,
                    forall|j: int| p < j < self.pos - 1 ==> s[j] != 0,
                    str@ == Seq::new((self.pos - p - 2) as nat, |j: int| s[p + 1 + j] as char),
                decreases e - self.pos,
            {
                let byte = self.get_next_byte()?;
                if byte == 0 {
                    break;
                }
                push_char(&mut str, byte as char);
                proof {
                    assert(str@ =~= Seq::new((self.pos - p - 1) as nat, |j: int| s[p + 1 + j] as char));
                }
            }
            return Ok(Some(UnresolvedDataObject::String(str)));
        } else if lead_byte == 0x0E {
            let data = self.get_next_u64()?;
            return Ok(Some(UnresolvedDataObject::Integer(IntegerData::QWordConst(data))));
        } else if lead_byte == 0x11 {
            let mut inner = self.get_inner_parser()?;
            let buf_size = inner.parse_term_arg(state)?;
            // the rest of the package is the buffer contents
            let data = copy_window(inner.code, inner.pos, inner.end);
            return Ok(Some(UnresolvedDataObject::Buffer(Buffer { size: Box::new(buf_size), data })));
        } else if lead_byte == 0x12 {
            let mut inner = self.get_inner_parser()?;
            let package_size = inner.get_next_byte()?;
            let mut package_elements = Vec::new();
            while inner.pos < inner.end
                invariant
                    inner.wf(),
                    inner.rem() < old(self).end - old(self).pos,
                    state.wf(),
                    self.wf(),
                    advanced(*old(self), *self),
                    self.pos > old(self).pos,
                    old(self).pos < old(self).end,
                    old(self).code@[old(self).pos as int] == 0x12,
                decreases inner.end - inner.pos,
            {
                let element = inner.parse_package_element(state)?;
                package_elements.push(element);
            }
            inner.check_empty()?;
            return Ok(Some(UnresolvedDataObject::Package(package_size, package_elements)));
        } else if lead_byte == 0x13 {
            let mut inner = self.get_inner_parser()?;
            let package_size = inner.parse_term_arg(state)?;
            let mut package_elements = Vec::new();
            while inner.pos < inner.end
                invariant
                    inner.wf(),
                    inner.rem() < old(self).end - old(self).pos,
                    state.wf(),
                    self.wf(),
                    advanced(*old(self), *self),
                    self.pos > old(self).pos,
                    old(self).pos < old(self).end,
                    old(self).code@[old(self).pos as int] == 0x13,
                decreases inner.end - inner.pos,
            {
                let element = inner.parse_package_element(state)?;
                package_elements.push(element);
            }
            inner.check_empty()?;
            return Ok(Some(UnresolvedDataObject::VarPackage(Box::new(package_size), package_elements)));
        } else if lead_byte == 0xFF {
            return Ok(Some(UnresolvedDataObject::Integer(IntegerData::ConstOnes)));
        }
        self.backward(1)?;
        Ok(None)
    }

    /// A package element: a data object or a name.
    pub fn parse_package_element(&mut self, state: &mut State) -> (r: Result<PackageElement<UnresolvedDataObject>, AmlParseError>)
        requires
            old(self).wf(),
            old(state).wf(),
        ensures
            final(self).wf(),
            final(state).wf(),
            advanced(*old(self), *final(self)),
            r is Ok ==> final(self).pos > old(self).pos,
            ({
                let s = old(self).code@;
                let p = old(self).pos as int;
                let e = old(self).end as int;
                &&& p >= e ==> (r matches Err(AmlParseError::UnexpectedEndOfCode))
                &&& (r matches Ok(PackageElement::DataObject(_)) ==> p < e && is_data_lead(s[p]))
                &&& (r matches Ok(PackageElement::Name(_)) ==> p < e && !is_data_lead(s[p]))
                &&& p < e && (s[p] == 0 || s[p] == 1 || s[p] == 0xFF) ==> (r matches Ok(PackageElement::DataObject(d))
                    && TermArg::DataObject(d) == single_byte_arg_value(s[p]) && final(self).pos == p + 1)
                &&& p < e && !is_data_lead(s[p]) ==> match name_at(s, p, e) {
                    NameScan::Found(n, q) => (r matches Ok(PackageElement::Name(x)) && x@ == n && final(self).pos == q),
                    NameScan::NotName => (r matches Err(AmlParseError::InvalidTermArgInPackage)),
                    NameScan::Failed => r is Err,
                }
            }),
        decreases old(self).end - old(self).pos, 1int,
    {
        if let Some(data_object) = self.try_parse_data_object(state)? {
            return Ok(PackageElement::DataObject(data_object));
        }
        proof {
            lemma_name_advances(self.code@, self.pos as int, self.end as int);
        }
        if let Some(name) = self.try_parse_name()? {
            return Ok(PackageElement::Name(name));
        }
        Err(AmlParseError::InvalidTermArgInPackage)
    }
}


impl<'a> Parser<'a> {
    /// A term argument where method calls are possible.
    pub fn parse_term_arg(&mut self, state: &mut State) -> (r: Result<TermArg, AmlParseError>)
        requires
            old(self).wf(),
            old(state).wf(),
        ensures
            final(self).wf(),
            final(state).wf(),
            advanced(*old(self), *final(self)),
            r is Ok ==> final(self).pos > old(self).pos,
            r matches Ok(t) ==> term_arg_fits(
                old(self).code@[old(self).pos as int],
                old(self).code@[old(self).pos + 1],
                t,
            ),
            old(self).pos >= old(self).end ==> (r matches Err(AmlParseError::UnexpectedEndOfCode)),
            old(self).pos < old(self).end && single_byte_arg(old(self).code@[old(self).pos as int]) ==> r
                == Ok::<TermArg, AmlParseError>(single_byte_arg_value(old(self).code@[old(self).pos as int]))
                && final(self).pos == old(self).pos + 1,
            simple_arg(old(self).code@, old(self).pos as int, old(self).end as int) matches Some((a, q)) ==> r
                == Ok::<TermArg, AmlParseError>(a) && final(self).pos == q && *final(state) == *old(state),
            r matches Ok(a) ==> arg_at(old(self).code@, old(self).pos as int, old(self).end as int, a, final(self).pos as int),
        decreases old(self).end - old(self).pos, 3int,
    {
        self.parse_term_arg_general(state, true, true)
    }

    /// A term argument that is the last thing in its statement.
    pub fn parse_term_arg_last(&mut self, state: &mut State) -> (r: Result<TermArg, AmlParseError>)
        requires
            old(self).wf(),
            old(state).wf(),
        ensures
            final(self).wf(),
            final(state).wf(),
            advanced(*old(self), *final(self)),
            r is Ok ==> final(self).pos > old(self).pos,
            r matches Ok(t) ==> term_arg_fits(
                old(self).code@[old(self).pos as int],
                old(self).code@[old(self).pos + 1],
                t,
            ),
            old(self).pos >= old(self).end ==> (r matches Err(AmlParseError::UnexpectedEndOfCode)),
            old(self).pos < old(self).end && single_byte_arg(old(self).code@[old(self).pos as int]) ==> r
                == Ok::<TermArg, AmlParseError>(single_byte_arg_value(old(self).code@[old(self).pos as int]))
                && final(self).pos == old(self).pos + 1,
            simple_arg(old(self).code@, old(self).pos as int, old(self).end as int) matches Some((a, q)) ==> r
                == Ok::<TermArg, AmlParseError>(a) && final(self).pos == q && *final(state) == *old(state),
            r matches Ok(a) ==> arg_at(old(self).code@, old(self).pos as int, old(self).end as int, a, final(self).pos as int),
        decreases old(self).end - old(self).pos, 3int,
    {
        self.parse_term_arg_general(state, true, false)
    }

    /// A term argument where an unknown name is taken as a name, never as
    /// a method call.
    pub fn parse_term_arg_non_method_arg(&mut self, state: &mut State) -> (r: Result<TermArg, AmlParseError>)
        requires
            old(self).wf(),
            old(state).wf(),
        ensures
            final(self).wf(),
            final(state).wf(),
            advanced(*old(self), *final(self)),
            r is Ok ==> final(self).pos > old(self).pos,
            r matches Ok(t) ==> term_arg_fits(
                old(self).code@[old(self).pos as int],
                old(self).code@[old(self).pos + 1],
                t,
            ),
            old(self).pos >= old(self).end ==> (r matches Err(AmlParseError::UnexpectedEndOfCode)),
            old(self).pos < old(self).end && single_byte_arg(old(self).code@[old(self).pos as int]) ==> r
                == Ok::<TermArg, AmlParseError>(single_byte_arg_value(old(self).code@[old(self).pos as int]))
                && final(self).pos == old(self).pos + 1,
            simple_arg(old(self).code@, old(self).pos as int, old(self).end as int) matches Some((a, q)) ==> r
                == Ok::<TermArg, AmlParseError>(a) && final(self).pos == q && *final(state) == *old(state),
            r matches Ok(a) ==> arg_at(old(self).code@, old(self).pos as int, old(self).end as int, a, final(self).pos as int),
        decreases old(self).end - old(self).pos, 3int,
    {
        self.parse_term_arg_general(state, false, true)
    }

    /// Reads `n_args` term arguments.
    fn parse_args(&mut self, state: &mut State, n_args: usize, Ghost(bound): Ghost<int>) -> (r: Result<Vec<TermArg>, AmlParseError>)
        requires
            old(self).wf(),
            old(state).wf(),
            old(self).end - old(self).pos < bound,
        ensures
            final(self).wf(),
            final(state).wf(),
            advanced(*old(self), *final(self)),
            r matches Ok(v) ==> v@.len() == n_args,
            n_args == 0 ==> (r matches Ok(v) && final(self).pos == old(self).pos),
            single_byte_args(old(self).code@, old(self).pos as int, old(self).end as int, n_args as int) ==> (r matches Ok(v)
                && final(self).pos == old(self).pos + n_args && forall|i: int|
                0 <= i < n_args ==> #[trigger] v@[i] == single_byte_arg_value(old(self).code@[old(self).pos + i])),
        decreases bound, 1int,
    {
        let ghost s = self.code@;
        let ghost p = self.pos as int;
        let ghost simple = single_byte_args(s, p, self.end as int, n_args as int);
        let mut args = Vec::new();
        let mut i: usize = 0;
        while i < n_args
            invariant
                self.wf(),
                state.wf(),
                advanced(*old(self), *self),
                old(self).end - old(self).pos < bound,
                i <= n_args,
                args@.len() == i,
                s == old(self).code@,
                p == old(self).pos,
                simple == single_byte_args(s, p, old(self).end as int, n_args as int),
                simple ==> self.pos == p + i && forall|k: int|
                    0 <= k < i ==> #[trigger] args@[k] == single_byte_arg_value(s[p + k]),
            decreases n_args - i,
        {
            proof {
                if simple {
                    assert(single_byte_arg(s[p + i]));
                }
            }
            let arg = self.parse_term_arg(state)?;
            args.push(arg);
            i = i + 1;
        }
        Ok(args)
    }

    pub fn parse_term_arg_general(&mut self, state: &mut State, can_call_method: bool, expect_data_after: bool) -> (r: Result<TermArg, AmlParseError>)
        requires
            old(self).wf(),
            old(state).wf(),
        ensures
            final(self).wf(),
            final(state).wf(),
            advanced(*old(self), *final(self)),
            r is Ok ==> final(self).pos > old(self).pos,
            r matches Ok(t) ==> term_arg_fits(
                old(self).code@[old(self).pos as int],
                old(self).code@[old(self).pos + 1],
                t,
            ),
            old(self).pos < old(self).end && 0x60 <= old(self).code@[old(self).pos as int] <= 0x67 ==> r is Ok,
            old(self).pos < old(self).end && 0x68 <= old(self).code@[old(self).pos as int] <= 0x6E ==> r is Ok,
            old(self).pos >= old(self).end ==> (r matches Err(AmlParseError::UnexpectedEndOfCode)),
            old(self).pos < old(self).end && single_byte_arg(old(self).code@[old(self).pos as int]) ==> r
                == Ok::<TermArg, AmlParseError>(single_byte_arg_value(old(self).code@[old(self).pos as int]))
                && final(self).pos == old(self).pos + 1,
            simple_arg(old(self).code@, old(self).pos as int, old(self).end as int) matches Some((a, q)) ==> r
                == Ok::<TermArg, AmlParseError>(a) && final(self).pos == q && *final(state) == *old(state),
            r matches Ok(a) ==> arg_at(old(self).code@, old(self).pos as int, old(self).end as int, a, final(self).pos as int),
            ({
                let s = old(self).code@;
                let p = old(self).pos as int;
                let e = old(self).end as int;
                p < e && !is_data_lead(s[p]) && !(0x60 <= s[p] <= 0x6E) ==> match name_at(s, p, e) {
                    NameScan::Found(n, q) => name_arg_outcome(*old(state), *final(state), n, q, can_call_method, r,
                        final(self).pos as int),
                    _ => true,
                }
            }),
        decreases old(self).end - old(self).pos, 2int,
    {
        let ghost entry = self.end - self.pos;
        let ghost s = self.code@;
        let ghost p = self.pos as int;
        if let Some(data_object) = self.try_parse_data_object(state)? {
            return Ok(TermArg::DataObject(data_object));
        }
        let lead_byte = self.get_next_byte()?;
        assert(lead_byte == s[p] && !is_data_lead(lead_byte));
        if let Some(local) = self.try_parse_local(lead_byte)? {
            return Ok(TermArg::Local(local));
        }
        if let Some(arg) = self.try_parse_arg(lead_byte)? {
            return Ok(TermArg::Arg(arg));
        }
        self.backward(1)?;
        proof {
            lemma_name_advances(self.code@, self.pos as int, self.end as int);
        }
        if let Some(name) = self.try_parse_name()? {
            if crate::text::char_len(name.as_str()) < 4 {
                return Err(AmlParseError::InvalidName);
            }
            let option_nargs = match state.find_method(name.as_str()) {
                Some(n) => Some(n),
                None => {
                    if state.find_name(name.as_str()) {
                        None
                    } else if can_call_method {
                        let possible_args = self.predict_possible_args(state, expect_data_after, name.as_str());
                        if possible_args == 0 {
                            state.add_name(crate::text::copy_string(&name));
                            None
                        } else {
                            Some(possible_args)
                        }
                    } else {
                        state.add_name(crate::text::copy_string(&name));
                        None
                    }
                },
            };
            match option_nargs {
                Some(n_args) => {
                    let args = self.parse_args(state, n_args, Ghost(entry))?;
                    Ok(TermArg::Expression(Box::new(AmlTerm::MethodCall(name, args))))
                },
                None => Ok(TermArg::Name(name)),
            }
        } else {
            self.forward(1)?;
            match self.try_parse_term(state, lead_byte)? {
                Some(term) => Ok(TermArg::Expression(Box::new(term))),
                None => Err(AmlParseError::UnknownOpcode(lead_byte)),
            }
        }
    }

    /// Guesses how many arguments follow a call of the method `name` at
    /// this position, by parsing ahead (at most seven term arguments) on a
    /// copy of this parser.
    pub fn predict_possible_args(&self, state: &mut State, expect_data_after: bool, name: &str) -> (r: usize)
        requires
            self.wf(),
            old(state).wf(),
        ensures
            final(state).wf(),
            r <= 7,
            ({
                let s = self.code@;
                let p = self.pos as int;
                let e = self.end as int;
                &&& single_byte_args(s, p, e, 7) ==> r == 7
                &&& e - p < 7 && single_byte_args(s, p, e, e - p) ==> r == (if e > p && expect_data_after {
                    e - p - 1
                } else {
                    e - p
                })
            }),
        decreases self.end - self.pos, 4int,
    {
        let ghost s = self.code@;
        let ghost p = self.pos as int;
        let ghost e = self.end as int;
        let ghost k: int = if e - p >= 7 { 7 } else { e - p };
        let ghost simple = single_byte_args(s, p, e, k);
        let mut inner = self.clone_parser();
        let mut n_args: usize = 0;
        while n_args < 7
            invariant
                inner.wf(),
                inner.code@ == s,
                inner.end == self.end,
                self.pos <= inner.pos,
                state.wf(),
                n_args <= 7,
                s == self.code@,
                p == self.pos,
                e == self.end,
                k == (if e - p >= 7 { 7 } else { e - p }),
                simple == single_byte_args(s, p, e, k),
                simple ==> inner.pos == p + n_args && n_args <= k,
            ensures
                simple ==> k == 7 && n_args == 7,
            decreases 7 - n_args,
        {
            proof {
                if simple && n_args < k {
                    assert(single_byte_arg(s[p + n_args]));
                }
            }
            match inner.parse_term_arg(state) {
                Ok(TermArg::Name(var_name)) => {
                    // the same name used inside its own arguments: a plain name, not a call
                    if crate::text::str_eq(name, var_name.as_str()) {
                        return 0;
                    }
                },
                Ok(TermArg::Expression(term)) => {
                    if ends_argument_guess(&term) {
                        break;
                    }
                },
                Err(AmlParseError::UnexpectedEndOfCode) => {
                    // give back what belongs to the statement after the call
                    if n_args > 0 && expect_data_after && inner.remaining_bytes() == 0 {
                        n_args = n_args - 1;
                    }
                    return n_args;
                },
                Err(_) => {
                    break;
                },
                _ => {},
            }
            n_args = n_args + 1;
        }
        n_args
    }

    pub fn parse_target(&mut self, state: &mut State) -> (r: Result<Box<Target>, AmlParseError>)
        requires
            old(self).wf(),
            old(state).wf(),
        ensures
            final(self).wf(),
            final(state).wf(),
            advanced(*old(self), *final(self)),
            r is Ok ==> final(self).pos > old(self).pos,
            ({
                let s = old(self).code@;
                let p = old(self).pos as int;
                let e = old(self).end as int;
                let lead = s[p];
                &&& p >= e ==> (r matches Err(AmlParseError::UnexpectedEndOfCode))
                &&& p < e && lead == 0 ==> (r matches Ok(t) && *t is Null && final(self).pos == p + 1)
                &&& p + 1 < e && lead == 0x5B && s[p + 1] == 0x31 ==> (r matches Ok(t) && *t is Debug
                    && final(self).pos == p + 2)
                &&& p + 1 < e && lead == 0x5B && s[p + 1] != 0x31 ==> r == Err::<Box<Target>, AmlParseError>(AmlParseError::InvalidDebugTarget(s[p + 1]))
                &&& p < e && 0x60 <= lead <= 0x67 ==> (r matches Ok(t) && *t == Target::Local((lead - 0x60) as u8)
                    && final(self).pos == p + 1)
                &&& p < e && 0x68 <= lead <= 0x6E ==> (r matches Ok(t) && *t == Target::Arg((lead - 0x68) as u8)
                    && final(self).pos == p + 1)
                &&& p < e && lead != 0 && lead != 0x5B && lead != 0x71 && !(0x60 <= lead <= 0x6E) ==>
                    (name_at(s, p, e) matches NameScan::Found(n, q) ==> (r matches Ok(t)
                        && *t matches Target::Name(x) && x@ == n && final(self).pos == q))
                &&& simple_target(s, p, e) matches Some((x, q)) ==> (r matches Ok(t) && *t == x && final(self).pos == q
                    && *final(state) == *old(state))
                &&& r matches Ok(t) ==> target_at(s, p, e, *t, final(self).pos as int)
            }),
        decreases old(self).end - old(self).pos, 3int,
    {
        let lead_byte = self.peek_next_byte()?;
        if lead_byte == 0 {
            self.forward(1)?;
            return Ok(Box::new(Target::Null));
        }
        if lead_byte == 0x5B {
            self.forward(1)?;
            let next_byte = self.get_next_byte()?;
            if next_byte != 0x31 {
                return Err(AmlParseError::InvalidDebugTarget(next_byte));
            }
            return Ok(Box::new(Target::Debug));
        }
        if lead_byte == 0x71 {
            // object reference targets are not supported
            return Err(AmlParseError::UnknownOpcode(lead_byte));
        }
        if let Some(local) = self.try_parse_local(lead_byte)? {
            self.forward(1)?;
            return Ok(Box::new(Target::Local(local)));
        }
        if let Some(arg) = self.try_parse_arg(lead_byte)? {
            self.forward(1)?;
            return Ok(Box::new(Target::Arg(arg)));
        }
        proof {
            lemma_name_advances(self.code@, self.pos as int, self.end as int);
        }
        if let Some(name) = self.try_parse_name()? {
            return Ok(Box::new(Target::Name(name)));
        }
        self.forward(1)?;
        match self.try_parse_term(state, lead_byte)? {
            Some(AmlTerm::Index(term_arg1, term_arg2, target)) => Ok(Box::new(Target::Index(term_arg1, term_arg2, target))),
            Some(AmlTerm::RefOf(target)) => Ok(Box::new(Target::RefOf(target))),
            Some(AmlTerm::DerefOf(term_arg)) => Ok(Box::new(Target::DerefOf(term_arg))),
            _ => Err(AmlParseError::InvalidTarget(lead_byte)),
        }
    }

    /// A term: its opcode and what follows it.
    pub fn parse_term(&mut self, state: &mut State) -> (r: Result<AmlTerm, AmlParseError>)
        requires
            old(self).wf(),
            old(state).wf(),
        ensures
            final(self).wf(),
            final(state).wf(),
            advanced(*old(self), *final(self)),
            r is Ok ==> final(self).pos > old(self).pos,
            r matches Ok(t) ==> opcode_term(
                old(self).code@[old(self).pos as int],
                old(self).code@[old(self).pos + 1],
                t,
            ),
            old(self).pos >= old(self).end ==> (r matches Err(AmlParseError::UnexpectedEndOfCode)),
            old(self).pos < old(self).end && old(self).code@[old(self).pos as int] == 0xA3 ==> (r matches Ok(t) && t is Noop
                && final(self).pos == old(self).pos + 1),
            old(self).pos < old(self).end && old(self).code@[old(self).pos as int] == 0xA5 ==> (r matches Ok(t) && t is Break
                && final(self).pos == old(self).pos + 1),
            old(self).pos < old(self).end ==> (simple_term(
                old(self).code@[old(self).pos as int],
                old(self).code@,
                old(self).pos + 1,
                old(self).end as int,
            ) matches Some((x, q)) ==> r == Ok::<AmlTerm, AmlParseError>(x) && final(self).pos == q
                && *final(state) == *old(state)),
            unknown_opcode_at(old(self).code@, old(self).pos as int, old(self).end as int) ==> r == Err::<AmlTerm, AmlParseError>(
                AmlParseError::UnknownOpcode(old(self).code@[old(self).pos as int]),
            ),
        decreases old(self).end - old(self).pos, 0int,
    {
        let byte = self.get_next_byte()?;
        match self.try_parse_term(state, byte)? {
            Some(term) => Ok(term),
            None => Err(AmlParseError::UnknownOpcode(byte)),
        }
    }

    /// Terms up to the end of the window.
    pub fn parse_term_list(&mut self, state: &mut State) -> (r: Result<Vec<AmlTerm>, AmlParseError>)
        requires
            old(self).wf(),
            old(state).wf(),
        ensures
            final(self).wf(),
            final(state).wf(),
            advanced(*old(self), *final(self)),
            r is Ok ==> final(self).pos == final(self).end,
            r matches Ok(v) ==> exists|starts: Seq<int>|
                #[trigger] terms_laid_out(old(self).code@, v@, starts, old(self).pos as int, old(self).end as int),
            control_bytes(old(self).code@, old(self).pos as int, old(self).end as int) ==> (r matches Ok(v) && v@.len()
                == old(self).end - old(self).pos && control_terms(old(self).code@, old(self).pos as int, v@)),
            simple_terms(old(self).code@, old(self).pos as int, old(self).end as int) matches Some(ts) ==> (r matches Ok(v)
                && v@ == ts && *final(state) == *old(state)),
            unknown_opcode_at(old(self).code@, old(self).pos as int, old(self).end as int) ==> r == Err::<Vec<AmlTerm>, AmlParseError>(
                AmlParseError::UnknownOpcode(old(self).code@[old(self).pos as int]),
            ),
        decreases old(self).end - old(self).pos, 1int,
    {
        let ghost s0 = self.code@;
        let ghost p0 = self.pos as int;
        let ghost ctl = control_bytes(s0, p0, self.end as int);
        let ghost simple = simple_terms(s0, p0, self.end as int) is Some;
        let ghost unk = unknown_opcode_at(s0, p0, self.end as int);
        let ghost all = simple_terms(s0, p0, self.end as int)->0;
        let mut term_list = Vec::new();
        let ghost mut starts: Seq<int> = Seq::empty();
        while self.pos < self.end
            invariant
                self.wf(),
                state.wf(),
                advanced(*old(self), *self),
                terms_laid_out(old(self).code@, term_list@, starts, old(self).pos as int, old(self).end as int),
                forall|i: int| 0 <= i < starts.len() ==> #[trigger] starts[i] < self.pos,
                term_list@.len() == 0 ==> self.pos == old(self).pos,
                s0 == old(self).code@,
                p0 == old(self).pos,
                ctl == control_bytes(s0, p0, old(self).end as int),
                ctl ==> self.pos == p0 + term_list@.len() && control_terms(s0, p0, term_list@),
                simple == (simple_terms(s0, p0, old(self).end as int) is Some),
                unk == unknown_opcode_at(s0, p0, old(self).end as int),
                unk ==> term_list@.len() == 0,
                all == simple_terms(s0, p0, old(self).end as int)->0,
                simple ==> (simple_terms(s0, self.pos as int, old(self).end as int) matches Some(rest)
                    && all == term_list@ + rest && *state == *old(state)),
            decreases self.end - self.pos,
        {
            let ghost p = self.pos as int;
            let ghost rest0 = simple_terms(s0, p, old(self).end as int)->0;
            proof {
                if ctl {
                    assert(s0[p] == 0xA3 || s0[p] == 0xA5);
                }
            }
            let ghost before = term_list@;
            let term = self.parse_term(state)?;
            proof {
                starts = starts.push(p);
            }
            term_list.push(term);
            proof {
                if simple {
                    let rest1 = simple_terms(s0, self.pos as int, old(self).end as int)->0;
                    assert(rest0 == seq![term] + rest1);
                    assert(all == term_list@ + rest1) by {
                        assert(all == before + rest0);
                        assert(term_list@ == before.push(term));
                        assert(before + (seq![term] + rest1) =~= before.push(term) + rest1);
                    }
                }
                if ctl {
                    assert forall|i: int| 0 <= i < term_list@.len() implies control_term(
                        s0[p0 + i],
                        #[trigger] term_list@[i],
                    ) by {
                        if i < before.len() {
                            assert(term_list@[i] == before[i]);
                        }
                    }
                }
                assert(starts.last() == p);
                assert forall|i: int| 0 <= i < term_list@.len() implies opcode_term(
                    old(self).code@[starts[i]],
                    old(self).code@[starts[i] + 1],
                    #[trigger] term_list@[i],
                ) by {
                    if i < term_list@.len() - 1 {
                        assert(starts[i] == starts.drop_last()[i]);
                    }
                }
            }
        }
        if self.remaining_bytes() != 0 {
            return Err(AmlParseError::RemainingBytes(self.remaining_bytes()));
        }
        proof {
            if simple {
                assert(all =~= term_list@);
            }
        }
        assert(terms_laid_out(old(self).code@, term_list@, starts, old(self).pos as int, old(self).end as int));
        assert(exists|st: Seq<int>| #[trigger] terms_laid_out(old(self).code@, term_list@, st, old(self).pos as int, old(self).end as int));
        let r: Result<Vec<AmlTerm>, AmlParseError> = Ok(term_list);
        assert(r matches Ok(v) && v@ == term_list@);
        r
    }

    /// The whole code.
    pub fn parse_root(&mut self, state: &mut State) -> (r: Result<AmlCode, AmlParseError>)
        requires
            old(self).wf(),
            old(state).wf(),
        ensures
            final(self).wf(),
            final(state).wf(),
            advanced(*old(self), *final(self)),
            r is Ok ==> final(self).pos == final(self).end,
            r matches Ok(c) ==> exists|starts: Seq<int>|
                #[trigger] terms_laid_out(old(self).code@, c.term_list@, starts, old(self).pos as int, old(self).end as int),
            control_bytes(old(self).code@, old(self).pos as int, old(self).end as int) ==> (r matches Ok(c)
                && c.term_list@.len() == old(self).end - old(self).pos && control_terms(
                old(self).code@,
                old(self).pos as int,
                c.term_list@,
            )),
            simple_terms(old(self).code@, old(self).pos as int, old(self).end as int) matches Some(ts) ==> (r matches Ok(c)
                && c.term_list@ == ts),
            unknown_opcode_at(old(self).code@, old(self).pos as int, old(self).end as int) ==> r == Err::<AmlCode, AmlParseError>(
                AmlParseError::UnknownOpcode(old(self).code@[old(self).pos as int]),
            ),
    {
        let term_list = self.parse_term_list(state)?;
        let code = AmlCode { term_list };
        proof {
            let starts = choose|starts: Seq<int>|
                #[trigger] terms_laid_out(old(self).code@, code.term_list@, starts, old(self).pos as int, old(self).end as int);
            assert(terms_laid_out(old(self).code@, code.term_list@, starts, old(self).pos as int, old(self).end as int));
        }
        assert(exists|st: Seq<int>| #[trigger] terms_laid_out(old(self).code@, code.term_list@, st, old(self).pos as int, old(self).end as int));
        let r: Result<AmlCode, AmlParseError> = Ok(code);
        assert(r matches Ok(c) && c.term_list@ == code.term_list@);
        r
    }

    /// The flags byte and the field elements of a field definition, up to
    /// the end of the window.
    pub fn parse_fields_list_and_flags(&mut self, state: &mut State) -> (r: Result<(u8, Vec<FieldElement>), AmlParseError>)
        requires
            old(self).wf(),
            old(state).wf(),
        ensures
            final(self).wf(),
            final(state).wf(),
            advanced(*old(self), *final(self)),
            r matches Ok((f, _)) ==> f == old(self).code@[old(self).pos as int] && final(self).pos == final(self).end,
            r matches Ok((_, v)) ==> forall|i: int| 0 <= i < v@.len() ==> (#[trigger] v@[i] matches FieldElement::Named(_, n)
                ==> n >= 1),
            old(self).pos >= old(self).end ==> (r matches Err(AmlParseError::UnexpectedEndOfCode)),
            old(self).pos + 1 == old(self).end ==> (r matches Ok((f, v)) && f == old(self).code@[old(self).pos as int]
                && v@.len() == 0),
            old(self).pos < old(self).end ==> match simple_fields(
                old(self).code@,
                old(self).pos + 1,
                old(self).end as int,
                0,
            ) {
                Some(Ok(m)) => r matches Ok((f, v)) && f == old(self).code@[old(self).pos as int] && v@.len() == m.len()
                    && (forall|i: int| 0 <= i < m.len() ==> field_model(#[trigger] v@[i]) == Some(m[i]))
                    && field_names_known(m, *final(state)),
                Some(Err(_)) => r matches Err(AmlParseError::UnalignedFieldElementOffset),
                None => true,
            },
        decreases old(self).end - old(self).pos, 0int,
    {
        let ghost entry = self.end - self.pos;
        let ghost s0 = self.code@;
        let ghost p0 = self.pos as int;
        let ghost e0 = self.end as int;
        let ghost full = simple_fields(s0, p0 + 1, e0, 0);
        let ghost mut prefix: Seq<FieldModel> = Seq::empty();
        let flags = self.get_next_byte()?;
        assert(flags == s0[p0]);
        let mut field_list: Vec<FieldElement> = Vec::new();
        let mut fields_pos_bits: usize = 0;
        assert(fields_after(prefix, full) == full);
        while self.pos < self.end
            invariant
                self.wf(),
                state.wf(),
                self.end - self.pos < entry,
                entry == old(self).end - old(self).pos,
                advanced(*old(self), *self),
                flags == old(self).code@[old(self).pos as int],
                forall|i: int| 0 <= i < field_list@.len() ==> (#[trigger] field_list@[i] matches FieldElement::Named(_, n)
                    ==> n >= 1),
                entry == 1 ==> field_list@.len() == 0 && self.pos == self.end,
                s0 == old(self).code@,
                p0 == old(self).pos,
                e0 == old(self).end,
                full == simple_fields(s0, p0 + 1, e0, 0),
                full is Some ==> (full == fields_after(prefix, simple_fields(s0, self.pos as int, e0, fields_pos_bits as int))
                    && field_list@.len() == prefix.len()
                    && (forall|i: int| 0 <= i < prefix.len() ==> field_model(#[trigger] field_list@[i]) == Some(prefix[i]))
                    && field_names_known(prefix, *state)),
            decreases self.end - self.pos,
        {
            let ghost pp = self.pos as int;
            let ghost tail = simple_fields(s0, pp, e0, fields_pos_bits as int);
            let lead = self.peek_next_byte()?;
            let field = if lead == 0 {
                self.forward(1)?;
                let pkg_length = self.get_pkg_length()?;
                let b = match fields_pos_bits.checked_add(pkg_length) {
                    Some(b) => b,
                    None => {
                        return Err(AmlParseError::InvalidPkgLength);
                    },
                };
                if b == usize::MAX {
                    return Err(AmlParseError::InvalidPkgLength);
                }
                fields_pos_bits = b + 1;
                if fields_pos_bits % 8 != 0 {
                    return Err(AmlParseError::UnalignedFieldElementOffset);
                }
                FieldElement::Offset(fields_pos_bits / 8)
            } else if lead == 1 {
                self.forward(1)?;
                let access_byte = self.get_next_byte()?;
                let access_attrib_byte = self.get_next_byte()?;
                let kind = access_byte >> 6u8;
                let access_attrib = if kind == 0 {
                    if access_attrib_byte == 0x2 {
                        AccessAttrib::Quick
                    } else if access_attrib_byte == 0x4 {
                        AccessAttrib::SendRecv
                    } else if access_attrib_byte == 0x6 {
                        AccessAttrib::Byte
                    } else if access_attrib_byte == 0x8 {
                        AccessAttrib::Word
                    } else if access_attrib_byte == 0xA {
                        AccessAttrib::Block
                    } else if access_attrib_byte == 0xC {
                        AccessAttrib::ProcessCall
                    } else if access_attrib_byte == 0xD {
                        AccessAttrib::BlockProcessCall
                    } else {
                        AccessAttrib::ByteValue(access_attrib_byte)
                    }
                } else if kind == 1 {
                    AccessAttrib::Bytes(access_attrib_byte)
                } else if kind == 2 {
                    AccessAttrib::RawBytes(access_attrib_byte)
                } else {
                    AccessAttrib::RawProcessBytes(access_attrib_byte)
                };
                let access_type = AccessType::try_from_u8(access_byte)?;
                FieldElement::Access(access_type, access_attrib)
            } else if lead == 2 {
                self.forward(1)?;
                let mut clone = self.clone_parser();
                let data_object = clone.try_parse_data_object(state)?;
                let connection_field = match data_object {
                    Some(UnresolvedDataObject::Buffer(buffer)) => FieldConnection::Buffer(buffer),
                    _ => {
                        // not a buffer, so the connection is a name
                        FieldConnection::Name(self.parse_name()?)
                    },
                };
                FieldElement::Connection(connection_field)
            } else if lead == 3 {
                self.forward(1)?;
                let access_byte = self.get_next_byte()?;
                let extended_attrib = self.get_next_byte()?;
                let access_length = self.get_next_byte()?;
                let access_attrib = if extended_attrib == 0xB {
                    AccessAttrib::Bytes(access_length)
                } else if extended_attrib == 0xE {
                    AccessAttrib::RawBytes(access_length)
                } else if extended_attrib == 0xF {
                    AccessAttrib::RawProcessBytes(access_length)
                } else {
                    return Err(AmlParseError::InvalidExtendedAttrib(extended_attrib));
                };
                let access_type = AccessType::try_from_u8(access_byte)?;
                FieldElement::Access(access_type, access_attrib)
            } else {
                let len_now = self.pos;
                proof {
                    lemma_name_advances(self.code@, self.pos as int, self.end as int);
                }
                let name = self.parse_name()?;
                state.add_name(crate::text::copy_string(&name));
                if self.pos - len_now != 4 {
                    // a field element name must be a single name segment
                    return Err(AmlParseError::InvalidName);
                }
                let pkg_length = self.get_pkg_length()?;
                if pkg_length == usize::MAX {
                    return Err(AmlParseError::InvalidPkgLength);
                }
                let size_bits = pkg_length + 1;
                match fields_pos_bits.checked_add(size_bits) {
                    Some(b) => {
                        fields_pos_bits = b;
                    },
                    None => {
                        return Err(AmlParseError::InvalidPkgLength);
                    },
                }
                FieldElement::Named(name, size_bits)
            };
            let ghost before = field_list@;
            field_list.push(field);
            proof {
                if full is Some {
                    let x = field_model(field)->0;
                    assert(field_model(field) is Some);
                    let tail2 = simple_fields(s0, self.pos as int, e0, fields_pos_bits as int);
                    assert(tail == fields_after(seq![x], tail2));
                    assert(fields_after(prefix, fields_after(seq![x], tail2)) == fields_after(prefix.push(x), tail2)) by {
                        assert(prefix + seq![x] =~= prefix.push(x));
                        if tail2 is Some && tail2->0 is Ok {
                            let rest = tail2->0->Ok_0;
                            assert(prefix + (seq![x] + rest) =~= prefix.push(x) + rest);
                        }
                    }
                    assert forall|i: int| 0 <= i < prefix.push(x).len() implies field_model(#[trigger] field_list@[i])
                        == Some(prefix.push(x)[i]) by {
                        if i < prefix.len() {
                            assert(field_list@[i] == before[i]);
                        }
                    }
                    assert forall|i: int| 0 <= i < prefix.push(x).len() implies (#[trigger] prefix.push(x)[i] matches FieldModel::Named(
                        n,
                        _,
                    ) ==> state.has_name(n)) by {
                        if i < prefix.len() {
                            assert(prefix.push(x)[i] == prefix[i]);
                        }
                    }
                    prefix = prefix.push(x);
                }
            }
        }
        proof {
            if full is Some {
                assert(prefix + Seq::<FieldModel>::empty() =~= prefix);
            }
        }
        self.check_empty()?;
        Ok((flags, field_list))
    }
}

/// A named field or a reserved span, as a field list records it: the name
/// and width in bits, or the byte offset at which the span ends.
pub ghost enum FieldModel {
    Named(Seq<char>, int),
    Offset(int),
}

/// The model of a named field or a reserved span; none for other elements.
pub open spec fn field_model(f: FieldElement) -> Option<FieldModel> {
    match f {
        FieldElement::Named(n, w) => Some(FieldModel::Named(n@, w as int)),
        FieldElement::Offset(o) => Some(FieldModel::Offset(o as int)),
        _ => None,
    }
}

/// `r` with the elements `prefix` put before what it lists.
pub open spec fn fields_after(prefix: Seq<FieldModel>, r: Option<Result<Seq<FieldModel>, ()>>) -> Option<
    Result<Seq<FieldModel>, ()>,
> {
    match r {
        Some(Ok(rest)) => Some(Ok(prefix + rest)),
        other => other,
    }
}

/// The field elements from `p` to `e`, at bit position `bits`, when each is
/// a named field (one name segment) or a reserved span (a zero byte), with a
/// one-byte length: the elements in order, or `Err` at the first reserved
/// span that ends off a byte boundary. `None` for any other element, or
/// when the bit position would not fit a `usize`.
pub open spec fn simple_fields(s: Seq<u8>, p: int, e: int, bits: int) -> Option<Result<Seq<FieldModel>, ()>>
    decreases e - p,
{
    if p >= e || p < 0 {
        Some(Ok(Seq::empty()))
    } else if s[p] == 0 {
        if p + 2 <= e && 1 <= s[p + 1] < 0x40 && bits + s[p + 1] <= usize::MAX {
            let nb = bits + s[p + 1];
            if nb % 8 != 0 {
                Some(Err(()))
            } else {
                fields_after(seq![FieldModel::Offset(nb / 8)], simple_fields(s, p + 2, e, nb))
            }
        } else {
            None
        }
    } else if s[p] > 3 {
        match name_at(s, p, e) {
            NameScan::Found(n, q) => if q == p + 4 && q < e && 1 <= s[q] < 0x40 && bits + s[q] <= usize::MAX {
                fields_after(seq![FieldModel::Named(n, s[q] as int)], simple_fields(s, q + 1, e, bits + s[q]))
            } else {
                None
            },
            _ => None,
        }
    } else {
        None
    }
}

/// Every named field of `m` is a name the state knows.
pub open spec fn field_names_known(m: Seq<FieldModel>, st: State) -> bool {
    forall|i: int| 0 <= i < m.len() ==> (#[trigger] m[i] matches FieldModel::Named(n, _) ==> st.has_name(n))
}

/// The body of the package whose length encoding is at `p`, when it
/// starts with a name: the name, where it ends and where the body ends.
pub open spec fn named_body(s: Seq<u8>, p: int, e: int) -> Option<(Seq<char>, int, int)> {
    match pkg_bounds(s, p, e) {
        Some((a, b)) => match name_at(s, a, b) {
            NameScan::Found(n, q) => Some((n, q, b)),
            _ => None,
        },
        None => None,
    }
}

/// Offsets at which the terms `ts` lie from `q` to `b`, if they can.
pub open spec fn layout_starts(code: Seq<u8>, ts: Seq<AmlTerm>, q: int, b: int) -> Seq<int> {
    choose|starts: Seq<int>| terms_laid_out(code, ts, starts, q, b)
}

impl ScopeObj {
    /// A scope or device: a package holding its name and its terms.
    pub fn parse(parser: &mut Parser, state: &mut State) -> (r: Result<ScopeObj, AmlParseError>)
        requires
            old(parser).wf(),
            old(state).wf(),
        ensures
            final(parser).wf(),
            final(state).wf(),
            advanced(*old(parser), *final(parser)),
            r is Ok ==> final(parser).pos > old(parser).pos,
            named_body(old(parser).code@, old(parser).pos as int, old(parser).end as int) is None ==> r is Err,
            r matches Ok(o) ==> named_body(old(parser).code@, old(parser).pos as int, old(parser).end as int) matches Some(
                (n, q, b),
            ) && o.name@ == n && final(parser).pos == b,
            r matches Ok(o) ==> named_body(old(parser).code@, old(parser).pos as int, old(parser).end as int) matches Some(
                (n, q, b),
            ) && terms_laid_out(old(parser).code@, o.term_list@, layout_starts(old(parser).code@, o.term_list@, q, b), q, b),
            named_body(old(parser).code@, old(parser).pos as int, old(parser).end as int) matches Some((n, q, b)) && control_bytes(old(parser).code@, q, b) ==> r is Ok,
            named_body(old(parser).code@, old(parser).pos as int, old(parser).end as int) matches Some((n, q, b)) ==> (
            simple_terms(old(parser).code@, q, b) matches Some(ts) ==> (r matches Ok(o) && o.term_list@ == ts)),
        decreases old(parser).end - old(parser).pos, 3int,
    {
        let ghost c = parser.code@;
        let ghost p = parser.pos as int;
        let ghost e = parser.end as int;
        let mut inner = parser.get_inner_parser()?;
        let ghost b = inner.end as int;
        assert(pkg_bounds(c, p, e) == Some((inner.pos as int, b)));
        let name = inner.parse_name()?;
        let ghost q = inner.pos as int;
        assert(named_body(c, p, e) == Some((name@, q, b)));
        let ghost t0 = inner.pos as int;
        assert(inner.code@ == c);
        let term_list = inner.parse_term_list(state)?;
        let ghost tl = term_list@;
        let ghost st = choose|st: Seq<int>| #[trigger] terms_laid_out(c, tl, st, t0, b);
        assert(terms_laid_out(c, tl, st, t0, b));
        inner.check_empty()?;
        let res = ScopeObj { name, term_list };
        assert(res.term_list@ == tl);
        assert(terms_laid_out(c, res.term_list@, st, q, b));
        Ok(res)
    }
}

impl RegionObj {
    pub fn parse(parser: &mut Parser, state: &mut State) -> (r: Result<RegionObj, AmlParseError>)
        requires
            old(parser).wf(),
            old(state).wf(),
        ensures
            final(parser).wf(),
            final(state).wf(),
            advanced(*old(parser), *final(parser)),
            r is Ok ==> final(parser).pos > old(parser).pos,
            name_at(old(parser).code@, old(parser).pos as int, old(parser).end as int) is Failed ==> r is Err,
            r matches Ok(o) ==> name_at(old(parser).code@, old(parser).pos as int, old(parser).end as int) matches NameScan::Found(n, q) && o.name@ == n && q < old(parser).end
                && o.region_space == region_space_of(old(parser).code@[q]) && term_arg_fits(old(parser).code@[q + 1], old(parser).code@[q + 2], o.region_offset),
            name_at(old(parser).code@, old(parser).pos as int, old(parser).end as int) matches NameScan::Found(n, q) ==> (
            single_byte_args(old(parser).code@, q + 1, old(parser).end as int, 2) ==> (r matches Ok(o)
                && o.region_offset == single_byte_arg_value(old(parser).code@[q + 1]) && o.region_length == single_byte_arg_value(
                old(parser).code@[q + 2],
            ) && final(parser).pos == q + 3)),
        decreases old(parser).end - old(parser).pos, 3int,
    {
        proof {
            lemma_name_advances(parser.code@, parser.pos as int, parser.end as int);
        }
        let ghost c = parser.code@;
        let name = parser.parse_name()?;
        let ghost q = parser.pos as int;
        proof {
            if single_byte_args(c, q + 1, parser.end as int, 2) {
                assert(single_byte_arg(c[q + 1 + 0]));
                assert(single_byte_arg(c[q + 1 + 1]));
            }
        }
        let space = parser.get_next_byte()?;
        let region_space = RegionSpace::from_u8(space);
        let region_offset = parser.parse_term_arg(state)?;
        let region_length = parser.parse_term_arg(state)?;
        Ok(RegionObj { name, region_space, region_offset, region_length })
    }
}

/// Whether bit 4 (the lock bit) of a field flags byte is set.
fn lock_bit(flags: u8) -> (r: bool)
    ensures
        r == ((flags / 16) % 2 == 1),
{
    let b = flags & 0x10;
    proof {
        crate::bits::lemma_u8(flags);
    }
    assert((b != 0) == ((flags / 16) % 2 == 1));
    b != 0
}

impl FieldDef {
    pub fn parse(parser: &mut Parser, state: &mut State) -> (r: Result<FieldDef, AmlParseError>)
        requires
            old(parser).wf(),
            old(state).wf(),
        ensures
            final(parser).wf(),
            final(state).wf(),
            advanced(*old(parser), *final(parser)),
            r is Ok ==> final(parser).pos > old(parser).pos,
            named_body(old(parser).code@, old(parser).pos as int, old(parser).end as int) is None ==> r is Err,
            r matches Ok(o) ==> named_body(old(parser).code@, old(parser).pos as int, old(parser).end as int) matches Some((n, q, b)) && o.name@ == n && q < b && final(parser).pos == b
                && access_type_of(old(parser).code@[q]) == Some(o.access_type) && o.need_lock == ((old(parser).code@[q] / 16) % 2 == 1)
                && update_rule_of((old(parser).code@[q] / 32) as u8) == Some(o.update_rule),
            named_body(old(parser).code@, old(parser).pos as int, old(parser).end as int) matches Some((n, q, b)) && q + 1 == b && access_type_of(old(parser).code@[q]) is Some
                && update_rule_of((old(parser).code@[q] / 32) as u8) is Some ==> (r matches Ok(o) && o.fields@.len() == 0),
        decreases old(parser).end - old(parser).pos, 3int,
    {
        let ghost c = parser.code@;
        let ghost p = parser.pos as int;
        let ghost e = parser.end as int;
        let mut inner = parser.get_inner_parser()?;
        let ghost b = inner.end as int;
        assert(pkg_bounds(c, p, e) == Some((inner.pos as int, b)));
        let name = inner.parse_name()?;
        let ghost q = inner.pos as int;
        assert(named_body(c, p, e) == Some((name@, q, b)));
        proof {
            crate::bits::lemma_u8(c[q]);
        }
        let (flags, fields) = inner.parse_fields_list_and_flags(state)?;
        let access_type = AccessType::try_from_u8(flags)?;
        let need_lock = lock_bit(flags);
        let update_rule = FieldUpdateRule::try_from_u8(flags >> 5u8)?;
        Ok(FieldDef { name, access_type, need_lock, update_rule, fields })
    }
}

/// After the name of an index field, ending at `q`: the data field's name
/// and the flags byte that the field's fields decode.
pub open spec fn index_field_header(c: Seq<u8>, q: int, b: int, o: IndexFieldDef) -> bool {
    match name_at(c, q, b) {
        NameScan::Found(m, q2) => {
            &&& o.index_name@ == m
            &&& q2 < b
            &&& access_type_of(c[q2]) == Some(o.access_type)
            &&& o.need_lock == ((c[q2] / 16) % 2 == 1)
            &&& update_rule_of((c[q2] / 32) as u8) == Some(o.update_rule)
        },
        _ => false,
    }
}

impl IndexFieldDef {
    pub fn parse(parser: &mut Parser, state: &mut State) -> (r: Result<IndexFieldDef, AmlParseError>)
        requires
            old(parser).wf(),
            old(state).wf(),
        ensures
            final(parser).wf(),
            final(state).wf(),
            advanced(*old(parser), *final(parser)),
            r is Ok ==> final(parser).pos > old(parser).pos,
            named_body(old(parser).code@, old(parser).pos as int, old(parser).end as int) is None ==> r is Err,
            r matches Ok(o) ==> named_body(old(parser).code@, old(parser).pos as int, old(parser).end as int) matches Some((n, q, b))
                && o.name@ == n && final(parser).pos == b && index_field_header(old(parser).code@, q, b, o),
            named_body(old(parser).code@, old(parser).pos as int, old(parser).end as int) matches Some((n, q, b)) ==> (name_at(old(parser).code@, q, b) matches NameScan::Found(m, q2) ==> (q2
                + 1 == b && access_type_of(old(parser).code@[q2]) is Some && update_rule_of((old(parser).code@[q2] / 32) as u8) is Some ==> (r matches Ok(o)
                && o.fields@.len() == 0))),
        decreases old(parser).end - old(parser).pos, 3int,
    {
        let ghost c = parser.code@;
        let ghost p = parser.pos as int;
        let ghost e = parser.end as int;
        let mut inner = parser.get_inner_parser()?;
        let ghost b = inner.end as int;
        assert(pkg_bounds(c, p, e) == Some((inner.pos as int, b)));
        let name = inner.parse_name()?;
        let ghost q = inner.pos as int;
        assert(named_body(c, p, e) == Some((name@, q, b)));
        let index_name = inner.parse_name()?;
        let ghost q2 = inner.pos as int;
        proof {
            crate::bits::lemma_u8(c[q2]);
        }
        let (flags, fields) = inner.parse_fields_list_and_flags(state)?;
        let access_type = AccessType::try_from_u8(flags)?;
        let need_lock = lock_bit(flags);
        let update_rule = FieldUpdateRule::try_from_u8(flags >> 5u8)?;
        Ok(IndexFieldDef { name, index_name, access_type, need_lock, update_rule, fields })
    }
}

impl MethodObj {
    pub fn parse(parser: &mut Parser, state: &mut State) -> (r: Result<MethodObj, AmlParseError>)
        requires
            old(parser).wf(),
            old(state).wf(),
        ensures
            final(parser).wf(),
            final(state).wf(),
            advanced(*old(parser), *final(parser)),
            r is Ok ==> final(parser).pos > old(parser).pos,
            named_body(old(parser).code@, old(parser).pos as int, old(parser).end as int) is None ==> r is Err,
            r matches Ok(o) ==> named_body(old(parser).code@, old(parser).pos as int, old(parser).end as int) matches Some(
                (n, q, b),
            ) && o.name@ == n && q < b && o.flags == old(parser).code@[q] && final(parser).pos == b && terms_laid_out(old(parser).code@, o.term_list@, layout_starts(old(parser).code@, o.term_list@, q + 1, b), q + 1, b),
            named_body(old(parser).code@, old(parser).pos as int, old(parser).end as int) matches Some((n, q, b)) && q < b && control_bytes(old(parser).code@, q + 1, b) ==> r is Ok,
            named_body(old(parser).code@, old(parser).pos as int, old(parser).end as int) matches Some((n, q, b)) ==> (q < b
                ==> (simple_terms(old(parser).code@, q + 1, b) matches Some(ts) ==> (r matches Ok(o) && o.term_list@ == ts
                && *final(state) == *old(state)))),
        decreases old(parser).end - old(parser).pos, 3int,
    {
        let ghost c = parser.code@;
        let ghost p = parser.pos as int;
        let ghost e = parser.end as int;
        let mut inner = parser.get_inner_parser()?;
        let ghost b = inner.end as int;
        assert(pkg_bounds(c, p, e) == Some((inner.pos as int, b)));
        let name = inner.parse_name()?;
        let ghost q = inner.pos as int;
        assert(named_body(c, p, e) == Some((name@, q, b)));
        let flags = inner.get_next_byte()?;
        let ghost t0 = inner.pos as int;
        assert(inner.code@ == c);
        let term_list = inner.parse_term_list(state)?;
        let ghost tl = term_list@;
        let ghost st = choose|st: Seq<int>| #[trigger] terms_laid_out(c, tl, st, t0, b);
        assert(terms_laid_out(c, tl, st, t0, b));
        inner.check_empty()?;
        let res = MethodObj { name, flags, term_list };
        assert(res.term_list@ == tl);
        assert(t0 == q + 1);
        assert(terms_laid_out(c, res.term_list@, st, q + 1, b));
        Ok(res)
    }
}

impl PredicateBlock {
    pub fn parse(parser: &mut Parser, state: &mut State) -> (r: Result<PredicateBlock, AmlParseError>)
        requires
            old(parser).wf(),
            old(state).wf(),
        ensures
            final(parser).wf(),
            final(state).wf(),
            advanced(*old(parser), *final(parser)),
            r is Ok ==> final(parser).pos > old(parser).pos,
            pkg_bounds(old(parser).code@, old(parser).pos as int, old(parser).end as int) is None ==> r is Err,
            r matches Ok(o) ==> pkg_bounds(old(parser).code@, old(parser).pos as int, old(parser).end as int) matches Some(
                (a, b),
            ) && {
                let c = old(parser).code@;
                &&& final(parser).pos == b
                &&& term_arg_fits(c[a], c[a + 1], o.predicate)
                &&& exists|q: int| a < q <= b && #[trigger] terms_laid_out(c, o.term_list@, layout_starts(c, o.term_list@, q, b), q, b)
            },
            pkg_bounds(old(parser).code@, old(parser).pos as int, old(parser).end as int) matches Some((a, b)) && a < b && single_byte_arg(old(parser).code@[a]) && control_bytes(
                old(parser).code@,
                a + 1,
                b,
            ) ==> r is Ok,
            pkg_bounds(old(parser).code@, old(parser).pos as int, old(parser).end as int) matches Some((a, b)) ==> (
            simple_arg(old(parser).code@, a, b) matches Some((x, q)) ==> (simple_terms(old(parser).code@, q, b) matches Some(
                ts,
            ) ==> (r matches Ok(o) && o.predicate == x && o.term_list@ == ts))),
        decreases old(parser).end - old(parser).pos, 3int,
    {
        let ghost c = parser.code@;
        let ghost p = parser.pos as int;
        let ghost e = parser.end as int;
        let mut inner = parser.get_inner_parser()?;
        let ghost b = inner.end as int;
        assert(pkg_bounds(c, p, e) == Some((inner.pos as int, b)));
        let predicate = inner.parse_term_arg(state)?;
        let ghost t0 = inner.pos as int;
        assert(inner.code@ == c);
        let term_list = inner.parse_term_list(state)?;
        let ghost tl = term_list@;
        let ghost st = choose|st: Seq<int>| #[trigger] terms_laid_out(c, tl, st, t0, b);
        assert(terms_laid_out(c, tl, st, t0, b));
        inner.check_empty()?;
        let res = PredicateBlock { predicate, term_list };
        assert(res.term_list@ == tl);
        assert(terms_laid_out(c, res.term_list@, st, t0, b));
        assert(terms_laid_out(c, res.term_list@, layout_starts(c, res.term_list@, t0, b), t0, b));
        Ok(res)
    }
}

impl ProcessorDeprecated {
    pub fn parse(parser: &mut Parser, state: &mut State) -> (r: Result<ProcessorDeprecated, AmlParseError>)
        requires
            old(parser).wf(),
            old(state).wf(),
        ensures
            final(parser).wf(),
            final(state).wf(),
            advanced(*old(parser), *final(parser)),
            r is Ok ==> final(parser).pos > old(parser).pos,
            named_body(old(parser).code@, old(parser).pos as int, old(parser).end as int) is None ==> r is Err,
            r matches Ok(o) ==> named_body(old(parser).code@, old(parser).pos as int, old(parser).end as int) matches Some(
                (n, q, b),
            ) && {
                let c = old(parser).code@;
                &&& o.name@ == n
                &&& q + 6 <= b
                &&& o.unk1 == c[q]
                &&& o.unk2 == le4(c[q + 1], c[q + 2], c[q + 3], c[q + 4])
                &&& o.unk3 == c[q + 5]
                &&& final(parser).pos == b
                &&& terms_laid_out(c, o.term_list@, layout_starts(c, o.term_list@, q + 6, b), q + 6, b)
            },
            named_body(old(parser).code@, old(parser).pos as int, old(parser).end as int) matches Some((n, q, b)) && q + 6 <= b && control_bytes(old(parser).code@, q + 6, b) ==> r is Ok,
        decreases old(parser).end - old(parser).pos, 3int,
    {
        let ghost c = parser.code@;
        let ghost p = parser.pos as int;
        let ghost e = parser.end as int;
        let mut inner = parser.get_inner_parser()?;
        let ghost b = inner.end as int;
        assert(pkg_bounds(c, p, e) == Some((inner.pos as int, b)));
        let name = inner.parse_name()?;
        let ghost q = inner.pos as int;
        assert(named_body(c, p, e) == Some((name@, q, b)));
        let unk1 = inner.get_next_byte()?;
        let unk2 = inner.get_next_u32()?;
        let unk3 = inner.get_next_byte()?;
        let ghost t0 = inner.pos as int;
        assert(inner.code@ == c);
        let term_list = inner.parse_term_list(state)?;
        let ghost tl = term_list@;
        let ghost st = choose|st: Seq<int>| #[trigger] terms_laid_out(c, tl, st, t0, b);
        assert(terms_laid_out(c, tl, st, t0, b));
        inner.check_empty()?;
        let res = ProcessorDeprecated { name, unk1, unk2, unk3, term_list };
        assert(res.term_list@ == tl);
        assert(t0 == q + 6);
        assert(terms_laid_out(c, res.term_list@, st, q + 6, b));
        Ok(res)
    }
}

impl PowerResource {
    pub fn parse(parser: &mut Parser, state: &mut State) -> (r: Result<PowerResource, AmlParseError>)
        requires
            old(parser).wf(),
            old(state).wf(),
        ensures
            final(parser).wf(),
            final(state).wf(),
            advanced(*old(parser), *final(parser)),
            r is Ok ==> final(parser).pos > old(parser).pos,
            named_body(old(parser).code@, old(parser).pos as int, old(parser).end as int) is None ==> r is Err,
            r matches Ok(o) ==> named_body(old(parser).code@, old(parser).pos as int, old(parser).end as int) matches Some(
                (n, q, b),
            ) && {
                let c = old(parser).code@;
                &&& o.name@ == n
                &&& q + 3 <= b
                &&& o.system_level == c[q]
                &&& o.resource_order == le2(c[q + 1], c[q + 2])
                &&& final(parser).pos == b
                &&& terms_laid_out(c, o.term_list@, layout_starts(c, o.term_list@, q + 3, b), q + 3, b)
            },
            named_body(old(parser).code@, old(parser).pos as int, old(parser).end as int) matches Some((n, q, b)) && q + 3 <= b && control_bytes(old(parser).code@, q + 3, b) ==> r is Ok,
        decreases old(parser).end - old(parser).pos, 3int,
    {
        let ghost c = parser.code@;
        let ghost p = parser.pos as int;
        let ghost e = parser.end as int;
        let mut inner = parser.get_inner_parser()?;
        let ghost b = inner.end as int;
        assert(pkg_bounds(c, p, e) == Some((inner.pos as int, b)));
        let name = inner.parse_name()?;
        let ghost q = inner.pos as int;
        assert(named_body(c, p, e) == Some((name@, q, b)));
        let system_level = inner.get_next_byte()?;
        let resource_order = inner.get_next_u16()?;
        let ghost t0 = inner.pos as int;
        assert(inner.code@ == c);
        let term_list = inner.parse_term_list(state)?;
        let ghost tl = term_list@;
        let ghost st = choose|st: Seq<int>| #[trigger] terms_laid_out(c, tl, st, t0, b);
        assert(terms_laid_out(c, tl, st, t0, b));
        inner.check_empty()?;
        let res = PowerResource { name, system_level, resource_order, term_list };
        assert(res.term_list@ == tl);
        assert(t0 == q + 3);
        assert(terms_laid_out(c, res.term_list@, st, q + 3, b));
        Ok(res)
    }
}


impl<'a> Parser<'a> {
    /// Two term arguments and a target.
    fn parse_binary_op(&mut self, state: &mut State, first_non_method: bool, Ghost(bound): Ghost<int>) -> (r: Result<(TermArg, TermArg, Box<Target>), AmlParseError>)
        requires
            old(self).wf(),
            old(state).wf(),
            old(self).end - old(self).pos <= bound,
        ensures
            final(self).wf(),
            final(state).wf(),
            advanced(*old(self), *final(self)),
            r is Ok ==> final(self).pos > old(self).pos,
            r matches Ok((a, _, _)) ==> term_arg_fits(old(self).code@[old(self).pos as int], old(self).code@[old(self).pos + 1], a),
            simple_binary(old(self).code@, old(self).pos as int, old(self).end as int) matches Some((a0, b0, t0, q)) ==> (r
                matches Ok((a, b, t)) && a == a0 && b == b0 && *t == t0 && final(self).pos == q && *final(state) == *old(state)),
            r matches Ok((a, b, t)) ==> args_target_at(old(self).code@, old(self).pos as int, old(self).end as int, a, b, *t,
                final(self).pos as int),
        decreases bound, 5int,
    {
        let ghost s0 = self.code@;
        let ghost p0 = self.pos as int;
        let ghost e0 = self.end as int;
        let a = if first_non_method {
            self.parse_term_arg_non_method_arg(state)?
        } else {
            self.parse_term_arg(state)?
        };
        let ghost q1 = self.pos as int;
        let b = self.parse_term_arg(state)?;
        let ghost q2 = self.pos as int;
        let t = self.parse_target(state)?;
        assert(arg_at(s0, p0, e0, a, q1) && arg_at(s0, q1, e0, b, q2));
        assert(two_args_at(s0, p0, e0, a, b, q2));
        assert(target_at(s0, q2, e0, *t, self.pos as int));
        Ok((a, b, t))
    }

    /// A term argument and a target.
    fn parse_unary_op(&mut self, state: &mut State, Ghost(bound): Ghost<int>) -> (r: Result<(TermArg, Box<Target>), AmlParseError>)
        requires
            old(self).wf(),
            old(state).wf(),
            old(self).end - old(self).pos <= bound,
        ensures
            final(self).wf(),
            final(state).wf(),
            advanced(*old(self), *final(self)),
            r is Ok ==> final(self).pos > old(self).pos,
            r matches Ok((a, _)) ==> term_arg_fits(old(self).code@[old(self).pos as int], old(self).code@[old(self).pos + 1], a),
            simple_unary(old(self).code@, old(self).pos as int, old(self).end as int) matches Some((a0, t0, q)) ==> (r
                matches Ok((a, t)) && a == a0 && *t == t0 && final(self).pos == q && *final(state) == *old(state)),
            r matches Ok((a, t)) ==> arg_target_at(old(self).code@, old(self).pos as int, old(self).end as int, a, *t,
                final(self).pos as int),
        decreases bound, 5int,
    {
        let a = self.parse_term_arg(state)?;
        let t = self.parse_target(state)?;
        Ok((a, t))
    }

    /// Two term arguments.
    fn parse_two_args(&mut self, state: &mut State, Ghost(bound): Ghost<int>) -> (r: Result<(TermArg, TermArg), AmlParseError>)
        requires
            old(self).wf(),
            old(state).wf(),
            old(self).end - old(self).pos <= bound,
        ensures
            final(self).wf(),
            final(state).wf(),
            advanced(*old(self), *final(self)),
            r is Ok ==> final(self).pos > old(self).pos,
            r matches Ok((a, _)) ==> term_arg_fits(old(self).code@[old(self).pos as int], old(self).code@[old(self).pos + 1], a),
            simple_two(old(self).code@, old(self).pos as int, old(self).end as int) matches Some((a0, b0, q)) ==> (r
                matches Ok((a, b)) && a == a0 && b == b0 && final(self).pos == q && *final(state) == *old(state)),
            r matches Ok((a, b)) ==> two_args_at(old(self).code@, old(self).pos as int, old(self).end as int, a, b,
                final(self).pos as int),
        decreases bound, 5int,
    {
        let a = self.parse_term_arg(state)?;
        let b = self.parse_term_arg(state)?;
        Ok((a, b))
    }

    /// The rest of a term whose opcode `opcode` was just read. `None` when
    /// the opcode starts no term.
    pub fn try_parse_term(&mut self, state: &mut State, opcode: u8) -> (r: Result<Option<AmlTerm>, AmlParseError>)
        requires
            old(self).wf(),
            old(state).wf(),
        ensures
            final(self).wf(),
            final(state).wf(),
            final(self).code@ == old(self).code@,
            final(self).end == old(self).end,
            old(self).pos <= final(self).pos + 1,
            r matches Ok(Some(_)) ==> old(self).pos <= final(self).pos,
            r matches Ok(None) ==> old(self).pos > 0 && final(self).pos == old(self).pos - 1,
            r matches Ok(Some(AmlTerm::MethodCall(x, args))) ==> (recorded_method(*old(state), x@) ==> old(state).has_method(
                last_segment(x@),
                args@.len() as usize,
            )),
            r matches Ok(Some(x)) ==> term_operands_at(
                opcode,
                old(self).code@,
                old(self).pos as int,
                old(self).end as int,
                x,
                final(self).pos as int,
            ),
            !known_opcode(opcode) && old(self).pos > 0 && name_at(old(self).code@, old(self).pos - 1, old(self).end as int)
                is NotName ==> r == Ok::<Option<AmlTerm>, AmlParseError>(None),
            simple_term(opcode, old(self).code@, old(self).pos as int, old(self).end as int) matches Some((x, q)) ==> r
                == Ok::<Option<AmlTerm>, AmlParseError>(Some(x)) && final(self).pos == q && *final(state) == *old(state),
            r matches Ok(Some(t)) ==> opcode_term(opcode, old(self).code@[old(self).pos as int], t),
            r matches Ok(None) ==> !known_opcode(opcode),
            opcode == 0x5B && old(self).pos < old(self).end && !known_extended(old(self).code@[old(self).pos as int])
                ==> r == Err::<Option<AmlTerm>, AmlParseError>(AmlParseError::UnknownOpcode(old(self).code@[old(self).pos as int])),
            opcode == 0x14 ==> (r matches Ok(Some(AmlTerm::Method(m))) ==> named_body(
                old(self).code@,
                old(self).pos as int,
                old(self).end as int,
            ) matches Some((n, q, b)) && m.name@ == n && n.len() >= 4 && m.flags == old(self).code@[q]
                && final(self).pos == b && final(state).has_method(last_segment(n), (m.flags % 8) as usize)),
            opcode == 0x14 ==> (named_body(old(self).code@, old(self).pos as int, old(self).end as int) matches Some((n, q, b))
                ==> (n.len() >= 4 && q < b ==> (simple_terms(old(self).code@, q + 1, b) matches Some(ts) ==> (r matches Ok(
                Some(AmlTerm::Method(m)),
            ) && m.term_list@ == ts && (forall|k: Seq<char>, c: usize|
                k != last_segment(n) ==> (final(state).has_method(k, c) == old(state).has_method(k, c)))
                && (forall|c: usize| final(state).has_method(last_segment(n), c) <==> c == (m.flags % 8) as usize)
                && (forall|k: Seq<char>| final(state).has_name(k) == old(state).has_name(k)))))),
            opcode == 0xA3 ==> (r matches Ok(Some(t)) && t is Noop && final(self).pos == old(self).pos),
            opcode == 0xA5 ==> (r matches Ok(Some(t)) && t is Break && final(self).pos == old(self).pos),
        decreases old(self).end - old(self).pos, 6int,
    {
        let ghost b = self.end - self.pos;
        let term = if opcode == 0x06 {
            let original_name = self.parse_name()?;
            let aliased_name = self.parse_name()?;
            state.add_name(crate::text::copy_string(&aliased_name));
            state.add_name(crate::text::copy_string(&original_name));
            AmlTerm::Alias(original_name, aliased_name)
        } else if opcode == 0x08 {
            proof {
                lemma_name_advances(self.code@, self.pos as int, self.end as int);
            }
            let name = self.parse_name()?;
            state.add_name(crate::text::copy_string(&name));
            let data_object = match self.try_parse_data_object(state)? {
                Some(d) => d,
                None => {
                    return Err(AmlParseError::NameObjectNotContainingDataObject);
                },
            };
            let data_object = match data_object {
                UnresolvedDataObject::Integer(IntegerData::DWordConst(data)) => {
                    if crate::text::contains_pair(name.as_str(), 'I', 'D') {
                        UnresolvedDataObject::EisaId(Self::parse_eisa_id(data))
                    } else {
                        UnresolvedDataObject::Integer(IntegerData::DWordConst(data))
                    }
                },
                other => other,
            };
            AmlTerm::NameObj(name, data_object)
        } else if opcode == 0x10 {
            AmlTerm::Scope(ScopeObj::parse(self, state)?)
        } else if opcode == 0x14 {
            let method = MethodObj::parse(self, state)?;
            if crate::text::char_len(method.name.as_str()) < 4 {
                return Err(AmlParseError::InvalidName);
            }
            let count = method.arg_count();
            state.add_method(method.name.as_str(), count);
            AmlTerm::Method(method)
        } else if opcode == 0x5B {
            // extended opcodes
            let inner_opcode = self.get_next_byte()?;
            if inner_opcode == 0x01 {
                let name = self.parse_name()?;
                let flags = self.get_next_byte()?;
                AmlTerm::Mutex(name, flags)
            } else if inner_opcode == 0x02 {
                AmlTerm::Event(self.parse_name()?)
            } else if inner_opcode == 0x12 {
                let a = self.parse_target(state)?;
                let t = self.parse_target(state)?;
                AmlTerm::CondRefOf(a, t)
            } else if inner_opcode == 0x13 {
                let a = self.parse_term_arg(state)?;
                let c = self.parse_term_arg(state)?;
                let d = self.parse_term_arg(state)?;
                let name = self.parse_name()?;
                AmlTerm::CreateFieldOp(a, c, d, name)
            } else if inner_opcode == 0x21 {
                AmlTerm::Stall(self.parse_term_arg(state)?)
            } else if inner_opcode == 0x22 {
                AmlTerm::Sleep(self.parse_term_arg(state)?)
            } else if inner_opcode == 0x23 {
                let t = self.parse_target(state)?;
                let timeout = self.get_next_u16()?;
                AmlTerm::Acquire(t, timeout)
            } else if inner_opcode == 0x24 {
                AmlTerm::Signal(self.parse_target(state)?)
            } else if inner_opcode == 0x25 {
                let t = self.parse_target(state)?;
                let a = self.parse_term_arg(state)?;
                AmlTerm::Wait(t, a)
            } else if inner_opcode == 0x26 {
                AmlTerm::Reset(self.parse_target(state)?)
            } else if inner_opcode == 0x27 {
                AmlTerm::Release(self.parse_target(state)?)
            } else if inner_opcode == 0x80 {
                AmlTerm::Region(RegionObj::parse(self, state)?)
            } else if inner_opcode == 0x81 {
                AmlTerm::Field(FieldDef::parse(self, state)?)
            } else if inner_opcode == 0x82 {
                AmlTerm::Device(ScopeObj::parse(self, state)?)
            } else if inner_opcode == 0x83 {
                AmlTerm::Processor(ProcessorDeprecated::parse(self, state)?)
            } else if inner_opcode == 0x84 {
                AmlTerm::PowerResource(PowerResource::parse(self, state)?)
            } else if inner_opcode == 0x86 {
                AmlTerm::IndexField(IndexFieldDef::parse(self, state)?)
            } else {
                return Err(AmlParseError::UnknownOpcode(inner_opcode));
            }
        } else if opcode == 0x70 {
            let (a, t) = self.parse_unary_op(state, Ghost(b))?;
            AmlTerm::Store(a, t)
        } else if opcode == 0x71 {
            AmlTerm::RefOf(self.parse_target(state)?)
        } else if opcode == 0x72 {
            let (a, c, t) = self.parse_binary_op(state, false, Ghost(b))?;
            AmlTerm::Add(a, c, t)
        } else if opcode == 0x73 {
            let (a, c, t) = self.parse_binary_op(state, false, Ghost(b))?;
            AmlTerm::Concat(a, c, t)
        } else if opcode == 0x74 {
            let (a, c, t) = self.parse_binary_op(state, false, Ghost(b))?;
            AmlTerm::Subtract(a, c, t)
        } else if opcode == 0x75 {
            AmlTerm::Increment(self.parse_target(state)?)
        } else if opcode == 0x76 {
            AmlTerm::Decrement(self.parse_target(state)?)
        } else if opcode == 0x77 {
            let (a, c, t) = self.parse_binary_op(state, false, Ghost(b))?;
            AmlTerm::Multiply(a, c, t)
        } else if opcode == 0x78 {
            let (a, c, t) = self.parse_binary_op(state, false, Ghost(b))?;
            let t2 = self.parse_target(state)?;
            AmlTerm::Divide(a, c, t, t2)
        } else if opcode == 0x79 {
            let (a, c, t) = self.parse_binary_op(state, true, Ghost(b))?;
            AmlTerm::ShiftLeft(a, c, t)
        } else if opcode == 0x7A {
            let (a, c, t) = self.parse_binary_op(state, true, Ghost(b))?;
            AmlTerm::ShiftRight(a, c, t)
        } else if opcode == 0x7B {
            let (a, c, t) = self.parse_binary_op(state, true, Ghost(b))?;
            AmlTerm::And(a, c, t)
        } else if opcode == 0x7C {
            let (a, c, t) = self.parse_binary_op(state, false, Ghost(b))?;
            AmlTerm::Nand(a, c, t)
        } else if opcode == 0x7D {
            let (a, c, t) = self.parse_binary_op(state, false, Ghost(b))?;
            AmlTerm::Or(a, c, t)
        } else if opcode == 0x7E {
            let (a, c, t) = self.parse_binary_op(state, false, Ghost(b))?;
            AmlTerm::Nor(a, c, t)
        } else if opcode == 0x7F {
            let (a, c, t) = self.parse_binary_op(state, false, Ghost(b))?;
            AmlTerm::Xor(a, c, t)
        } else if opcode == 0x80 {
            let (a, t) = self.parse_unary_op(state, Ghost(b))?;
            AmlTerm::Not(a, t)
        } else if opcode == 0x81 {
            let (a, t) = self.parse_unary_op(state, Ghost(b))?;
            AmlTerm::FindSetLeftBit(a, t)
        } else if opcode == 0x82 {
            let (a, t) = self.parse_unary_op(state, Ghost(b))?;
            AmlTerm::FindSetRightBit(a, t)
        } else if opcode == 0x83 {
            AmlTerm::DerefOf(self.parse_term_arg(state)?)
        } else if opcode == 0x84 {
            let (a, c, t) = self.parse_binary_op(state, false, Ghost(b))?;
            AmlTerm::ConcatRes(a, c, t)
        } else if opcode == 0x85 {
            let (a, c, t) = self.parse_binary_op(state, false, Ghost(b))?;
            AmlTerm::Mod(a, c, t)
        } else if opcode == 0x86 {
            let t = self.parse_target(state)?;
            let a = self.parse_term_arg(state)?;
            AmlTerm::Notify(t, a)
        } else if opcode == 0x87 {
            AmlTerm::SizeOf(self.parse_target(state)?)
        } else if opcode == 0x88 {
            let (a, c, t) = self.parse_binary_op(state, false, Ghost(b))?;
            AmlTerm::Index(a, c, t)
        } else if (0x8A <= opcode && opcode <= 0x8D) || opcode == 0x8F {
            let (term1, term2) = self.parse_two_args(state, Ghost(b))?;
            let name = self.parse_name()?;
            state.add_name(crate::text::copy_string(&name));
            if opcode == 0x8A {
                AmlTerm::CreateDWordField(term1, term2, name)
            } else if opcode == 0x8B {
                AmlTerm::CreateWordField(term1, term2, name)
            } else if opcode == 0x8C {
                AmlTerm::CreateByteField(term1, term2, name)
            } else if opcode == 0x8D {
                AmlTerm::CreateBitField(term1, term2, name)
            } else {
                AmlTerm::CreateQWordField(term1, term2, name)
            }
        } else if opcode == 0x8E {
            AmlTerm::ObjectType(self.parse_target(state)?)
        } else if opcode == 0x90 {
            let (a, c) = self.parse_two_args(state, Ghost(b))?;
            AmlTerm::LAnd(a, c)
        } else if opcode == 0x91 {
            let (a, c) = self.parse_two_args(state, Ghost(b))?;
            AmlTerm::LOr(a, c)
        } else if opcode == 0x92 {
            let next_byte = self.peek_next_byte()?;
            if next_byte == 0x93 {
                self.forward(1)?;
                let (a, c) = self.parse_two_args(state, Ghost(b))?;
                AmlTerm::LNotEqual(a, c)
            } else if next_byte == 0x94 {
                self.forward(1)?;
                let (a, c) = self.parse_two_args(state, Ghost(b))?;
                AmlTerm::LLessEqual(a, c)
            } else if next_byte == 0x95 {
                self.forward(1)?;
                let (a, c) = self.parse_two_args(state, Ghost(b))?;
                AmlTerm::LGreaterEqual(a, c)
            } else {
                AmlTerm::LNot(self.parse_term_arg(state)?)
            }
        } else if opcode == 0x93 {
            let (a, c) = self.parse_two_args(state, Ghost(b))?;
            AmlTerm::LEqual(a, c)
        } else if opcode == 0x94 {
            let (a, c) = self.parse_two_args(state, Ghost(b))?;
            AmlTerm::LGreater(a, c)
        } else if opcode == 0x95 {
            let (a, c) = self.parse_two_args(state, Ghost(b))?;
            AmlTerm::LLess(a, c)
        } else if opcode == 0x96 {
            let (a, t) = self.parse_unary_op(state, Ghost(b))?;
            AmlTerm::ToBuffer(a, t)
        } else if opcode == 0x97 {
            let (a, t) = self.parse_unary_op(state, Ghost(b))?;
            AmlTerm::ToDecimalString(a, t)
        } else if opcode == 0x98 {
            let (a, t) = self.parse_unary_op(state, Ghost(b))?;
            AmlTerm::ToHexString(a, t)
        } else if opcode == 0x99 {
            let (a, t) = self.parse_unary_op(state, Ghost(b))?;
            AmlTerm::ToInteger(a, t)
        } else if opcode == 0x9E {
            let (a, c) = self.parse_two_args(state, Ghost(b))?;
            let d = self.parse_term_arg(state)?;
            let t = self.parse_target(state)?;
            AmlTerm::Mid(a, c, d, t)
        } else if opcode == 0xA0 {
            AmlTerm::If(PredicateBlock::parse(self, state)?)
        } else if opcode == 0xA1 {
            let mut inner = self.get_inner_parser()?;
            let else_list = inner.parse_term_list(state)?;
            inner.check_empty()?;
            AmlTerm::Else(else_list)
        } else if opcode == 0xA2 {
            AmlTerm::While(PredicateBlock::parse(self, state)?)
        } else if opcode == 0xA3 {
            AmlTerm::Noop
        } else if opcode == 0xA4 {
            // parsed as the last argument of a statement
            AmlTerm::Return(self.parse_term_arg_last(state)?)
        } else if opcode == 0xA5 {
            AmlTerm::Break
        } else {
            // a method call: the opcode byte is the start of its name
            self.backward(1)?;
            let start = self.pos;
            proof {
                lemma_name_advances(self.code@, self.pos as int, self.end as int);
            }
            let name = match self.try_parse_name()? {
                Some(n) => n,
                None => {
                    // the opcode byte is given back to the caller, as no term starts there
                    return Ok(None);
                },
            };
            if crate::text::char_len(name.as_str()) < 4 {
                return Err(AmlParseError::InvalidName);
            }
            if self.pos - start < 2 {
                // a four character name takes at least two bytes
                return Err(AmlParseError::InvalidName);
            }
            let n_args = match state.find_method(name.as_str()) {
                Some(n) => n,
                None => self.predict_possible_args(state, false, name.as_str()),
            };
            let args = self.parse_args(state, n_args, Ghost(b))?;
            AmlTerm::MethodCall(name, args)
        };
        Ok(Some(term))
    }
}
} // verus!
