use vstd::prelude::*;

use crate::isa::{ImmediateN6, ImmediateN8, Instruction, RegLabel};
use crate::memory::MemAddr;
use crate::spec_norm_n;
use crate::text::{chars_eq_str, spec_tokens, tokens_of, views};

verus! {

/// What can go wrong reading a register token.
#[derive(Clone, Copy, PartialEq, Eq, Structural, Debug)]
pub enum RegLabelError {
    /// The token is too short to name a register.
    MissingNumber,
    /// The token is not `R` followed by one digit 0 to 7.
    UnrecognizedNumber,
}

/// What can go wrong decoding one instruction line.
#[derive(Clone, Copy, PartialEq, Eq, Structural, Debug)]
pub enum ParseError {
    /// The line holds no verb at all.
    MissingVerb,
    /// The verb wants an immediate operand that is not there.
    MissingImmediate,
    /// The verb wants a destination operand that is not there.
    MissingDestination,
    /// The verb wants a register operand that is not there.
    MissingReg,
    /// The verb token is empty.
    EmptyVerb,
    /// A numeral operand failed to parse.
    ParseInt,
    /// An immediate operand does not fit its fixed bit width.
    ImmediateOverflow,
    /// A register token is malformed.
    RegLabel(RegLabelError),
    /// The verb names no instruction of the machine.
    UnrecognizedInstruction,
}

/// A line readied for tokenizing: every `(` becomes a space, so that an
/// `OFF(Rn)` operand splits into its offset and its register, and every `)`
/// and `,` disappears.
pub open spec fn spec_normalize(s: Seq<char>) -> Seq<char>
    decreases s.len(),
{
    if s.len() == 0 {
        Seq::empty()
    } else {
        let p = spec_normalize(s.drop_last());
        let c = s.last();
        if c == '(' {
            p.push(' ')
        } else if c == ')' || c == ',' {
            p
        } else {
            p.push(c)
        }
    }
}

/// Ready a line for tokenizing, as `spec_normalize` describes.
pub fn normalize(v: &Vec<char>) -> (r: Vec<char>)
    ensures
        r@ == spec_normalize(v@),
{
    let mut r: Vec<char> = Vec::new();
    let n = v.len();
    let mut i: usize = 0;
    while i < n
        invariant
            i <= n,
            n == v@.len(),
            r@ == spec_normalize(v@.take(i as int)),
        decreases n - i,
    {
        let c = v[i];
        proof {
            assert(v@.take(i + 1).drop_last() =~= v@.take(i as int));
        }
        if c == '(' {
            r.push(' ');
        } else if c == ')' || c == ',' {
        } else {
            r.push(c);
        }
        i = i + 1;
    }
    proof {
        assert(v@.take(n as int) =~= v@);
    }
    r
}

/// What reading a register token yields: `R` followed by one digit 0 to 7
/// names that register slot; anything else is an error.
pub open spec fn spec_parse_reg(t: Seq<char>) -> Result<RegLabel, RegLabelError> {
    if t.len() < 2 {
        Err(RegLabelError::MissingNumber)
    } else if t.len() == 2 && t[0] == 'R' && 48 <= t[1] as u32 && t[1] as u32 <= 55 {
        Ok(RegLabel((t[1] as u32 - 48) as u8))
    } else {
        Err(RegLabelError::UnrecognizedNumber)
    }
}

/// Read a register token, as `spec_parse_reg` describes.
pub fn parse_reg_token(t: &Vec<char>) -> (r: Result<RegLabel, RegLabelError>)
    ensures
        r == spec_parse_reg(t@),
        r matches Ok(l) ==> l.wf(),
{
    if t.len() < 2 {
        Err(RegLabelError::MissingNumber)
    } else if t.len() == 2 && t[0] == 'R' {
        let u = t[1] as u32;
        if 48 <= u && u <= 55 {
            Ok(RegLabel((u - 48) as u8))
        } else {
            Err(RegLabelError::UnrecognizedNumber)
        }
    } else {
        Err(RegLabelError::UnrecognizedNumber)
    }
}

/// Whether a 16-bit numeral fits a 6-bit two's-complement immediate: either
/// a raw 6-bit pattern or a negative written in full 16-bit form.
pub open spec fn fits6(v: u16) -> bool {
    v < 0x40 || v >= 0xFFE0
}

/// Whether a 16-bit numeral fits an 8-bit two's-complement immediate.
pub open spec fn fits8(v: u16) -> bool {
    v < 0x100 || v >= 0xFF80
}

/// The register operand at token position `i`.
pub open spec fn reg_at(ts: Seq<Seq<char>>, i: int) -> Result<RegLabel, ParseError> {
    if i < ts.len() {
        match spec_parse_reg(ts[i]) {
            Ok(l) => Ok(l),
            Err(e) => Err(ParseError::RegLabel(e)),
        }
    } else {
        Err(ParseError::MissingReg)
    }
}

/// The 6-bit immediate operand at token position `i`: its numeral must fit
/// the width; the low 6 bits are kept.
pub open spec fn imm6_at(ts: Seq<Seq<char>>, i: int) -> Result<ImmediateN6, ParseError> {
    if i < ts.len() {
        match spec_norm_n(ts[i]) {
            Some(v) => if fits6(v) {
                Ok(ImmediateN6((v & 0x3F) as u8))
            } else {
                Err(ParseError::ImmediateOverflow)
            },
            None => Err(ParseError::ParseInt),
        }
    } else {
        Err(ParseError::MissingImmediate)
    }
}

/// The 8-bit immediate operand at token position `i`.
pub open spec fn imm8_at(ts: Seq<Seq<char>>, i: int) -> Result<ImmediateN8, ParseError> {
    if i < ts.len() {
        match spec_norm_n(ts[i]) {
            Some(v) => if fits8(v) {
                Ok(ImmediateN8((v & 0xFF) as u8))
            } else {
                Err(ParseError::ImmediateOverflow)
            },
            None => Err(ParseError::ParseInt),
        }
    } else {
        Err(ParseError::MissingImmediate)
    }
}

/// The port address operand at token position `i`: any 16-bit numeral.
pub open spec fn addr_at(ts: Seq<Seq<char>>, i: int) -> Result<MemAddr, ParseError> {
    if i < ts.len() {
        match spec_norm_n(ts[i]) {
            Some(v) => Ok(MemAddr(v)),
            None => Err(ParseError::ParseInt),
        }
    } else {
        Err(ParseError::MissingImmediate)
    }
}

/// Three register operands at positions 1, 2 and 3, first fault first.
pub open spec fn rrr_at(ts: Seq<Seq<char>>) -> Result<
    (RegLabel, RegLabel, RegLabel),
    ParseError,
> {
    match reg_at(ts, 1) {
        Err(e) => Err(e),
        Ok(x) => match reg_at(ts, 2) {
            Err(e) => Err(e),
            Ok(y) => match reg_at(ts, 3) {
                Err(e) => Err(e),
                Ok(z) => Ok((x, y, z)),
            },
        },
    }
}

/// The verb of one instruction line, recognized by name; `Unknown` for a
/// verb that names no instruction of the machine.
#[derive(Clone, Copy, PartialEq, Eq, Structural, Debug)]
#[allow(missing_docs)]
pub enum VerbKind {
    And,
    Or,
    Xor,
    Not,
    Add,
    Sub,
    Sha,
    Shl,
    Cmplt,
    Cmple,
    Cmpeq,
    Cmpltu,
    Cmpleu,
    Addi,
    Ld,
    Ldb,
    St,
    Stb,
    Bz,
    Bnz,
    Movi,
    Movhi,
    InV,
    OutV,
    Jalr,
    Nop,
    Unknown,
}

/// Which verb a token names.
pub open spec fn spec_verb_kind(t: Seq<char>) -> VerbKind {
    if t == "AND"@ {
        VerbKind::And
    } else if t == "OR"@ {
        VerbKind::Or
    } else if t == "XOR"@ {
        VerbKind::Xor
    } else if t == "NOT"@ {
        VerbKind::Not
    } else if t == "ADD"@ {
        VerbKind::Add
    } else if t == "SUB"@ {
        VerbKind::Sub
    } else if t == "SHA"@ {
        VerbKind::Sha
    } else if t == "SHL"@ {
        VerbKind::Shl
    } else if t == "CMPLT"@ {
        VerbKind::Cmplt
    } else if t == "CMPLE"@ {
        VerbKind::Cmple
    } else if t == "CMPEQ"@ {
        VerbKind::Cmpeq
    } else if t == "CMPLTU"@ {
        VerbKind::Cmpltu
    } else if t == "CMPLEU"@ {
        VerbKind::Cmpleu
    } else if t == "ADDI"@ {
        VerbKind::Addi
    } else if t == "LD"@ {
        VerbKind::Ld
    } else if t == "LDB"@ {
        VerbKind::Ldb
    } else if t == "ST"@ {
        VerbKind::St
    } else if t == "STB"@ {
        VerbKind::Stb
    } else if t == "BZ"@ {
        VerbKind::Bz
    } else if t == "BNZ"@ {
        VerbKind::Bnz
    } else if t == "MOVI"@ {
        VerbKind::Movi
    } else if t == "MOVHI"@ {
        VerbKind::Movhi
    } else if t == "IN"@ {
        VerbKind::InV
    } else if t == "OUT"@ {
        VerbKind::OutV
    } else if t == "JALR"@ {
        VerbKind::Jalr
    } else if t == "NOP"@ {
        VerbKind::Nop
    } else {
        VerbKind::Unknown
    }
}

/// Recognize which verb a token names.
pub fn verb_kind(t: &Vec<char>) -> (r: VerbKind)
    ensures
        r == spec_verb_kind(t@),
{
    if chars_eq_str(t, "AND") {
        VerbKind::And
    } else if chars_eq_str(t, "OR") {
        VerbKind::Or
    } else if chars_eq_str(t, "XOR") {
        VerbKind::Xor
    } else if chars_eq_str(t, "NOT") {
        VerbKind::Not
    } else if chars_eq_str(t, "ADD") {
        VerbKind::Add
    } else if chars_eq_str(t, "SUB") {
        VerbKind::Sub
    } else if chars_eq_str(t, "SHA") {
        VerbKind::Sha
    } else if chars_eq_str(t, "SHL") {
        VerbKind::Shl
    } else if chars_eq_str(t, "CMPLT") {
        VerbKind::Cmplt
    } else if chars_eq_str(t, "CMPLE") {
        VerbKind::Cmple
    } else if chars_eq_str(t, "CMPEQ") {
        VerbKind::Cmpeq
    } else if chars_eq_str(t, "CMPLTU") {
        VerbKind::Cmpltu
    } else if chars_eq_str(t, "CMPLEU") {
        VerbKind::Cmpleu
    } else if chars_eq_str(t, "ADDI") {
        VerbKind::Addi
    } else if chars_eq_str(t, "LD") {
        VerbKind::Ld
    } else if chars_eq_str(t, "LDB") {
        VerbKind::Ldb
    } else if chars_eq_str(t, "ST") {
        VerbKind::St
    } else if chars_eq_str(t, "STB") {
        VerbKind::Stb
    } else if chars_eq_str(t, "BZ") {
        VerbKind::Bz
    } else if chars_eq_str(t, "BNZ") {
        VerbKind::Bnz
    } else if chars_eq_str(t, "MOVI") {
        VerbKind::Movi
    } else if chars_eq_str(t, "MOVHI") {
        VerbKind::Movhi
    } else if chars_eq_str(t, "IN") {
        VerbKind::InV
    } else if chars_eq_str(t, "OUT") {
        VerbKind::OutV
    } else if chars_eq_str(t, "JALR") {
        VerbKind::Jalr
    } else if chars_eq_str(t, "NOP") {
        VerbKind::Nop
    } else {
        VerbKind::Unknown
    }
}

/// What decoding a token list yields: the verb picks the shape, then the
/// operands are read left to right, and the first fault wins. Register-form
/// verbs take destination first (`ADD Rd, Ra, Rb`); loads take `Rd, OFF(Ra)`;
/// stores take `OFF(Ra), Rb`; branches take `Ra, OFF`.
pub open spec fn spec_decode_tokens(ts: Seq<Seq<char>>) -> Result<Instruction, ParseError> {
    if ts.len() == 0 {
        Err(ParseError::MissingVerb)
    } else {
        match spec_verb_kind(ts[0]) {
            VerbKind::And => match rrr_at(ts) {
                Ok((d, a, b)) => Ok(Instruction::AND { a, b, d }),
                Err(e) => Err(e),
            },
            VerbKind::Or => match rrr_at(ts) {
                Ok((d, a, b)) => Ok(Instruction::OR { a, b, d }),
                Err(e) => Err(e),
            },
            VerbKind::Xor => match rrr_at(ts) {
                Ok((d, a, b)) => Ok(Instruction::XOR { a, b, d }),
                Err(e) => Err(e),
            },
            VerbKind::Add => match rrr_at(ts) {
                Ok((d, a, b)) => Ok(Instruction::ADD { a, b, d }),
                Err(e) => Err(e),
            },
            VerbKind::Sub => match rrr_at(ts) {
                Ok((d, a, b)) => Ok(Instruction::SUB { a, b, d }),
                Err(e) => Err(e),
            },
            VerbKind::Sha => match rrr_at(ts) {
                Ok((d, a, b)) => Ok(Instruction::SHA { a, b, d }),
                Err(e) => Err(e),
            },
            VerbKind::Shl => match rrr_at(ts) {
                Ok((d, a, b)) => Ok(Instruction::SHL { a, b, d }),
                Err(e) => Err(e),
            },
            VerbKind::Cmplt => match rrr_at(ts) {
                Ok((d, a, b)) => Ok(Instruction::CMPLT { a, b, d }),
                Err(e) => Err(e),
            },
            VerbKind::Cmple => match rrr_at(ts) {
                Ok((d, a, b)) => Ok(Instruction::CMPLE { a, b, d }),
                Err(e) => Err(e),
            },
            VerbKind::Cmpeq => match rrr_at(ts) {
                Ok((d, a, b)) => Ok(Instruction::CMPEQ { a, b, d }),
                Err(e) => Err(e),
            },
            VerbKind::Cmpltu => match rrr_at(ts) {
                Ok((d, a, b)) => Ok(Instruction::CMPLTU { a, b, d }),
                Err(e) => Err(e),
            },
            VerbKind::Cmpleu => match rrr_at(ts) {
                Ok((d, a, b)) => Ok(Instruction::CMPLEU { a, b, d }),
                Err(e) => Err(e),
            },
            VerbKind::Not => match (reg_at(ts, 1), reg_at(ts, 2)) {
                (Err(e), _) => Err(e),
                (Ok(_), Err(e)) => Err(e),
                (Ok(d), Ok(a)) => Ok(Instruction::NOT { a, d }),
            },
            VerbKind::Addi => match (reg_at(ts, 1), reg_at(ts, 2), imm6_at(ts, 3)) {
                (Err(e), _, _) => Err(e),
                (Ok(_), Err(e), _) => Err(e),
                (Ok(_), Ok(_), Err(e)) => Err(e),
                (Ok(d), Ok(a), Ok(b)) => Ok(Instruction::ADDI { a, b, d }),
            },
            VerbKind::Bz => match (reg_at(ts, 1), imm8_at(ts, 2)) {
                (Err(e), _) => Err(e),
                (Ok(_), Err(e)) => Err(e),
                (Ok(a), Ok(offset)) => Ok(Instruction::BZ { a, offset }),
            },
            VerbKind::Bnz => match (reg_at(ts, 1), imm8_at(ts, 2)) {
                (Err(e), _) => Err(e),
                (Ok(_), Err(e)) => Err(e),
                (Ok(a), Ok(offset)) => Ok(Instruction::BNZ { a, offset }),
            },
            VerbKind::Movi => match (reg_at(ts, 1), imm8_at(ts, 2)) {
                (Err(e), _) => Err(e),
                (Ok(_), Err(e)) => Err(e),
                (Ok(d), Ok(n)) => Ok(Instruction::MOVI { d, n }),
            },
            VerbKind::Movhi => match (reg_at(ts, 1), imm8_at(ts, 2)) {
                (Err(e), _) => Err(e),
                (Ok(_), Err(e)) => Err(e),
                (Ok(d), Ok(n)) => Ok(Instruction::MOVHI { d, n }),
            },
            VerbKind::St => match (imm6_at(ts, 1), reg_at(ts, 2), reg_at(ts, 3)) {
                (Err(e), _, _) => Err(e),
                (Ok(_), Err(e), _) => Err(e),
                (Ok(_), Ok(_), Err(e)) => Err(e),
                (Ok(offset), Ok(a), Ok(b)) => Ok(Instruction::ST { offset, a, b }),
            },
            VerbKind::Stb => match (imm6_at(ts, 1), reg_at(ts, 2), reg_at(ts, 3)) {
                (Err(e), _, _) => Err(e),
                (Ok(_), Err(e), _) => Err(e),
                (Ok(_), Ok(_), Err(e)) => Err(e),
                (Ok(offset), Ok(a), Ok(b)) => Ok(Instruction::STB { offset, a, b }),
            },
            VerbKind::Ld => match (reg_at(ts, 1), imm6_at(ts, 2), reg_at(ts, 3)) {
                (Err(e), _, _) => Err(e),
                (Ok(_), Err(e), _) => Err(e),
                (Ok(_), Ok(_), Err(e)) => Err(e),
                (Ok(d), Ok(offset), Ok(a)) => Ok(Instruction::LD { d, a, offset }),
            },
            VerbKind::Ldb => match (reg_at(ts, 1), imm6_at(ts, 2), reg_at(ts, 3)) {
                (Err(e), _, _) => Err(e),
                (Ok(_), Err(e), _) => Err(e),
                (Ok(_), Ok(_), Err(e)) => Err(e),
                (Ok(d), Ok(offset), Ok(a)) => Ok(Instruction::LDB { d, a, offset }),
            },
            VerbKind::OutV => match (addr_at(ts, 1), reg_at(ts, 2)) {
                (Err(e), _) => Err(e),
                (Ok(_), Err(e)) => Err(e),
                (Ok(d), Ok(n)) => Ok(Instruction::OUT { d, n }),
            },
            VerbKind::InV => match (reg_at(ts, 1), addr_at(ts, 2)) {
                (Err(e), _) => Err(e),
                (Ok(_), Err(e)) => Err(e),
                (Ok(d), Ok(n)) => Ok(Instruction::IN { d, n }),
            },
            VerbKind::Jalr => match (reg_at(ts, 1), reg_at(ts, 2)) {
                (Err(e), _) => Err(e),
                (Ok(_), Err(e)) => Err(e),
                (Ok(d), Ok(a)) => Ok(Instruction::JALR { a, d }),
            },
            VerbKind::Nop => Ok(Instruction::NOP),
            VerbKind::Unknown => Err(ParseError::UnrecognizedInstruction),
        }
    }
}

/// What decoding one literal source line yields: the line is readied for
/// tokenizing, split into tokens, and decoded.
pub open spec fn spec_decode_line(s: Seq<char>) -> Result<Instruction, ParseError> {
    spec_decode_tokens(spec_tokens(spec_normalize(s)))
}

/// Read the register operand at token position `i`.
fn reg_arg(ts: &Vec<Vec<char>>, i: usize) -> (r: Result<RegLabel, ParseError>)
    ensures
        r == reg_at(views(ts@), i as int),
        r matches Ok(l) ==> l.wf(),
{
    if i < ts.len() {
        match parse_reg_token(&ts[i]) {
            Ok(l) => Ok(l),
            Err(e) => Err(ParseError::RegLabel(e)),
        }
    } else {
        Err(ParseError::MissingReg)
    }
}

/// Read the 6-bit immediate operand at token position `i`.
fn imm6_arg(ts: &Vec<Vec<char>>, i: usize) -> (r: Result<ImmediateN6, ParseError>)
    ensures
        r == imm6_at(views(ts@), i as int),
        r matches Ok(m) ==> m.wf(),
{
    if i < ts.len() {
        match crate::norm_chars(&ts[i]) {
            Some(v) => {
                if v < 0x40 || v >= 0xFFE0 {
                    assert(v & 0x3F < 0x40) by (bit_vector);
                    Ok(ImmediateN6((v & 0x3F) as u8))
                } else {
                    Err(ParseError::ImmediateOverflow)
                }
            },
            None => Err(ParseError::ParseInt),
        }
    } else {
        Err(ParseError::MissingImmediate)
    }
}

/// Read the 8-bit immediate operand at token position `i`.
fn imm8_arg(ts: &Vec<Vec<char>>, i: usize) -> (r: Result<ImmediateN8, ParseError>)
    ensures
        r == imm8_at(views(ts@), i as int),
{
    if i < ts.len() {
        match crate::norm_chars(&ts[i]) {
            Some(v) => {
                if v < 0x100 || v >= 0xFF80 {
                    Ok(ImmediateN8((v & 0xFF) as u8))
                } else {
                    Err(ParseError::ImmediateOverflow)
                }
            },
            None => Err(ParseError::ParseInt),
        }
    } else {
        Err(ParseError::MissingImmediate)
    }
}

/// Read the port address operand at token position `i`.
fn addr_arg(ts: &Vec<Vec<char>>, i: usize) -> (r: Result<MemAddr, ParseError>)
    ensures
        r == addr_at(views(ts@), i as int),
{
    if i < ts.len() {
        match crate::norm_chars(&ts[i]) {
            Some(v) => Ok(MemAddr(v)),
            None => Err(ParseError::ParseInt),
        }
    } else {
        Err(ParseError::MissingImmediate)
    }
}

/// Read three register operands at positions 1, 2 and 3.
fn rrr_args(ts: &Vec<Vec<char>>) -> (r: Result<(RegLabel, RegLabel, RegLabel), ParseError>)
    ensures
        r == rrr_at(views(ts@)),
        r matches Ok(t) ==> t.0.wf() && t.1.wf() && t.2.wf(),
{
    let x = match reg_arg(ts, 1) {
        Ok(x) => x,
        Err(e) => {
            return Err(e);
        },
    };
    let y = match reg_arg(ts, 2) {
        Ok(y) => y,
        Err(e) => {
            return Err(e);
        },
    };
    let z = match reg_arg(ts, 3) {
        Ok(z) => z,
        Err(e) => {
            return Err(e);
        },
    };
    Ok((x, y, z))
}

impl Instruction {
    /// Decode one fully literal source line into an instruction or a
    /// structured parse error, as `spec_decode_line` describes. A decoded
    /// instruction is always well formed.
    pub fn try_from_str(value: &str) -> (r: Result<Instruction, ParseError>)
        ensures
            r == spec_decode_line(value@),
            r matches Ok(i) ==> i.wf(),
    {
        let cs = crate::text::str_to_chars(value);
        Instruction::decode_chars(&cs)
    }

    /// Decode one line already held as characters.
    pub fn decode_chars(cs: &Vec<char>) -> (r: Result<Instruction, ParseError>)
        ensures
            r == spec_decode_line(cs@),
            r matches Ok(i) ==> i.wf(),
    {
        let norm = normalize(cs);
        let ts = tokens_of(&norm);
        Instruction::decode_tokens(&ts)
    }

    /// Decode a token list, as `spec_decode_tokens` describes.
    pub fn decode_tokens(ts: &Vec<Vec<char>>) -> (r: Result<Instruction, ParseError>)
        ensures
            r == spec_decode_tokens(views(ts@)),
            r matches Ok(i) ==> i.wf(),
    {
        if ts.len() == 0 {
            return Err(ParseError::MissingVerb);
        }
        match verb_kind(&ts[0]) {
            VerbKind::And => match rrr_args(ts) {
                Ok((d, a, b)) => Ok(Instruction::AND { a, b, d }),
                Err(e) => Err(e),
            },
            VerbKind::Or => match rrr_args(ts) {
                Ok((d, a, b)) => Ok(Instruction::OR { a, b, d }),
                Err(e) => Err(e),
            },
            VerbKind::Xor => match rrr_args(ts) {
                Ok((d, a, b)) => Ok(Instruction::XOR { a, b, d }),
                Err(e) => Err(e),
            },
            VerbKind::Add => match rrr_args(ts) {
                Ok((d, a, b)) => Ok(Instruction::ADD { a, b, d }),
                Err(e) => Err(e),
            },
            VerbKind::Sub => match rrr_args(ts) {
                Ok((d, a, b)) => Ok(Instruction::SUB { a, b, d }),
                Err(e) => Err(e),
            },
            VerbKind::Sha => match rrr_args(ts) {
                Ok((d, a, b)) => Ok(Instruction::SHA { a, b, d }),
                Err(e) => Err(e),
            },
            VerbKind::Shl => match rrr_args(ts) {
                Ok((d, a, b)) => Ok(Instruction::SHL { a, b, d }),
                Err(e) => Err(e),
            },
            VerbKind::Cmplt => match rrr_args(ts) {
                Ok((d, a, b)) => Ok(Instruction::CMPLT { a, b, d }),
                Err(e) => Err(e),
            },
            VerbKind::Cmple => match rrr_args(ts) {
                Ok((d, a, b)) => Ok(Instruction::CMPLE { a, b, d }),
                Err(e) => Err(e),
            },
            VerbKind::Cmpeq => match rrr_args(ts) {
                Ok((d, a, b)) => Ok(Instruction::CMPEQ { a, b, d }),
                Err(e) => Err(e),
            },
            VerbKind::Cmpltu => match rrr_args(ts) {
                Ok((d, a, b)) => Ok(Instruction::CMPLTU { a, b, d }),
                Err(e) => Err(e),
            },
            VerbKind::Cmpleu => match rrr_args(ts) {
                Ok((d, a, b)) => Ok(Instruction::CMPLEU { a, b, d }),
                Err(e) => Err(e),
            },
            VerbKind::Not => match (reg_arg(ts, 1), reg_arg(ts, 2)) {
                (Err(e), _) => Err(e),
                (Ok(_), Err(e)) => Err(e),
                (Ok(d), Ok(a)) => Ok(Instruction::NOT { a, d }),
            },
            VerbKind::Addi => match (reg_arg(ts, 1), reg_arg(ts, 2), imm6_arg(ts, 3)) {
                (Err(e), _, _) => Err(e),
                (Ok(_), Err(e), _) => Err(e),
                (Ok(_), Ok(_), Err(e)) => Err(e),
                (Ok(d), Ok(a), Ok(b)) => Ok(Instruction::ADDI { a, b, d }),
            },
            VerbKind::Bz => match (reg_arg(ts, 1), imm8_arg(ts, 2)) {
                (Err(e), _) => Err(e),
                (Ok(_), Err(e)) => Err(e),
                (Ok(a), Ok(offset)) => Ok(Instruction::BZ { a, offset }),
            },
            VerbKind::Bnz => match (reg_arg(ts, 1), imm8_arg(ts, 2)) {
                (Err(e), _) => Err(e),
                (Ok(_), Err(e)) => Err(e),
                (Ok(a), Ok(offset)) => Ok(Instruction::BNZ { a, offset }),
            },
            VerbKind::Movi => match (reg_arg(ts, 1), imm8_arg(ts, 2)) {
                (Err(e), _) => Err(e),
                (Ok(_), Err(e)) => Err(e),
                (Ok(d), Ok(n)) => Ok(Instruction::MOVI { d, n }),
            },
            VerbKind::Movhi => match (reg_arg(ts, 1), imm8_arg(ts, 2)) {
                (Err(e), _) => Err(e),
                (Ok(_), Err(e)) => Err(e),
                (Ok(d), Ok(n)) => Ok(Instruction::MOVHI { d, n }),
            },
            VerbKind::St => match (imm6_arg(ts, 1), reg_arg(ts, 2), reg_arg(ts, 3)) {
                (Err(e), _, _) => Err(e),
                (Ok(_), Err(e), _) => Err(e),
                (Ok(_), Ok(_), Err(e)) => Err(e),
                (Ok(offset), Ok(a), Ok(b)) => Ok(Instruction::ST { offset, a, b }),
            },
            VerbKind::Stb => match (imm6_arg(ts, 1), reg_arg(ts, 2), reg_arg(ts, 3)) {
                (Err(e), _, _) => Err(e),
                (Ok(_), Err(e), _) => Err(e),
                (Ok(_), Ok(_), Err(e)) => Err(e),
                (Ok(offset), Ok(a), Ok(b)) => Ok(Instruction::STB { offset, a, b }),
            },
            VerbKind::Ld => match (reg_arg(ts, 1), imm6_arg(ts, 2), reg_arg(ts, 3)) {
                (Err(e), _, _) => Err(e),
                (Ok(_), Err(e), _) => Err(e),
                (Ok(_), Ok(_), Err(e)) => Err(e),
                (Ok(d), Ok(offset), Ok(a)) => Ok(Instruction::LD { d, a, offset }),
            },
            VerbKind::Ldb => match (reg_arg(ts, 1), imm6_arg(ts, 2), reg_arg(ts, 3)) {
                (Err(e), _, _) => Err(e),
                (Ok(_), Err(e), _) => Err(e),
                (Ok(_), Ok(_), Err(e)) => Err(e),
                (Ok(d), Ok(offset), Ok(a)) => Ok(Instruction::LDB { d, a, offset }),
            },
            VerbKind::OutV => match (addr_arg(ts, 1), reg_arg(ts, 2)) {
                (Err(e), _) => Err(e),
                (Ok(_), Err(e)) => Err(e),
                (Ok(d), Ok(n)) => Ok(Instruction::OUT { d, n }),
            },
            VerbKind::InV => match (reg_arg(ts, 1), addr_arg(ts, 2)) {
                (Err(e), _) => Err(e),
                (Ok(_), Err(e)) => Err(e),
                (Ok(d), Ok(n)) => Ok(Instruction::IN { d, n }),
            },
            VerbKind::Jalr => match (reg_arg(ts, 1), reg_arg(ts, 2)) {
                (Err(e), _) => Err(e),
                (Ok(_), Err(e)) => Err(e),
                (Ok(d), Ok(a)) => Ok(Instruction::JALR { a, d }),
            },
            VerbKind::Nop => Ok(Instruction::NOP),
            VerbKind::Unknown => Err(ParseError::UnrecognizedInstruction),
        }
    }
}

} // verus!
