use std::collections::HashMap;
use vstd::prelude::*;

use crate::calc::Reg;
use crate::execute::{ProgCounter, Registers, Value16Bit};
use crate::isa::{Instruction, RegLabel};
use crate::memory::{spec_insert_word, MemAddr, Memory};
use crate::parsing::spec_decode_line;
use crate::text::{spec_lines, spec_parse_uint, str_to_chars, sub_chars, to_lines, views};
use crate::{spec_norm_n, wrapping_neg16, Instructions};

verus! {

broadcast use vstd::std_specs::hash::group_hash_axioms;

/// Describes all variants of malformed input contents.
#[derive(Clone, Copy, PartialEq, Eq, Structural, Debug)]
pub enum FileError {
    /// The named file could not be found.
    FileNotFound,
    /// An instruction line was not recognized.
    InstrucNotRecognized,
    /// The file's bytes could not be read.
    ReadingError,
    /// The memory table is not properly written.
    UnparsableMemory,
    /// The IO table is not properly written.
    UnparsableIO,
    /// The registers' list is not properly written.
    UnparsableRegister,
}

/// Whether every line of an instruction list decodes.
pub open spec fn all_lines_decode(lines: Seq<Seq<char>>) -> bool {
    forall|i: int| 0 <= i < lines.len() ==> spec_decode_line(#[trigger] lines[i]) is Ok
}

/// The instruction store that a list of lines describes: line `i` sits at
/// address `2 * i`.
pub open spec fn spec_instr_map(lines: Seq<Seq<char>>) -> Map<u16, Instruction> {
    Map::new(
        |a: u16| a % 2 == 0 && (a as int) < 2 * lines.len(),
        |a: u16| spec_decode_line(lines[a as int / 2])->Ok_0,
    )
}

/// Parse a string holding one instruction per line into the instruction
/// store to be simulated: line `i` lands at address `2 * i`. Every line must
/// decode, empty lines included; the first line that does not makes the
/// whole list unrecognized.
pub fn parse_instructions_from_str(input: String) -> (r: Result<Instructions, FileError>)
    ensures
        ({
            let lines = spec_lines(input@);
            &&& (r is Ok <==> all_lines_decode(lines))
            &&& (r matches Ok(m) ==> (lines.len() <= 0x8000 ==> m@ == spec_instr_map(lines)))
            &&& (r matches Err(e) ==> e == FileError::InstrucNotRecognized)
        }),
{
    let cs = str_to_chars(input.as_str());
    let lines = to_lines(&cs);
    let ghost glines = spec_lines(input@);
    let mut m: Instructions = HashMap::new();
    let n = lines.len();
    let mut i: usize = 0;
    while i < n
        invariant
            i <= n,
            n == glines.len(),
            glines == spec_lines(input@),
            views(lines@) == glines,
            forall|j: int| 0 <= j < i ==> spec_decode_line(#[trigger] glines[j]) is Ok,
            glines.len() <= 0x8000 ==> m@ == Map::new(
                |a: u16| a % 2 == 0 && (a as int) < 2 * i,
                |a: u16| spec_decode_line(glines[a as int / 2])->Ok_0,
            ),
        decreases n - i,
    {
        let inst = match Instruction::decode_chars(&lines[i]) {
            Ok(inst) => inst,
            Err(_) => {
                assert(spec_decode_line(glines[i as int]) is Err);
                return Err(FileError::InstrucNotRecognized);
            },
        };
        let addr: u16 = ((i % 0x8000) * 2) as u16;
        m.insert(addr, inst);
        proof {
            if glines.len() <= 0x8000 {
                assert(addr == 2 * i);
                assert(m@ =~= Map::new(
                    |a: u16| a % 2 == 0 && (a as int) < 2 * (i + 1),
                    |a: u16| spec_decode_line(glines[a as int / 2])->Ok_0,
                ));
            }
        }
        i = i + 1;
    }
    proof {
        if glines.len() <= 0x8000 {
            assert(m@ =~= spec_instr_map(glines));
        }
    }
    Ok(m)
}

/// What reading a signed decimal register value yields: a plain or
/// `-`-prefixed decimal within the 16-bit two's-complement range, kept as
/// its bit pattern.
pub open spec fn spec_parse_i16_dec(s: Seq<char>) -> Option<u16> {
    if s.len() > 0 && s[0] == '-' {
        match spec_parse_uint(s.skip(1), 10) {
            Some(v) => if v <= 32768 {
                Some(wrapping_neg16(v))
            } else {
                None
            },
            None => None,
        }
    } else {
        match spec_parse_uint(s, 10) {
            Some(v) => if v <= 32767 {
                Some(v)
            } else {
                None
            },
            None => None,
        }
    }
}

/// Read a signed decimal register value, as `spec_parse_i16_dec` describes.
pub fn parse_i16_dec(v: &Vec<char>) -> (r: Option<u16>)
    ensures
        r == spec_parse_i16_dec(v@),
{
    let n = v.len();
    if n > 0 && v[0] == '-' {
        let rest = sub_chars(v, 1, n);
        proof {
            assert(rest@ =~= v@.skip(1));
        }
        match crate::text::parse_uint(&rest, 10) {
            Some(m) => {
                if m <= 32768 {
                    if m == 0 {
                        Some(0)
                    } else {
                        Some((0x10000u32 - m as u32) as u16)
                    }
                } else {
                    None
                }
            },
            None => None,
        }
    } else {
        match crate::text::parse_uint(v, 10) {
            Some(m) => {
                if m <= 32767 {
                    Some(m)
                } else {
                    None
                }
            },
            None => None,
        }
    }
}

/// Whether a register list parses: at most eight lines, each a signed
/// decimal in range.
pub open spec fn regs_lines_ok(lines: Seq<Seq<char>>) -> bool {
    lines.len() <= 8 && forall|i: int|
        0 <= i < lines.len() ==> spec_parse_i16_dec(#[trigger] lines[i]) is Some
}

/// The register file that a list of lines describes: line `i` fills
/// register `i`, the rest stay zero.
pub open spec fn spec_regs_of(lines: Seq<Seq<char>>) -> Seq<u16> {
    Seq::new(
        8,
        |i: int|
            if i < lines.len() {
                spec_parse_i16_dec(lines[i])->Some_0
            } else {
                0u16
            },
    )
}

/// Parse a register list: one signed decimal value per line, at most eight
/// lines, filling registers R0 upward; unfilled registers stay zero.
pub fn parse_registers(contents: String) -> (r: Result<Registers, FileError>)
    ensures
        ({
            let lines = spec_lines(contents@);
            &&& (r is Ok <==> regs_lines_ok(lines))
            &&& (r matches Ok(regs) ==> regs@ == spec_regs_of(lines))
            &&& (r matches Err(e) ==> e == FileError::UnparsableRegister)
        }),
{
    let cs = str_to_chars(contents.as_str());
    let lines = to_lines(&cs);
    let ghost glines = spec_lines(contents@);
    let n = lines.len();
    if n > 8 {
        return Err(FileError::UnparsableRegister);
    }
    let mut regs = Registers::default();
    let mut i: usize = 0;
    while i < n
        invariant
            i <= n <= 8,
            n == glines.len(),
            glines == spec_lines(contents@),
            views(lines@) == glines,
            regs@.len() == 8,
            forall|j: int| 0 <= j < i ==> spec_parse_i16_dec(#[trigger] glines[j]) is Some,
            forall|j: int|
                0 <= j < i ==> regs@[j] == spec_parse_i16_dec(#[trigger] glines[j])->Some_0,
            forall|j: int| i <= j < 8 ==> regs@[j] == 0u16,
        decreases n - i,
    {
        let v = match parse_i16_dec(&lines[i]) {
            Some(v) => v,
            None => {
                assert(spec_parse_i16_dec(glines[i as int]) is None);
                return Err(FileError::UnparsableRegister);
            },
        };
        regs.set(RegLabel(i as u8), Reg(v));
        i = i + 1;
    }
    proof {
        assert(regs@ =~= spec_regs_of(glines));
    }
    Ok(regs)
}

/// Parse the program counter's starting value: a plain decimal 16-bit
/// numeral.
pub fn parse_pc(inp: String) -> (r: Result<ProgCounter, String>)
    ensures
        spec_parse_uint(inp@, 10) matches Some(v) ==> r == Ok::<ProgCounter, String>(
            ProgCounter(v),
        ),
        spec_parse_uint(inp@, 10) is None ==> (r matches Err(e) && e@ == "PC invalid"@),
{
    let cs = str_to_chars(inp.as_str());
    match crate::text::parse_uint(&cs, 10) {
        Some(v) => Ok(ProgCounter(v)),
        None => Err(String::from_str("PC invalid")),
    }
}

/// What the TOML reader yields on a given text: the table's entries as
/// key and string-value pairs in the crate's deterministic iteration order,
/// or nothing where the text is no table of string values.
pub uninterp spec fn toml_pairs_of(s: Seq<char>) -> Option<Seq<(Seq<char>, Seq<char>)>>;

/// Relies on toml::Table's `FromStr` and `Map::iter`: parsing a table is a
/// function of the text alone, iteration yields the entries in lexicographic
/// key order, and `Value::as_str` tells string values apart from the rest.
/// An entry whose value is not a string makes the whole read fail.
#[verifier::external_body]
fn toml_table_strings(contents: &str) -> (r: Option<Vec<(String, String)>>)
    ensures
        r is Some <==> toml_pairs_of(contents@) is Some,
        r matches Some(v) ==> toml_pairs_of(contents@) == Some(
            Seq::new(v@.len(), |i: int| (v@[i].0@, v@[i].1@)),
        ),
{
    let table: toml::Table = match contents.parse::<toml::Table>() {
        Ok(t) => t,
        Err(_) => return None,
    };
    let mut out = Vec::new();
    for (k, v) in table.iter() {
        match v.as_str() {
            Some(s) => out.push((k.clone(), s.to_owned())),
            None => return None,
        }
    }
    Some(out)
}

/// Whether every pair of a table is a pair of 16-bit numerals.
pub open spec fn pairs_norm_ok(ps: Seq<(Seq<char>, Seq<char>)>) -> bool {
    forall|i: int|
        0 <= i < ps.len() ==> spec_norm_n(#[trigger] ps[i].0) is Some && spec_norm_n(ps[i].1)
            is Some
}

/// The IO port map that the first `n` pairs of a table describe, later pairs
/// overwriting earlier ones of equal address.
pub open spec fn spec_io_map(ps: Seq<(Seq<char>, Seq<char>)>, n: int) -> Map<u16, Value16Bit>
    decreases n,
{
    if n <= 0 {
        Map::empty()
    } else {
        spec_io_map(ps, n - 1).insert(
            spec_norm_n(ps[n - 1].0)->Some_0,
            Value16Bit(spec_norm_n(ps[n - 1].1)->Some_0),
        )
    }
}

/// Parse IO port settings from a TOML table of `addr = "value"` pairs, both
/// sides 16-bit numerals.
pub fn parse_io(contents: String) -> (r: Result<HashMap<u16, Value16Bit>, FileError>)
    ensures
        ({
            let po = toml_pairs_of(contents@);
            &&& (r is Ok <==> (po matches Some(ps) && pairs_norm_ok(ps)))
            &&& (r matches Ok(m) ==> m@ == spec_io_map(po->Some_0, po->Some_0.len() as int))
            &&& (r matches Err(e) ==> e == FileError::UnparsableIO)
        }),
{
    let pairs = match toml_table_strings(contents.as_str()) {
        Some(v) => v,
        None => {
            return Err(FileError::UnparsableIO);
        },
    };
    let ghost ps = toml_pairs_of(contents@)->Some_0;
    let mut m: HashMap<u16, Value16Bit> = HashMap::new();
    let n = pairs.len();
    let mut i: usize = 0;
    while i < n
        invariant
            i <= n,
            n == pairs@.len(),
            toml_pairs_of(contents@) == Some(ps),
            ps.len() == n,
            forall|j: int| 0 <= j < n ==> ps[j] == (pairs@[j].0@, pairs@[j].1@),
            forall|j: int|
                0 <= j < i ==> spec_norm_n(#[trigger] ps[j].0) is Some && spec_norm_n(ps[j].1)
                    is Some,
            m@ == spec_io_map(ps, i as int),
        decreases n - i,
    {
        let kc = str_to_chars(pairs[i].0.as_str());
        let vc = str_to_chars(pairs[i].1.as_str());
        let addr = match crate::norm_chars(&kc) {
            Some(a) => a,
            None => {
                assert(spec_norm_n(ps[i as int].0) is None);
                return Err(FileError::UnparsableIO);
            },
        };
        let val = match crate::norm_chars(&vc) {
            Some(v) => v,
            None => {
                assert(spec_norm_n(ps[i as int].1) is None);
                return Err(FileError::UnparsableIO);
            },
        };
        m.insert(addr, Value16Bit(val));
        i = i + 1;
    }
    Ok(m)
}

/// The memory that the first `n` pairs of a table describe: each pair is a
/// little-endian word write at its address.
pub open spec fn spec_mem_of(ps: Seq<(Seq<char>, Seq<char>)>, n: int) -> Map<u16, u8>
    decreases n,
{
    if n <= 0 {
        Map::empty()
    } else {
        spec_insert_word(
            spec_mem_of(ps, n - 1),
            spec_norm_n(ps[n - 1].0)->Some_0,
            spec_norm_n(ps[n - 1].1)->Some_0,
        )
    }
}

/// Parse an initial memory image from a TOML table of `addr = "value"`
/// pairs: each pair stores one little-endian word.
pub fn parse_memory(contents: String) -> (r: Result<Memory, FileError>)
    ensures
        ({
            let po = toml_pairs_of(contents@);
            &&& (r is Ok <==> (po matches Some(ps) && pairs_norm_ok(ps)))
            &&& (r matches Ok(m) ==> m@ == spec_mem_of(po->Some_0, po->Some_0.len() as int))
            &&& (r matches Err(e) ==> e == FileError::UnparsableMemory)
        }),
{
    let pairs = match toml_table_strings(contents.as_str()) {
        Some(v) => v,
        None => {
            return Err(FileError::UnparsableMemory);
        },
    };
    let ghost ps = toml_pairs_of(contents@)->Some_0;
    let mut m = Memory::new();
    let n = pairs.len();
    let mut i: usize = 0;
    while i < n
        invariant
            i <= n,
            n == pairs@.len(),
            toml_pairs_of(contents@) == Some(ps),
            ps.len() == n,
            forall|j: int| 0 <= j < n ==> ps[j] == (pairs@[j].0@, pairs@[j].1@),
            forall|j: int|
                0 <= j < i ==> spec_norm_n(#[trigger] ps[j].0) is Some && spec_norm_n(ps[j].1)
                    is Some,
            m@ == spec_mem_of(ps, i as int),
        decreases n - i,
    {
        let kc = str_to_chars(pairs[i].0.as_str());
        let vc = str_to_chars(pairs[i].1.as_str());
        let addr = match crate::norm_chars(&kc) {
            Some(a) => a,
            None => {
                assert(spec_norm_n(ps[i as int].0) is None);
                return Err(FileError::UnparsableMemory);
            },
        };
        let val = match crate::norm_chars(&vc) {
            Some(v) => v,
            None => {
                assert(spec_norm_n(ps[i as int].1) is None);
                return Err(FileError::UnparsableMemory);
            },
        };
        m.insert_word(&MemAddr(addr), val);
        i = i + 1;
    }
    Ok(m)
}

} // verus!
