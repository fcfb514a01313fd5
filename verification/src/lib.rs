use std::collections::HashMap;
use vstd::prelude::*;

pub mod calc;
pub mod execute;
pub mod isa;
pub mod memory;
pub mod parsing;
pub mod text;

use crate::parsing::ParseError;
use crate::text::{spec_parse_uint, str_to_chars, sub_chars};

verus! {

/// The flat instruction store: one instruction per even address, the
/// engine's read-only fetch source.
pub type Instructions = HashMap<u16, crate::isa::Instruction>;

/// A numeral with every comma stripped.
pub open spec fn spec_strip_commas(s: Seq<char>) -> Seq<char>
    decreases s.len(),
{
    if s.len() == 0 {
        Seq::empty()
    } else {
        let p = spec_strip_commas(s.drop_last());
        if s.last() == ',' {
            p
        } else {
            p.push(s.last())
        }
    }
}

/// The 16-bit two's-complement negation of a value.
pub open spec fn wrapping_neg16(v: u16) -> u16 {
    if v == 0 {
        0u16
    } else {
        (0x10000 - v) as u16
    }
}

/// What reading a numeral yields, commas ignored: `0x`-prefixed strings are
/// read as hexadecimal, a leading `-` negates a decimal magnitude modulo
/// 2^16, and anything else is read as plain decimal. `None` where the digits
/// are malformed or the magnitude exceeds 16 bits.
pub open spec fn spec_norm_n(s: Seq<char>) -> Option<u16> {
    let t = spec_strip_commas(s);
    if t.len() > 2 && t[0] == '0' && t[1] == 'x' {
        spec_parse_uint(t.skip(2), 16)
    } else if t.len() > 0 && t[0] == '-' {
        match spec_parse_uint(t.skip(1), 10) {
            Some(v) => Some(wrapping_neg16(v)),
            None => None,
        }
    } else {
        spec_parse_uint(t, 10)
    }
}

/// Read a numeral held in a character vector, as `spec_norm_n` describes.
pub fn norm_chars(cs: &Vec<char>) -> (r: Option<u16>)
    ensures
        r == spec_norm_n(cs@),
{
    let mut t: Vec<char> = Vec::new();
    let n = cs.len();
    let mut i: usize = 0;
    while i < n
        invariant
            i <= n,
            n == cs@.len(),
            t@ == spec_strip_commas(cs@.take(i as int)),
        decreases n - i,
    {
        let c = cs[i];
        proof {
            assert(cs@.take(i + 1).drop_last() =~= cs@.take(i as int));
        }
        if c != ',' {
            t.push(c);
        }
        i = i + 1;
    }
    proof {
        assert(cs@.take(n as int) =~= cs@);
    }
    let tl = t.len();
    if tl > 2 && t[0] == '0' && t[1] == 'x' {
        let rest = sub_chars(&t, 2, tl);
        proof {
            assert(rest@ =~= t@.skip(2));
        }
        crate::text::parse_uint(&rest, 16)
    } else if tl > 0 && t[0] == '-' {
        let rest = sub_chars(&t, 1, tl);
        proof {
            assert(rest@ =~= t@.skip(1));
        }
        match crate::text::parse_uint(&rest, 10) {
            Some(v) => {
                if v == 0 {
                    Some(0)
                } else {
                    Some(((0x10000u32 - v as u32) as u16))
                }
            },
            None => None,
        }
    } else {
        crate::text::parse_uint(&t, 10)
    }
}

/// Read a numeral: decimal, `0x`-prefixed hexadecimal, or negated decimal,
/// with commas ignored, reduced modulo 2^16.
pub fn norm_n(input: &str) -> (r: Result<u16, ParseError>)
    ensures
        r == (match spec_norm_n(input@) {
            Some(v) => Ok::<u16, ParseError>(v),
            None => Err::<u16, ParseError>(ParseError::ParseInt),
        }),
{
    let cs = str_to_chars(input);
    match norm_chars(&cs) {
        Some(v) => Ok(v),
        None => Err(ParseError::ParseInt),
    }
}

/// Main error enum for a run's preparation: everything that can go wrong
/// before the first instruction executes.
#[derive(Clone, Copy, PartialEq, Eq, Structural, Debug)]
pub enum PreparationError {
    /// Did not provide the mandatory instructions file.
    MissingInstructionsFile,
    /// A numeral or an instruction line failed to parse.
    Parsing(ParseError),
    /// An input file's contents were malformed.
    File(crate::input::FileError),
}

} // verus!

pub mod cli;
pub mod input;
pub mod preprocessor;

pub use crate::execute::{IOSystem, Processador, ProgCounter, Registers};
pub use crate::input::{
    parse_instructions_from_str, parse_io, parse_memory, parse_pc, parse_registers, FileError,
};
pub use crate::isa::Instruction;
pub use crate::memory::Memory;
