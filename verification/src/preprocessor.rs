use vstd::prelude::*;

use crate::calc::{spec_add16, spec_sub16};
use crate::input::{parse_i16_dec, spec_parse_i16_dec};
use crate::memory::{spec_insert_word, MemAddr, Memory};
use crate::parsing::ParseError;
use crate::text::{
    chars_eq_chars, chars_eq_str, clone_chars, exec_line_tokens, line_tokens, parse_uint,
    spec_find, spec_parse_uint, spec_strip_comment, spec_tokens, sub_chars, views,
};
use crate::Instructions;

verus! {

/// What assembling a labeled source yields: the memory that the `.data`
/// section laid out, and the instructions that the `.text` section encodes.
#[derive(Debug)]
pub struct Input {
    /// The memory, as specified by the `.data` section.
    pub mem: Memory,
    /// The instructions, as specified by the `.text` section.
    pub instructions: Instructions,
}

/// What can go wrong assembling a labeled source, all detected before any
/// instruction runs.
#[derive(Clone, Copy, PartialEq, Eq, Structural, Debug)]
pub enum SourceError {
    /// The source does not begin with a `.data` marker line.
    MissingDataSection,
    /// No `.text` marker line follows the directives.
    MissingTextSection,
    /// No `.end` marker line follows the instructions.
    MissingEndMarker,
    /// A directive lacks a mandatory argument.
    MissingArgument,
    /// A label in the `.data` section is not followed by a directive.
    MissingCommandAfterLabel,
    /// The directive after a label is neither `.byte` nor `.word`.
    UnrecognizedCommandAfterLabel,
    /// A directive line starts with no known directive and no label.
    UnrecognizedDirective,
    /// A numeric value in a directive failed to parse or is out of range.
    BadValue,
    /// A label line does not consist of one name before its colon.
    BadLabel,
    /// A `lo()`/`hi()` use names a label that was never bound.
    UnresolvableLabel,
    /// A rewritten instruction line failed to decode.
    Decode(ParseError),
}

/// The alias table: `.set` name to substitution text, in binding order.
pub type Aliases = Vec<(Vec<char>, Vec<char>)>;

/// The label table: label name to resolved address, in binding order.
pub type Pointers = Vec<(Vec<char>, u16)>;

/// The character views of an alias table.
pub open spec fn alias_views(s: Seq<(Vec<char>, Vec<char>)>) -> Seq<(Seq<char>, Seq<char>)> {
    s.map_values(|p: (Vec<char>, Vec<char>)| (p.0@, p.1@))
}

/// The character views of a label table.
pub open spec fn ptr_views(s: Seq<(Vec<char>, u16)>) -> Seq<(Seq<char>, u16)> {
    s.map_values(|p: (Vec<char>, u16)| (p.0@, p.1))
}

/// Look a name up in an alias table: the latest binding wins.
pub open spec fn assoc_chars(s: Seq<(Seq<char>, Seq<char>)>, k: Seq<char>) -> Option<Seq<char>>
    decreases s.len(),
{
    if s.len() == 0 {
        None
    } else if s.last().0 == k {
        Some(s.last().1)
    } else {
        assoc_chars(s.drop_last(), k)
    }
}

/// Look a name up in a label table: the latest binding wins.
pub open spec fn assoc_addr(s: Seq<(Seq<char>, u16)>, k: Seq<char>) -> Option<u16>
    decreases s.len(),
{
    if s.len() == 0 {
        None
    } else if s.last().0 == k {
        Some(s.last().1)
    } else {
        assoc_addr(s.drop_last(), k)
    }
}

/// Look a name up in an alias table, as `assoc_chars` describes.
pub fn alias_lookup(env: &Aliases, k: &Vec<char>) -> (r: Option<Vec<char>>)
    ensures
        r matches Some(v) ==> assoc_chars(alias_views(env@), k@) == Some(v@),
        r is None ==> assoc_chars(alias_views(env@), k@) is None,
{
    let mut i = env.len();
    proof {
        assert(alias_views(env@).take(env@.len() as int) =~= alias_views(env@));
    }
    while i > 0
        invariant
            i <= env@.len(),
            assoc_chars(alias_views(env@), k@) == assoc_chars(
                alias_views(env@).take(i as int),
                k@,
            ),
        decreases i,
    {
        proof {
            assert(alias_views(env@).take(i as int).drop_last() =~= alias_views(env@).take(
                i - 1,
            ));
        }
        if chars_eq_chars(&env[i - 1].0, k) {
            return Some(clone_chars(&env[i - 1].1));
        }
        i = i - 1;
    }
    None
}

/// Look a name up in a label table, as `assoc_addr` describes.
pub fn ptr_lookup(ptrs: &Pointers, k: &Vec<char>) -> (r: Option<u16>)
    ensures
        r == assoc_addr(ptr_views(ptrs@), k@),
{
    let mut i = ptrs.len();
    proof {
        assert(ptr_views(ptrs@).take(ptrs@.len() as int) =~= ptr_views(ptrs@));
    }
    while i > 0
        invariant
            i <= ptrs@.len(),
            assoc_addr(ptr_views(ptrs@), k@) == assoc_addr(ptr_views(ptrs@).take(i as int), k@),
        decreases i,
    {
        proof {
            assert(ptr_views(ptrs@).take(i as int).drop_last() =~= ptr_views(ptrs@).take(i - 1));
        }
        if chars_eq_chars(&ptrs[i - 1].0, k) {
            return Some(ptrs[i - 1].1);
        }
        i = i - 1;
    }
    None
}

/// What reading a signed decimal byte value yields: a plain or `-`-prefixed
/// decimal within the 8-bit two's-complement range, kept as its bit pattern.
pub open spec fn spec_parse_i8_dec(s: Seq<char>) -> Option<u8> {
    if s.len() > 0 && s[0] == '-' {
        match spec_parse_uint(s.skip(1), 10) {
            Some(v) => if v == 0 {
                Some(0u8)
            } else if v <= 128 {
                Some((256 - v) as u8)
            } else {
                None
            },
            None => None,
        }
    } else {
        match spec_parse_uint(s, 10) {
            Some(v) => if v <= 127 {
                Some(v as u8)
            } else {
                None
            },
            None => None,
        }
    }
}

/// Read a signed decimal byte value, as `spec_parse_i8_dec` describes.
pub fn parse_i8_dec(v: &Vec<char>) -> (r: Option<u8>)
    ensures
        r == spec_parse_i8_dec(v@),
{
    let n = v.len();
    if n > 0 && v[0] == '-' {
        let rest = sub_chars(v, 1, n);
        proof {
            assert(rest@ =~= v@.skip(1));
        }
        match parse_uint(&rest, 10) {
            Some(m) => {
                if m == 0 {
                    Some(0)
                } else if m <= 128 {
                    Some((256 - m as u32) as u8)
                } else {
                    None
                }
            },
            None => None,
        }
    } else {
        match parse_uint(v, 10) {
            Some(m) => {
                if m <= 127 {
                    Some(m as u8)
                } else {
                    None
                }
            },
            None => None,
        }
    }
}

/// The assembler's state while it walks the `.data` section: the memory laid
/// out so far, the next free address, and the alias and label tables.
#[verifier::ext_equal]
pub struct DirState {
    /// The memory written so far.
    pub mem: Map<u16, u8>,
    /// The next address a directive will write to.
    pub addr: u16,
    /// The alias bindings made so far.
    pub env: Seq<(Seq<char>, Seq<char>)>,
    /// The label bindings made so far.
    pub ptrs: Seq<(Seq<char>, u16)>,
}

/// The assembler's starting state: empty memory and tables, writing from the
/// configured base address.
pub open spec fn init_dir_state(addr: u16) -> DirState {
    DirState { mem: Map::empty(), addr, env: Seq::empty(), ptrs: Seq::empty() }
}

/// `n` zero bytes written at consecutive addresses.
pub open spec fn fill_zeros(mem: Map<u16, u8>, addr: u16, n: int) -> (Map<u16, u8>, u16)
    decreases n,
{
    if n <= 0 {
        (mem, addr)
    } else {
        let (m2, a2) = fill_zeros(mem, addr, n - 1);
        (m2.insert(a2, 0u8), spec_add16(a2, 1))
    }
}

/// The first `k` tokens read as signed byte values and written at
/// consecutive addresses; `None` where one fails to parse.
pub open spec fn write_bytes(mem: Map<u16, u8>, addr: u16, ts: Seq<Seq<char>>, k: int) -> Option<
    (Map<u16, u8>, u16),
>
    decreases k,
{
    if k <= 0 {
        Some((mem, addr))
    } else {
        match write_bytes(mem, addr, ts, k - 1) {
            None => None,
            Some((m2, a2)) => match spec_parse_i8_dec(ts[k - 1]) {
                Some(b) => Some((m2.insert(a2, b), spec_add16(a2, 1))),
                None => None,
            },
        }
    }
}

/// The first `k` tokens read as signed word values and written little-endian
/// at consecutive even steps; `None` where one fails to parse.
pub open spec fn write_words(mem: Map<u16, u8>, addr: u16, ts: Seq<Seq<char>>, k: int) -> Option<
    (Map<u16, u8>, u16),
>
    decreases k,
{
    if k <= 0 {
        Some((mem, addr))
    } else {
        match write_words(mem, addr, ts, k - 1) {
            None => None,
            Some((m2, a2)) => match spec_parse_i16_dec(ts[k - 1]) {
                Some(w) => Some((spec_insert_word(m2, a2, w), spec_add16(a2, 2))),
                None => None,
            },
        }
    }
}

/// A failed byte-list write stays failed as more tokens are taken.
pub proof fn lemma_write_bytes_none_stable(
    mem: Map<u16, u8>,
    addr: u16,
    ts: Seq<Seq<char>>,
    i: int,
    n: int,
)
    requires
        0 <= i <= n,
        write_bytes(mem, addr, ts, i) is None,
    ensures
        write_bytes(mem, addr, ts, n) is None,
    decreases n - i,
{
    if i < n {
        lemma_write_bytes_none_stable(mem, addr, ts, i, n - 1);
    }
}

/// A failed word-list write stays failed as more tokens are taken.
pub proof fn lemma_write_words_none_stable(
    mem: Map<u16, u8>,
    addr: u16,
    ts: Seq<Seq<char>>,
    i: int,
    n: int,
)
    requires
        0 <= i <= n,
        write_words(mem, addr, ts, i) is None,
    ensures
        write_words(mem, addr, ts, n) is None,
    decreases n - i,
{
    if i < n {
        lemma_write_words_none_stable(mem, addr, ts, i, n - 1);
    }
}

/// The effect of one directive line on the assembler's state: `.set` binds
/// an alias, `.space` reserves bytes (zero-filled or from an explicit list),
/// `.even` pads to the next even address, and `LABEL: .byte`/`.word` binds a
/// label and emits literal data. A blank line changes nothing.
pub open spec fn dir_step(st: DirState, ts: Seq<Seq<char>>) -> Result<DirState, SourceError> {
    if ts.len() == 0 {
        Ok(st)
    } else if ts[0] == ".set"@ {
        if ts.len() >= 3 {
            Ok(DirState { env: st.env.push((ts[1], ts[2])), ..st })
        } else {
            Err(SourceError::MissingArgument)
        }
    } else if ts[0] == ".space"@ {
        if ts.len() < 2 {
            Err(SourceError::MissingArgument)
        } else {
            match spec_parse_uint(ts[1], 10) {
                None => Err(SourceError::BadValue),
                Some(n) => if ts.len() == 2 {
                    let (m2, a2) = fill_zeros(st.mem, st.addr, n as int);
                    Ok(DirState { mem: m2, addr: a2, ..st })
                } else if ts.len() >= 2 + n {
                    match write_bytes(st.mem, st.addr, ts.subrange(2, 2 + n), n as int) {
                        Some((m2, a2)) => Ok(DirState { mem: m2, addr: a2, ..st }),
                        None => Err(SourceError::BadValue),
                    }
                } else {
                    Err(SourceError::MissingArgument)
                },
            }
        }
    } else if ts[0] == ".even"@ {
        if st.addr % 2 == 1 {
            Ok(DirState { addr: spec_add16(st.addr, 1), ..st })
        } else {
            Ok(st)
        }
    } else if ts[0].len() > 0 && ts[0].last() == ':' {
        let name = ts[0].drop_last();
        if name.len() == 0 {
            Err(SourceError::UnrecognizedDirective)
        } else if ts.len() < 2 {
            Err(SourceError::MissingCommandAfterLabel)
        } else if ts[1] == ".byte"@ {
            match write_bytes(st.mem, st.addr, ts.skip(2), ts.len() - 2) {
                Some((m2, a2)) => Ok(
                    DirState { mem: m2, addr: a2, ptrs: st.ptrs.push((name, st.addr)), ..st },
                ),
                None => Err(SourceError::BadValue),
            }
        } else if ts[1] == ".word"@ {
            match write_words(st.mem, st.addr, ts.skip(2), ts.len() - 2) {
                Some((m2, a2)) => Ok(
                    DirState { mem: m2, addr: a2, ptrs: st.ptrs.push((name, st.addr)), ..st },
                ),
                None => Err(SourceError::BadValue),
            }
        } else {
            Err(SourceError::UnrecognizedCommandAfterLabel)
        }
    } else {
        Err(SourceError::UnrecognizedDirective)
    }
}

/// The assembler's state after the first `n` directive lines.
pub open spec fn dirs_spec(lines: Seq<Seq<char>>, st0: DirState, n: int) -> Result<
    DirState,
    SourceError,
>
    decreases n,
{
    if n <= 0 {
        Ok(st0)
    } else {
        match dirs_spec(lines, st0, n - 1) {
            Err(e) => Err(e),
            Ok(st) => dir_step(st, line_tokens(lines[n - 1])),
        }
    }
}

/// A directive fault stands: every later line leaves it in place.
pub proof fn lemma_dirs_err_stable(lines: Seq<Seq<char>>, st0: DirState, i: int, n: int)
    requires
        0 <= i <= n,
        dirs_spec(lines, st0, i) is Err,
    ensures
        dirs_spec(lines, st0, n) == dirs_spec(lines, st0, i),
    decreases n - i,
{
    if i < n {
        lemma_dirs_err_stable(lines, st0, i, n - 1);
    }
}

/// Write a zero-filled run of `count` bytes starting at `addr`.
fn run_fill_zeros(mem: &mut Memory, addr: u16, count: u16) -> (r: u16)
    ensures
        ({
            let (m2, a2) = fill_zeros(old(mem)@, addr, count as int);
            final(mem)@ == m2 && r == a2
        }),
{
    let mut k: u16 = 0;
    let mut cur = addr;
    while k < count
        invariant
            k <= count,
            ({
                let (m2, a2) = fill_zeros(old(mem)@, addr, k as int);
                mem@ == m2 && cur == a2
            }),
        decreases count - k,
    {
        mem.insert_byte(&MemAddr(cur), 0);
        cur = cur.wrapping_add(1);
        k = k + 1;
    }
    cur
}

/// Write `count` byte values, taken from the tokens starting at `from`, at
/// consecutive addresses starting at `addr`.
fn run_write_bytes(mem: &mut Memory, addr: u16, ts: &Vec<Vec<char>>, from: usize, count: usize) -> (r:
    Result<u16, SourceError>)
    requires
        from + count <= ts@.len(),
    ensures
        ({
            let w = write_bytes(
                old(mem)@,
                addr,
                views(ts@).subrange(from as int, (from + count) as int),
                count as int,
            );
            &&& (r matches Ok(a) ==> w matches Some(p) && final(mem)@ == p.0 && a == p.1)
            &&& (r matches Err(e) ==> w is None && e == SourceError::BadValue)
        }),
{
    let ghost sub = views(ts@).subrange(from as int, (from + count) as int);
    let tslen = ts.len();
    let mut k: usize = 0;
    let mut cur = addr;
    while k < count
        invariant
            k <= count,
            from + count <= tslen,
            tslen == ts@.len(),
            sub == views(ts@).subrange(from as int, (from + count) as int),
            ({
                let w = write_bytes(old(mem)@, addr, sub, k as int);
                w matches Some(p) && mem@ == p.0 && cur == p.1
            }),
        decreases count - k,
    {
        let b = match parse_i8_dec(&ts[from + k]) {
            Some(b) => b,
            None => {
                proof {
                    assert(spec_parse_i8_dec(sub[k as int]) is None);
                    assert(write_bytes(old(mem)@, addr, sub, k + 1) is None);
                    lemma_write_bytes_none_stable(old(mem)@, addr, sub, k + 1, count as int);
                }
                return Err(SourceError::BadValue);
            },
        };
        mem.insert_byte(&MemAddr(cur), b);
        cur = cur.wrapping_add(1);
        k = k + 1;
    }
    Ok(cur)
}

/// Write `count` word values, taken from the tokens starting at `from`,
/// little-endian at consecutive even steps starting at `addr`.
fn run_write_words(mem: &mut Memory, addr: u16, ts: &Vec<Vec<char>>, from: usize, count: usize) -> (r:
    Result<u16, SourceError>)
    requires
        from + count <= ts@.len(),
    ensures
        ({
            let w = write_words(
                old(mem)@,
                addr,
                views(ts@).subrange(from as int, (from + count) as int),
                count as int,
            );
            &&& (r matches Ok(a) ==> w matches Some(p) && final(mem)@ == p.0 && a == p.1)
            &&& (r matches Err(e) ==> w is None && e == SourceError::BadValue)
        }),
{
    let ghost sub = views(ts@).subrange(from as int, (from + count) as int);
    let tslen = ts.len();
    let mut k: usize = 0;
    let mut cur = addr;
    while k < count
        invariant
            k <= count,
            from + count <= tslen,
            tslen == ts@.len(),
            sub == views(ts@).subrange(from as int, (from + count) as int),
            ({
                let w = write_words(old(mem)@, addr, sub, k as int);
                w matches Some(p) && mem@ == p.0 && cur == p.1
            }),
        decreases count - k,
    {
        let wv = match parse_i16_dec(&ts[from + k]) {
            Some(w) => w,
            None => {
                proof {
                    assert(spec_parse_i16_dec(sub[k as int]) is None);
                    assert(write_words(old(mem)@, addr, sub, k + 1) is None);
                    lemma_write_words_none_stable(old(mem)@, addr, sub, k + 1, count as int);
                }
                return Err(SourceError::BadValue);
            },
        };
        mem.insert_word(&MemAddr(cur), wv);
        cur = cur.wrapping_add(2);
        k = k + 1;
    }
    Ok(cur)
}

/// Walk the `.data` section once, laying out memory and binding aliases and
/// labels, as `dirs_spec` describes line by line.
pub fn parse_directives(lines: &Vec<Vec<char>>, mem_addr: MemAddr) -> (r: Result<
    (Memory, Aliases, Pointers),
    SourceError,
>)
    ensures
        ({
            let fin = dirs_spec(
                views(lines@),
                init_dir_state(mem_addr.0),
                views(lines@).len() as int,
            );
            &&& (r is Ok <==> fin is Ok)
            &&& (r matches Ok(t) ==> (fin matches Ok(st) && t.0@ == st.mem && alias_views(t.1@)
                == st.env && ptr_views(t.2@) == st.ptrs))
            &&& (r matches Err(e) ==> (fin matches Err(e2) && e == e2))
        }),
{
    let ghost glines = views(lines@);
    let ghost st0 = init_dir_state(mem_addr.0);
    let mut memory = Memory::new();
    let mut env: Aliases = Vec::new();
    let mut ptrs: Pointers = Vec::new();
    let mut cur: u16 = mem_addr.0;
    let n = lines.len();
    let mut i: usize = 0;
    proof {
        assert(alias_views(env@) =~= st0.env);
        assert(ptr_views(ptrs@) =~= st0.ptrs);
    }
    while i < n
        invariant
            i <= n,
            n == glines.len(),
            glines == views(lines@),
            st0 == init_dir_state(mem_addr.0),
            ({
                let d = dirs_spec(glines, st0, i as int);
                d matches Ok(st) && memory@ == st.mem && cur == st.addr && alias_views(env@)
                    == st.env && ptr_views(ptrs@) == st.ptrs
            }),
        decreases n - i,
    {
        let ghost st_i = dirs_spec(glines, st0, i as int)->Ok_0;
        let ts = exec_line_tokens(&lines[i]);
        let ghost gts = line_tokens(glines[i as int]);
        proof {
            assert(views(lines@)[i as int] == lines@[i as int]@);
            assert(views(ts@) == gts);
        }
        let tn = ts.len();
        if tn == 0 {
        } else if chars_eq_str(&ts[0], ".set") {
            if tn >= 3 {
                env.push((clone_chars(&ts[1]), clone_chars(&ts[2])));
                proof {
                    assert(alias_views(env@) =~= st_i.env.push((gts[1], gts[2])));
                }
            } else {
                proof {
                    lemma_dirs_err_stable(glines, st0, i + 1, n as int);
                }
                return Err(SourceError::MissingArgument);
            }
        } else if chars_eq_str(&ts[0], ".space") {
            if tn < 2 {
                proof {
                    lemma_dirs_err_stable(glines, st0, i + 1, n as int);
                }
                return Err(SourceError::MissingArgument);
            }
            let cnt = match parse_uint(&ts[1], 10) {
                Some(c) => c,
                None => {
                    proof {
                        lemma_dirs_err_stable(glines, st0, i + 1, n as int);
                    }
                    return Err(SourceError::BadValue);
                },
            };
            if tn == 2 {
                cur = run_fill_zeros(&mut memory, cur, cnt);
            } else if tn >= 2 + cnt as usize {
                proof {
                    assert(views(ts@).subrange(2, 2 + cnt as int) =~= gts.subrange(
                        2,
                        2 + cnt as int,
                    ));
                }
                cur = match run_write_bytes(&mut memory, cur, &ts, 2, cnt as usize) {
                    Ok(a) => a,
                    Err(e) => {
                        proof {
                            lemma_dirs_err_stable(glines, st0, i + 1, n as int);
                        }
                        return Err(e);
                    },
                };
            } else {
                proof {
                    lemma_dirs_err_stable(glines, st0, i + 1, n as int);
                }
                return Err(SourceError::MissingArgument);
            }
        } else if chars_eq_str(&ts[0], ".even") {
            if cur % 2 == 1 {
                cur = cur.wrapping_add(1);
            }
        } else {
            let t0 = &ts[0];
            let t0n = t0.len();
            if t0n > 0 && t0[t0n - 1] == ':' {
                let name = sub_chars(t0, 0, t0n - 1);
                proof {
                    assert(name@ =~= gts[0].drop_last());
                }
                if name.len() == 0 {
                    proof {
                        lemma_dirs_err_stable(glines, st0, i + 1, n as int);
                    }
                    return Err(SourceError::UnrecognizedDirective);
                }
                if tn < 2 {
                    proof {
                        lemma_dirs_err_stable(glines, st0, i + 1, n as int);
                    }
                    return Err(SourceError::MissingCommandAfterLabel);
                }
                if chars_eq_str(&ts[1], ".byte") {
                    let bound_at = cur;
                    proof {
                        assert(views(ts@).subrange(2, tn as int) =~= gts.skip(2));
                    }
                    cur = match run_write_bytes(&mut memory, cur, &ts, 2, tn - 2) {
                        Ok(a) => a,
                        Err(e) => {
                            proof {
                                lemma_dirs_err_stable(glines, st0, i + 1, n as int);
                            }
                            return Err(e);
                        },
                    };
                    ptrs.push((name, bound_at));
                    proof {
                        assert(ptr_views(ptrs@) =~= st_i.ptrs.push(
                            (gts[0].drop_last(), st_i.addr),
                        ));
                    }
                } else if chars_eq_str(&ts[1], ".word") {
                    let bound_at = cur;
                    proof {
                        assert(views(ts@).subrange(2, tn as int) =~= gts.skip(2));
                    }
                    cur = match run_write_words(&mut memory, cur, &ts, 2, tn - 2) {
                        Ok(a) => a,
                        Err(e) => {
                            proof {
                                lemma_dirs_err_stable(glines, st0, i + 1, n as int);
                            }
                            return Err(e);
                        },
                    };
                    ptrs.push((name, bound_at));
                    proof {
                        assert(ptr_views(ptrs@) =~= st_i.ptrs.push(
                            (gts[0].drop_last(), st_i.addr),
                        ));
                    }
                } else {
                    proof {
                        lemma_dirs_err_stable(glines, st0, i + 1, n as int);
                    }
                    return Err(SourceError::UnrecognizedCommandAfterLabel);
                }
            } else {
                proof {
                    lemma_dirs_err_stable(glines, st0, i + 1, n as int);
                }
                return Err(SourceError::UnrecognizedDirective);
            }
        }
        proof {
            let d1 = dirs_spec(glines, st0, i + 1);
            assert(d1 matches Ok(st) && memory@ == st.mem && cur == st.addr && alias_views(env@)
                == st.env && ptr_views(ptrs@) == st.ptrs);
        }
        i = i + 1;
    }
    Ok((memory, env, ptrs))
}

/// The `0x`-prefixed uppercase hexadecimal token of a value, as the rewrite
/// pass emits it.
pub open spec fn hex_token(v: u16) -> Seq<char> {
    seq!['0', 'x'] + crate::text::spec_hex(v as int)
}

/// Emit the `0x`-prefixed hexadecimal token of a value.
pub fn exec_hex_token(v: u16) -> (r: Vec<char>)
    ensures
        r@ == hex_token(v),
{
    let mut r: Vec<char> = Vec::new();
    r.push('0');
    r.push('x');
    let digits = crate::text::hex_chars(v);
    let n = digits.len();
    let mut i: usize = 0;
    while i < n
        invariant
            i <= n,
            n == digits@.len(),
            r@ == seq!['0', 'x'] + digits@.take(i as int),
        decreases n - i,
    {
        r.push(digits[i]);
        proof {
            assert(r@ =~= seq!['0', 'x'] + digits@.take(i + 1));
        }
        i = i + 1;
    }
    proof {
        assert(digits@.take(n as int) =~= digits@);
        assert(r@ =~= hex_token(v));
    }
    r
}

/// The displacement token a branch target resolves to: the 16-bit distance
/// from the current instruction to the target, read as signed, divided by 2
/// rounding toward zero, minus 1 — matching the branch instruction's habit of
/// adding twice its displacement to the already-advanced program counter.
pub open spec fn branch_delta(target: u16, cur: u16) -> u16 {
    let diff = spec_sub16(target, cur);
    if diff < 0x8000 {
        if diff / 2 >= 1 {
            (diff / 2 - 1) as u16
        } else {
            0xFFFFu16
        }
    } else {
        (0x10000 - ((0x10000 - diff) / 2 + 1)) as u16
    }
}

/// Compute a branch displacement token value, as `branch_delta` describes.
pub fn exec_branch_delta(target: u16, cur: u16) -> (r: u16)
    ensures
        r == branch_delta(target, cur),
{
    let diff = target.wrapping_sub(cur);
    if diff < 0x8000 {
        let q = diff / 2;
        if q >= 1 {
            q - 1
        } else {
            0xFFFF
        }
    } else {
        let mag: u32 = 0x10000u32 - diff as u32;
        let qm: u32 = mag / 2;
        (0x10000u32 - (qm + 1)) as u16
    }
}

/// Which half of a label's resolved address a `lo()`/`hi()` form extracts.
#[derive(Clone, Copy, PartialEq, Eq, Structural, Debug)]
pub enum PartOfAddr {
    /// The low byte.
    Lo,
    /// The high byte.
    Hi,
}

/// What a `lo(label)`/`hi(label)` token resolves to: the named byte of the
/// label's address as a hexadecimal literal token, or a fault where the
/// label was never bound. The word must carry the three-character prefix and
/// a closing parenthesis.
pub open spec fn spec_part_of_label(
    word: Seq<char>,
    ptrs: Seq<(Seq<char>, u16)>,
    part: PartOfAddr,
) -> Result<Seq<char>, SourceError> {
    let label = word.subrange(3, word.len() - 1);
    match assoc_addr(ptrs, label) {
        Some(v) => Ok(
            hex_token(
                if part == PartOfAddr::Lo {
                    v & 0xFF
                } else {
                    v >> 8
                },
            ),
        ),
        None => Err(SourceError::UnresolvableLabel),
    }
}

/// Resolve a `lo(label)`/`hi(label)` token to the named byte of the label's
/// address, as `spec_part_of_label` describes.
pub fn get_part_of_label(word: &Vec<char>, ptrs: &Pointers, part: PartOfAddr) -> (r: Result<
    Vec<char>,
    SourceError,
>)
    requires
        word@.len() >= 4,
    ensures
        ({
            let sp = spec_part_of_label(word@, ptr_views(ptrs@), part);
            &&& (r matches Ok(t) ==> (sp matches Ok(t2) && t@ == t2))
            &&& (r matches Err(e) ==> (sp matches Err(e2) && e == e2))
            &&& (r is Ok <==> sp is Ok)
        }),
{
    let wn = word.len();
    let label = sub_chars(word, 3, wn - 1);
    proof {
        assert(label@ =~= word@.subrange(3, word@.len() - 1));
    }
    match ptr_lookup(ptrs, &label) {
        Some(v) => {
            let byte: u16 = match part {
                PartOfAddr::Lo => v & 0xFF,
                PartOfAddr::Hi => v >> 8,
            };
            Ok(exec_hex_token(byte))
        },
        None => Err(SourceError::UnresolvableLabel),
    }
}

/// Whether a token is a `lo(...)` or `hi(...)` form: the two-letter prefix,
/// an opening and a closing parenthesis.
pub open spec fn is_part_form(t: Seq<char>, c0: char, c1: char) -> bool {
    t.len() >= 4 && t[0] == c0 && t[1] == c1 && t[2] == '(' && t.last() == ')'
}

/// What the rewrite pass makes of one token: `lo()`/`hi()` forms become the
/// named byte of their label's address; then an alias is replaced by its
/// substitution; then a (possibly substituted) token naming a label becomes
/// the branch displacement from the current instruction to it; anything else
/// stands unchanged.
pub open spec fn subst_token(
    t: Seq<char>,
    env: Seq<(Seq<char>, Seq<char>)>,
    ptrs: Seq<(Seq<char>, u16)>,
    cur: u16,
) -> Result<Seq<char>, SourceError> {
    if is_part_form(t, 'l', 'o') {
        spec_part_of_label(t, ptrs, PartOfAddr::Lo)
    } else if is_part_form(t, 'h', 'i') {
        spec_part_of_label(t, ptrs, PartOfAddr::Hi)
    } else {
        let t2 = match assoc_chars(env, t) {
            Some(sub) => sub,
            None => t,
        };
        match assoc_addr(ptrs, t2) {
            Some(target) => Ok(hex_token(branch_delta(target, cur))),
            None => Ok(t2),
        }
    }
}

/// Rewrite one token, as `subst_token` describes.
pub fn exec_subst_token(t: &Vec<char>, env: &Aliases, ptrs: &Pointers, cur: u16) -> (r: Result<
    Vec<char>,
    SourceError,
>)
    ensures
        ({
            let sp = subst_token(t@, alias_views(env@), ptr_views(ptrs@), cur);
            &&& (r matches Ok(t2) ==> (sp matches Ok(t3) && t2@ == t3))
            &&& (r matches Err(e) ==> (sp matches Err(e2) && e == e2))
            &&& (r is Ok <==> sp is Ok)
        }),
{
    let tn = t.len();
    if tn >= 4 && t[0] == 'l' && t[1] == 'o' && t[2] == '(' && t[tn - 1] == ')' {
        get_part_of_label(t, ptrs, PartOfAddr::Lo)
    } else if tn >= 4 && t[0] == 'h' && t[1] == 'i' && t[2] == '(' && t[tn - 1] == ')' {
        get_part_of_label(t, ptrs, PartOfAddr::Hi)
    } else {
        let t2 = match alias_lookup(env, t) {
            Some(sub) => sub,
            None => clone_chars(t),
        };
        match ptr_lookup(ptrs, &t2) {
            Some(target) => Ok(exec_hex_token(exec_branch_delta(target, cur))),
            None => Ok(t2),
        }
    }
}

/// The label bindings that the first pass over the `.text` section makes:
/// each label line binds its name to the address the next instruction will
/// occupy; instruction lines advance that address by 2; blank lines change
/// nothing.
pub open spec fn pass1(
    lines: Seq<Seq<char>>,
    pc0: u16,
    ptrs0: Seq<(Seq<char>, u16)>,
    n: int,
) -> Result<(u16, Seq<(Seq<char>, u16)>), SourceError>
    decreases n,
{
    if n <= 0 {
        Ok((pc0, ptrs0))
    } else {
        match pass1(lines, pc0, ptrs0, n - 1) {
            Err(e) => Err(e),
            Ok((pc, ptrs)) => {
                let body = spec_strip_comment(lines[n - 1]);
                if spec_tokens(body).len() == 0 {
                    Ok((pc, ptrs))
                } else if spec_find(body, ':') >= 0 {
                    let pre = body.take(spec_find(body, ':'));
                    let pts = spec_tokens(pre);
                    if pts.len() == 1 {
                        Ok((pc, ptrs.push((pts[0], pc))))
                    } else {
                        Err(SourceError::BadLabel)
                    }
                } else {
                    Ok((spec_add16(pc, 2), ptrs))
                }
            },
        }
    }
}

/// A first-pass fault stands: every later line leaves it in place.
pub proof fn lemma_pass1_err_stable(
    lines: Seq<Seq<char>>,
    pc0: u16,
    ptrs0: Seq<(Seq<char>, u16)>,
    i: int,
    n: int,
)
    requires
        0 <= i <= n,
        pass1(lines, pc0, ptrs0, i) is Err,
    ensures
        pass1(lines, pc0, ptrs0, n) == pass1(lines, pc0, ptrs0, i),
    decreases n - i,
{
    if i < n {
        lemma_pass1_err_stable(lines, pc0, ptrs0, i, n - 1);
    }
}

/// The first `k` tokens of a line rewritten, first fault first.
pub open spec fn subst_tokens(
    ts: Seq<Seq<char>>,
    env: Seq<(Seq<char>, Seq<char>)>,
    ptrs: Seq<(Seq<char>, u16)>,
    cur: u16,
    k: int,
) -> Result<Seq<Seq<char>>, SourceError>
    decreases k,
{
    if k <= 0 {
        Ok(Seq::empty())
    } else {
        match subst_tokens(ts, env, ptrs, cur, k - 1) {
            Err(e) => Err(e),
            Ok(pre) => match subst_token(ts[k - 1], env, ptrs, cur) {
                Ok(t2) => Ok(pre.push(t2)),
                Err(e) => Err(e),
            },
        }
    }
}

/// The first `k` tokens joined back into one line, single spaces between.
pub open spec fn join_tokens(ts: Seq<Seq<char>>, k: int) -> Seq<char>
    decreases k,
{
    if k <= 0 {
        Seq::empty()
    } else if k == 1 {
        ts[0]
    } else {
        join_tokens(ts, k - 1) + seq![' '] + ts[k - 1]
    }
}

/// Join a token list back into one line, as `join_tokens` describes.
#[verifier::loop_isolation(false)]
pub fn exec_join_tokens(ts: &Vec<Vec<char>>) -> (r: Vec<char>)
    ensures
        r@ == join_tokens(views(ts@), ts@.len() as int),
{
    let mut r: Vec<char> = Vec::new();
    let n = ts.len();
    let mut k: usize = 0;
    proof {
        assert(r@ =~= join_tokens(views(ts@), 0));
    }
    while k < n
        invariant
            k <= n,
            r@ == join_tokens(views(ts@), k as int),
        decreases n - k,
    {
        if k > 0 {
            r.push(' ');
        }
        let ghost base = r@;
        let t = &ts[k];
        let tl = t.len();
        let mut j2: usize = 0;
        while j2 < tl
            invariant
                j2 <= tl,
                tl == t@.len(),
                r@ == base + t@.take(j2 as int),
            decreases tl - j2,
        {
            r.push(t[j2]);
            proof {
                assert(r@ =~= base + t@.take(j2 + 1));
            }
            j2 = j2 + 1;
        }
        proof {
            assert(t@.take(tl as int) =~= t@);
            assert(views(ts@)[k as int] == ts@[k as int]@);
            if k == 0 {
                assert(r@ =~= join_tokens(views(ts@), 1));
            } else {
                assert(r@ =~= join_tokens(views(ts@), k as int) + seq![' '] + views(
                    ts@,
                )[k as int]);
                assert(r@ =~= join_tokens(views(ts@), k + 1));
            }
        }
        k = k + 1;
    }
    r
}

/// The address of the `cnt`-th instruction line: the starting counter plus
/// two per line, wrapping within the 16-bit space.
pub open spec fn instr_addr_of(pc0: u16, cnt: int) -> u16 {
    spec_add16(pc0, (2 * (cnt % 0x8000)) as u16)
}

/// The instructions that the second pass over the `.text` section emits:
/// blank and label lines are passed over; each remaining line is rewritten
/// token by token against the alias and label tables, decoded, and placed at
/// the next instruction address.
pub open spec fn pass2(
    lines: Seq<Seq<char>>,
    env: Seq<(Seq<char>, Seq<char>)>,
    ptrs: Seq<(Seq<char>, u16)>,
    pc0: u16,
    n: int,
) -> Result<(Map<u16, crate::isa::Instruction>, int), SourceError>
    decreases n,
{
    if n <= 0 {
        Ok((Map::empty(), 0))
    } else {
        match pass2(lines, env, ptrs, pc0, n - 1) {
            Err(e) => Err(e),
            Ok((m, cnt)) => {
                let body = spec_strip_comment(lines[n - 1]);
                let ts = spec_tokens(body);
                if ts.len() == 0 {
                    Ok((m, cnt))
                } else if spec_find(body, ':') >= 0 {
                    Ok((m, cnt))
                } else {
                    let addr = instr_addr_of(pc0, cnt);
                    match subst_tokens(ts, env, ptrs, addr, ts.len() as int) {
                        Err(e) => Err(e),
                        Ok(ts2) => match crate::parsing::spec_decode_line(
                            join_tokens(ts2, ts2.len() as int),
                        ) {
                            Ok(inst) => Ok((m.insert(addr, inst), cnt + 1)),
                            Err(pe) => Err(SourceError::Decode(pe)),
                        },
                    }
                }
            },
        }
    }
}

/// A second-pass fault stands: every later line leaves it in place.
pub proof fn lemma_pass2_err_stable(
    lines: Seq<Seq<char>>,
    env: Seq<(Seq<char>, Seq<char>)>,
    ptrs: Seq<(Seq<char>, u16)>,
    pc0: u16,
    i: int,
    n: int,
)
    requires
        0 <= i <= n,
        pass2(lines, env, ptrs, pc0, i) is Err,
    ensures
        pass2(lines, env, ptrs, pc0, n) == pass2(lines, env, ptrs, pc0, i),
    decreases n - i,
{
    if i < n {
        lemma_pass2_err_stable(lines, env, ptrs, pc0, i, n - 1);
    }
}

/// What assembling the `.text` section yields: the label bindings of the
/// first pass joined to those of the `.data` section, then the rewritten and
/// decoded instructions of the second pass.
pub open spec fn spec_parse_instructions(
    lines: Seq<Seq<char>>,
    env: Seq<(Seq<char>, Seq<char>)>,
    ptrs0: Seq<(Seq<char>, u16)>,
    pc0: u16,
) -> Result<Map<u16, crate::isa::Instruction>, SourceError> {
    match pass1(lines, pc0, ptrs0, lines.len() as int) {
        Err(e) => Err(e),
        Ok((_pc, ptrs)) => match pass2(lines, env, ptrs, pc0, lines.len() as int) {
            Err(e) => Err(e),
            Ok((m, _cnt)) => Ok(m),
        },
    }
}

/// Assemble the `.text` section: resolve labels over two passes, rewrite
/// `lo()`/`hi()` forms, aliases and branch targets to literal tokens, and
/// decode every instruction line, as `spec_parse_instructions` describes.
#[verifier::loop_isolation(false)]
#[verifier::rlimit(100)]
#[verifier::spinoff_prover]
pub fn parse_instructions(
    lines: &Vec<Vec<char>>,
    env: &Aliases,
    ptrs: Pointers,
    pc: &crate::execute::ProgCounter,
) -> (r: Result<Instructions, SourceError>)
    ensures
        ({
            let fin = spec_parse_instructions(
                views(lines@),
                alias_views(env@),
                ptr_views(ptrs@),
                pc.0,
            );
            &&& (r is Ok <==> fin is Ok)
            &&& (r matches Ok(m) ==> (fin matches Ok(sm) && m@ == sm))
            &&& (r matches Err(e) ==> (fin matches Err(e2) && e == e2))
        }),
{
    broadcast use vstd::std_specs::hash::group_hash_axioms;

    let ghost glines = views(lines@);
    let ghost genv = alias_views(env@);
    let ghost gptrs0 = ptr_views(ptrs@);
    let pc0 = pc.0;
    let n = lines.len();

    // First pass: bind each label to the address the next instruction line
    // will occupy.
    let mut p = ptrs;
    let mut pc1: u16 = pc0;
    let mut i: usize = 0;
    while i < n
        invariant
            i <= n,
            n == glines.len(),
            glines == views(lines@),
            pass1(glines, pc0, gptrs0, i as int) == Ok::<(u16, Seq<(Seq<char>, u16)>), SourceError>(
                (pc1, ptr_views(p@)),
            ),
        decreases n - i,
    {
        let ghost prev_ptrs = ptr_views(p@);
        let body = crate::text::strip_comment(&lines[i]);
        proof {
            assert(views(lines@)[i as int] == lines@[i as int]@);
        }
        let ts = crate::text::tokens_of(&body);
        if ts.len() == 0 {
        } else {
            match crate::text::find_char(&body, ':') {
                Some(ci) => {
                    proof {
                        crate::text::lemma_spec_find(body@, ':');
                    }
                    let pre = sub_chars(&body, 0, ci);
                    proof {
                        assert(pre@ =~= spec_strip_comment(glines[i as int]).take(
                            spec_find(spec_strip_comment(glines[i as int]), ':'),
                        ));
                    }
                    let pts = crate::text::tokens_of(&pre);
                    if pts.len() == 1 {
                        p.push((clone_chars(&pts[0]), pc1));
                        proof {
                            assert(ptr_views(p@) =~= prev_ptrs.push(
                                (spec_tokens(pre@)[0], pc1),
                            ));
                        }
                    } else {
                        proof {
                            lemma_pass1_err_stable(glines, pc0, gptrs0, i + 1, n as int);
                        }
                        return Err(SourceError::BadLabel);
                    }
                },
                None => {
                    pc1 = pc1.wrapping_add(2);
                },
            }
        }
        i = i + 1;
    }
    let ghost gptrs = pass1(glines, pc0, gptrs0, n as int)->Ok_0.1;
    proof {
        assert(ptr_views(p@) == gptrs);
    }

    // Second pass: rewrite and decode each instruction line in order.
    let mut m: Instructions = std::collections::HashMap::new();
    let mut cnt: usize = 0;
    let mut j: usize = 0;
    while j < n
        invariant
            j <= n,
            cnt <= j,
            n == glines.len(),
            glines == views(lines@),
            genv == alias_views(env@),
            gptrs == ptr_views(p@),
            pass2(glines, genv, gptrs, pc0, j as int) == Ok::<
                (Map<u16, crate::isa::Instruction>, int),
                SourceError,
            >((m@, cnt as int)),
        decreases n - j,
    {
        let body = crate::text::strip_comment(&lines[j]);
        proof {
            assert(views(lines@)[j as int] == lines@[j as int]@);
        }
        let ts = crate::text::tokens_of(&body);
        let tn = ts.len();
        let is_label = match crate::text::find_char(&body, ':') {
            Some(_) => true,
            None => false,
        };
        if tn == 0 || is_label {
        } else {
            let addr: u16 = pc0.wrapping_add(((cnt % 0x8000) * 2) as u16);
            proof {
                assert(addr == instr_addr_of(pc0, cnt as int));
            }
            let ghost gts = spec_tokens(spec_strip_comment(glines[j as int]));
            let mut ts2: Vec<Vec<char>> = Vec::new();
            proof {
                assert(views(ts2@) =~= Seq::<Seq<char>>::empty());
            }
            let mut k: usize = 0;
            let mut fault: Option<SourceError> = None;
            while k < tn
                invariant
                    k <= tn,
                    tn == ts@.len(),
                    views(ts@) == gts,
                    genv == alias_views(env@),
                    gptrs == ptr_views(p@),
                    fault is None ==> subst_tokens(gts, genv, gptrs, addr, k as int) == Ok::<
                        Seq<Seq<char>>,
                        SourceError,
                    >(views(ts2@)),
                    fault matches Some(e) ==> (subst_tokens(
                        gts,
                        genv,
                        gptrs,
                        addr,
                        tn as int,
                    ) matches Err(e2) && e == e2),
                decreases tn - k,
            {
                if fault.is_none() {
                    let ghost prev = views(ts2@);
                    match exec_subst_token(&ts[k], env, &p, addr) {
                        Ok(t2) => {
                            let ghost gt2 = t2@;
                            ts2.push(t2);
                            proof {
                                assert(views(ts2@) =~= prev.push(gt2));
                            }
                        },
                        Err(e) => {
                            proof {
                                lemma_subst_tokens_err_stable(
                                    gts,
                                    genv,
                                    gptrs,
                                    addr,
                                    k + 1,
                                    tn as int,
                                );
                            }
                            fault = Some(e);
                        },
                    }
                }
                k = k + 1;
            }
            match fault {
                Some(e) => {
                    proof {
                        lemma_pass2_err_stable(glines, genv, gptrs, pc0, j + 1, n as int);
                    }
                    return Err(e);
                },
                None => {},
            }
            let joined = exec_join_tokens(&ts2);
            let inst = match crate::isa::Instruction::decode_chars(&joined) {
                Ok(inst) => inst,
                Err(pe) => {
                    proof {
                        lemma_pass2_err_stable(glines, genv, gptrs, pc0, j + 1, n as int);
                    }
                    return Err(SourceError::Decode(pe));
                },
            };
            m.insert(addr, inst);
            cnt = cnt + 1;
        }
        j = j + 1;
    }
    Ok(m)
}

/// A token-rewrite fault stands: every later token leaves it in place.
pub proof fn lemma_subst_tokens_err_stable(
    ts: Seq<Seq<char>>,
    env: Seq<(Seq<char>, Seq<char>)>,
    ptrs: Seq<(Seq<char>, u16)>,
    cur: u16,
    i: int,
    n: int,
)
    requires
        0 <= i <= n,
        subst_tokens(ts, env, ptrs, cur, i) is Err,
    ensures
        subst_tokens(ts, env, ptrs, cur, n) == subst_tokens(ts, env, ptrs, cur, i),
    decreases n - i,
{
    if i < n {
        lemma_subst_tokens_err_stable(ts, env, ptrs, cur, i, n - 1);
    }
}

/// The index of the first line at or after `from` that consists of exactly
/// the one given marker token, or -1 where none does.
pub open spec fn find_marker(lines: Seq<Seq<char>>, from: int, name: Seq<char>) -> int
    decreases lines.len() - from,
{
    if from < 0 || from >= lines.len() {
        -1
    } else if line_tokens(lines[from]) == seq![name] {
        from
    } else {
        find_marker(lines, from + 1, name)
    }
}

/// Find the first marker line at or after `from`, as `find_marker`
/// describes.
#[verifier::loop_isolation(false)]
pub fn exec_find_marker(lines: &Vec<Vec<char>>, from: usize, name: &str) -> (r: Option<usize>)
    ensures
        r matches Some(i) ==> find_marker(views(lines@), from as int, name@) == i as int && from
            <= i < lines@.len(),
        r is None ==> find_marker(views(lines@), from as int, name@) == -1,
{
    let n = lines.len();
    let mut i = from;
    if i > n {
        proof {
            assert(find_marker(views(lines@), from as int, name@) == -1);
        }
        return None;
    }
    while i < n
        invariant
            from <= i <= n,
            find_marker(views(lines@), from as int, name@) == find_marker(
                views(lines@),
                i as int,
                name@,
            ),
        decreases n - i,
    {
        proof {
            assert(views(lines@)[i as int] == lines@[i as int]@);
        }
        let ts = exec_line_tokens(&lines[i]);
        if ts.len() == 1 && chars_eq_str(&ts[0], name) {
            proof {
                assert(line_tokens(views(lines@)[i as int]) =~= seq![name@]);
            }
            return Some(i);
        }
        proof {
            if line_tokens(views(lines@)[i as int]) == seq![name@] {
                assert(views(ts@).len() == 1);
                assert(views(ts@)[0] == name@);
            }
        }
        i = i + 1;
    }
    None
}

/// Whether every line before index `d` is blank once comments are cut.
pub open spec fn all_blank_before(lines: Seq<Seq<char>>, d: int) -> bool {
    forall|j: int| 0 <= j < d ==> line_tokens(#[trigger] lines[j]).len() == 0
}

/// What assembling a whole source yields. The text splits into lines; the
/// first nonblank line must be the `.data` marker, a later line the `.text`
/// marker, a later line still the `.end` marker. The directive lines between
/// `.data` and `.text` lay out memory and bind aliases and labels; the lines
/// between `.text` and `.end` assemble into instructions; anything after
/// `.end` is ignored.
pub open spec fn spec_parse_source(s: Seq<char>, mem0: u16, pc0: u16) -> Result<
    (Map<u16, u8>, Map<u16, crate::isa::Instruction>),
    SourceError,
> {
    let lines = crate::text::spec_lines(s);
    let d = find_marker(lines, 0, ".data"@);
    if d < 0 || !all_blank_before(lines, d) {
        Err(SourceError::MissingDataSection)
    } else {
        let t = find_marker(lines, d + 1, ".text"@);
        if t < 0 {
            Err(SourceError::MissingTextSection)
        } else {
            let e = find_marker(lines, t + 1, ".end"@);
            if e < 0 {
                Err(SourceError::MissingEndMarker)
            } else {
                let dlines = lines.subrange(d + 1, t);
                let tlines = lines.subrange(t + 1, e);
                match dirs_spec(dlines, init_dir_state(mem0), dlines.len() as int) {
                    Err(er) => Err(er),
                    Ok(st) => match spec_parse_instructions(tlines, st.env, st.ptrs, pc0) {
                        Err(er) => Err(er),
                        Ok(m) => Ok((st.mem, m)),
                    },
                }
            }
        }
    }
}

/// Copies of the lines from `from` (inclusive) to `to` (exclusive).
pub fn sub_lines(lines: &Vec<Vec<char>>, from: usize, to: usize) -> (r: Vec<Vec<char>>)
    requires
        from <= to <= lines@.len(),
    ensures
        views(r@) == views(lines@).subrange(from as int, to as int),
{
    let mut r: Vec<Vec<char>> = Vec::new();
    let mut i = from;
    while i < to
        invariant
            from <= i <= to <= lines@.len(),
            views(r@) == views(lines@).subrange(from as int, i as int),
        decreases to - i,
    {
        let ghost prev = views(r@);
        r.push(clone_chars(&lines[i]));
        proof {
            assert(views(lines@)[i as int] == lines@[i as int]@);
            assert(views(r@) =~= prev.push(views(lines@)[i as int]));
            assert(views(r@) =~= views(lines@).subrange(from as int, i + 1));
        }
        i = i + 1;
    }
    r
}

/// Assemble a whole labeled source: split out the `.data`, `.text` and
/// `.end` sections, lay out the data memory, and assemble the instructions,
/// as `spec_parse_source` describes. The `.data` section is placed from
/// `mem_addr` on, the `.text` section from `instr_addr` on.
#[verifier::loop_isolation(false)]
pub fn parse_source(input: &str, mem_addr: MemAddr, instr_addr: crate::execute::ProgCounter) -> (r:
    Result<Input, SourceError>)
    ensures
        ({
            let fin = spec_parse_source(input@, mem_addr.0, instr_addr.0);
            &&& (r is Ok <==> fin is Ok)
            &&& (r matches Ok(inp) ==> (fin matches Ok(pr) && inp.mem@ == pr.0
                && inp.instructions@ == pr.1))
            &&& (r matches Err(e) ==> (fin matches Err(e2) && e == e2))
        }),
{
    let cs = crate::text::str_to_chars(input);
    let lines = crate::text::to_lines(&cs);
    let ghost glines = crate::text::spec_lines(input@);
    let n = lines.len();

    let d = match exec_find_marker(&lines, 0, ".data") {
        Some(d) => d,
        None => {
            return Err(SourceError::MissingDataSection);
        },
    };
    let mut j: usize = 0;
    while j < d
        invariant
            j <= d,
            forall|x: int| 0 <= x < j ==> line_tokens(#[trigger] glines[x]).len() == 0,
        decreases d - j,
    {
        proof {
            assert(views(lines@)[j as int] == lines@[j as int]@);
        }
        let ts = exec_line_tokens(&lines[j]);
        if ts.len() != 0 {
            return Err(SourceError::MissingDataSection);
        }
        j = j + 1;
    }
    let t = match exec_find_marker(&lines, d + 1, ".text") {
        Some(t) => t,
        None => {
            return Err(SourceError::MissingTextSection);
        },
    };
    let e = match exec_find_marker(&lines, t + 1, ".end") {
        Some(e) => e,
        None => {
            return Err(SourceError::MissingEndMarker);
        },
    };
    let dlines = sub_lines(&lines, d + 1, t);
    let tlines = sub_lines(&lines, t + 1, e);
    let (memory, env, ptrs) = match parse_directives(&dlines, mem_addr) {
        Ok(x) => x,
        Err(er) => {
            return Err(er);
        },
    };
    let instructions = match parse_instructions(&tlines, &env, ptrs, &instr_addr) {
        Ok(m) => m,
        Err(er) => {
            return Err(er);
        },
    };
    Ok(Input { mem: memory, instructions })
}

/// Assembling is a function of the source text and the two base addresses
/// alone: reassembling identical source yields identical data memory and
/// identical instructions.
pub proof fn lemma_assembly_deterministic(s1: Seq<char>, s2: Seq<char>, mem0: u16, pc0: u16)
    requires
        s1 == s2,
    ensures
        spec_parse_source(s1, mem0, pc0) == spec_parse_source(s2, mem0, pc0),
{
}

} // verus!
