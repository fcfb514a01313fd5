use vstd::prelude::*;

verus! {

/// All command-line arguments of a simulator run, already read into plain
/// values. The surrounding program fills one of these in and hands it over.
pub struct CliArgs {
    /// Which instructions file to execute. With `simple` set it must be
    /// labelless with no data section; otherwise it must carry the
    /// `.data`/`.text`/`.end` sections.
    pub input_file: String,
    /// The registers' starting values file (defaults to all zero).
    pub reg_file: Option<String>,
    /// The IO ports' starting values file (defaults to empty).
    pub io_file: Option<String>,
    /// The program counter's starting value, where the `.text` section is
    /// placed.
    pub prog_counter: u16,
    /// The memory's initial address, where the `.data` section is placed.
    pub mem_init_addr: u16,
    /// The memory's starting state file; only used with `simple`.
    pub memory_file: Option<String>,
    /// Whether to use the simplistic input model: a labelless instruction
    /// list with the memory provided separately.
    pub simple: bool,
}

} // verus!
