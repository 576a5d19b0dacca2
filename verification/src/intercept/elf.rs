//! Finding `__vdso_clock_gettime` in the vDSO's ELF image.
//!
//! `goblin` parses the image; the symbol is then picked from its dynamic
//! symbol table here.

use vstd::prelude::*;
use crate::text::same_str;

verus! {

/// Information about a located vDSO symbol.
#[derive(Debug, Clone)]
pub struct VdsoSymbol {
    /// Offset from the start of the vDSO mapping.
    pub offset: u64,
    /// Size of the function (from the ELF symbol).
    pub size: u64,
    /// The symbol name.
    pub name: String,
}

/// Names of the `clock_gettime` symbols, in the order they are searched.
pub const CLOCK_GETTIME_SYMBOLS: [&'static str; 2] = ["__vdso_clock_gettime", "__vdso_clock_gettime64"];

/// ELF symbol type of a function (`STT_FUNC`).
pub const STT_FUNC: u8 = 2;

/// ELF program header type of a loadable segment (`PT_LOAD`).
pub const PT_LOAD: u32 = 1;

/// A dynamic symbol as the ELF image holds it, its name looked up in the
/// dynamic string table.
#[derive(Debug, Clone)]
pub struct ElfSymbol {
    pub name: Option<String>,
    pub value: u64,
    pub size: u64,
    pub info: u8,
}

/// The parts of an ELF image that the symbol search reads: its dynamic
/// symbols and the `(type, virtual address)` of its program headers.
#[derive(Debug, Clone)]
pub struct ElfTables {
    pub dynamic_symbols: Vec<ElfSymbol>,
    pub segments: Vec<(u32, u64)>,
}

/// What `goblin::elf::Elf::parse` reads from `bytes`, in plain values; `None`
/// when it refuses them.
pub uninterp spec fn goblin_elf_tables(bytes: Seq<u8>) -> Option<ElfTables>;

/// `goblin::elf::Elf::parse` on the vDSO bytes, its dynamic symbols (names
/// looked up with `Strtab::get_at`) and program headers copied out. The
/// result is named: it depends on the bytes alone.
#[verifier::external_body]
fn parse_elf_tables(bytes: &[u8]) -> (r: Option<ElfTables>)
    ensures
        r == goblin_elf_tables(bytes@),
{
    let elf = goblin::elf::Elf::parse(bytes).ok()?;
    let dynamic_symbols = elf.dynsyms.iter().map(|s| ElfSymbol {
        name: elf.dynstrtab.get_at(s.st_name).map(|n| n.to_string()),
        value: s.st_value,
        size: s.st_size,
        info: s.st_info,
    }).collect();
    let segments = elf.program_headers.iter().map(|p| (p.p_type, p.p_vaddr)).collect();
    Some(ElfTables { dynamic_symbols, segments })
}

/// Whether a symbol's info byte marks a function: its low four bits are `STT_FUNC`.
pub open spec fn is_function_info(info: u8) -> bool {
    info & 0xf == STT_FUNC
}

/// The name a symbol is compared by: its table name, or empty when the lookup failed.
pub open spec fn symbol_name(s: ElfSymbol) -> Seq<char> {
    match s.name {
        Some(n) => n@,
        None => Seq::empty(),
    }
}

/// Whether `s` is the `clock_gettime` entry point being searched for.
pub open spec fn is_clock_gettime(s: ElfSymbol) -> bool {
    &&& s.value != 0
    &&& is_function_info(s.info)
    &&& (symbol_name(s) == "__vdso_clock_gettime"@ || symbol_name(s) == "__vdso_clock_gettime64"@)
}

/// The virtual address of the first loadable segment, 0 when there is none.
pub open spec fn load_base(segments: Seq<(u32, u64)>) -> u64
    decreases segments.len(),
{
    if segments.len() == 0 {
        0
    } else if segments[0].0 == PT_LOAD {
        segments[0].1
    } else {
        load_base(segments.skip(1))
    }
}

/// `a - b` wrapped around to 64 bits.
pub open spec fn wrapped_difference(a: u64, b: u64) -> u64 {
    if a >= b {
        (a - b) as u64
    } else {
        (a - b + 0x1_0000_0000_0000_0000) as u64
    }
}

/// Why no `clock_gettime` symbol was found.
#[derive(Debug, Clone, Copy, PartialEq, Eq, Structural)]
pub enum ElfError {
    /// `goblin` refused the bytes.
    Parse,
    /// No dynamic function symbol has one of the searched names.
    NotFound,
}

/// The message of a symbol-search error.
pub open spec fn elf_error_text(e: ElfError) -> Seq<char> {
    match e {
        ElfError::Parse => "failed to parse vDSO as ELF"@,
        ElfError::NotFound => "could not find clock_gettime symbol in vDSO (searched: [\"__vdso_clock_gettime\", \"__vdso_clock_gettime64\"])"@,
    }
}

impl ElfError {
    /// The error's message.
    pub fn message(&self) -> (s: String)
        ensures
            s@ == elf_error_text(*self),
    {
        match self {
            ElfError::Parse => String::from_str("failed to parse vDSO as ELF"),
            ElfError::NotFound => String::from_str(
                "could not find clock_gettime symbol in vDSO (searched: [\"__vdso_clock_gettime\", \"__vdso_clock_gettime64\"])",
            ),
        }
    }
}

/// The symbol for `clock_gettime` in parsed ELF tables: the first dynamic
/// function symbol with a non-zero value named `__vdso_clock_gettime` or
/// `__vdso_clock_gettime64`, its offset taken from the first loadable
/// segment's address (wrapping).
pub fn clock_gettime_symbol(tables: &ElfTables) -> (r: Result<VdsoSymbol, ElfError>)
    ensures
        match r {
            Ok(sym) => exists|i: int|
                0 <= i < tables.dynamic_symbols@.len() && is_clock_gettime(
                    #[trigger] tables.dynamic_symbols@[i],
                ) && (forall|j: int|
                    0 <= j < i ==> !is_clock_gettime(#[trigger] tables.dynamic_symbols@[j]))
                    && sym.offset == wrapped_difference(
                    tables.dynamic_symbols@[i].value,
                    load_base(tables.segments@),
                ) && sym.size == tables.dynamic_symbols@[i].size
                    && sym.name@ == symbol_name(tables.dynamic_symbols@[i]),
            Err(e) => e == ElfError::NotFound && forall|j: int|
                0 <= j < tables.dynamic_symbols@.len() ==> !is_clock_gettime(
                    #[trigger] tables.dynamic_symbols@[j],
                ),
        },
{
    let syms = &tables.dynamic_symbols;
    let mut i: usize = 0;
    while i < syms.len()
        invariant
            i <= syms@.len(),
            syms@ == tables.dynamic_symbols@,
            forall|j: int| 0 <= j < i ==> !is_clock_gettime(#[trigger] syms@[j]),
        decreases syms@.len() - i,
    {
        let s = &syms[i];
        let name: &str = match &s.name {
            Some(n) => n.as_str(),
            None => "",
        };
        proof {
            reveal_strlit("");
        }
        assert(name@ == symbol_name(*s));
        let info = s.info;
        let func = (info & 0xf) == STT_FUNC;
        if s.value != 0 && func && (same_str(name, "__vdso_clock_gettime") || same_str(
            name,
            "__vdso_clock_gettime64",
        )) {
            let base = first_load_base(&tables.segments);
            assert(is_clock_gettime(syms@[i as int]));
            let sym = VdsoSymbol {
                offset: s.value.wrapping_sub(base),
                size: s.size,
                name: String::from_str(name),
            };
            assert(sym.offset == wrapped_difference(syms@[i as int].value, load_base(tables.segments@)));
            assert(sym.name@ == symbol_name(syms@[i as int]));
            assert(sym.size == syms@[i as int].size);
            assert(syms@ == tables.dynamic_symbols@);
            assert(forall|j: int|
                0 <= j < i ==> !is_clock_gettime(#[trigger] tables.dynamic_symbols@[j]));
            return Ok(sym);
        }
        i = i + 1;
    }
    Err(ElfError::NotFound)
}

/// The virtual address of the first loadable segment, 0 when there is none.
fn first_load_base(segments: &Vec<(u32, u64)>) -> (b: u64)
    ensures
        b == load_base(segments@),
{
    let mut i: usize = 0;
    assert(segments@.skip(0) =~= segments@);
    while i < segments.len()
        invariant
            i <= segments@.len(),
            load_base(segments@.skip(i as int)) == load_base(segments@),
        decreases segments@.len() - i,
    {
        assert(segments@.skip(i as int)[0] == segments@[i as int]);
        if segments[i].0 == PT_LOAD {
            return segments[i].1;
        }
        assert(segments@.skip(i as int).skip(1) =~= segments@.skip(i + 1));
        i = i + 1;
    }
    assert(segments@.skip(i as int).len() == 0);
    0
}

/// Finds `__vdso_clock_gettime` in the raw bytes of the vDSO mapping. The
/// mapping base is not needed: offsets are taken from the image's own
/// first loadable segment.
pub fn find_clock_gettime(vdso_bytes: &[u8], mapping_base: u64) -> (r: Result<VdsoSymbol, ElfError>)
    ensures
        match goblin_elf_tables(vdso_bytes@) {
            None => r == Err::<VdsoSymbol, ElfError>(ElfError::Parse),
            Some(t) => r is Err ==> r == Err::<VdsoSymbol, ElfError>(ElfError::NotFound),
        },
        goblin_elf_tables(vdso_bytes@) is Some ==> (r is Ok <==> exists|i: int|
            0 <= i < goblin_elf_tables(vdso_bytes@)->0.dynamic_symbols@.len() && is_clock_gettime(
                #[trigger] goblin_elf_tables(vdso_bytes@)->0.dynamic_symbols@[i],
            )),
{
    match parse_elf_tables(vdso_bytes) {
        None => Err(ElfError::Parse),
        Some(tables) => clock_gettime_symbol(&tables),
    }
}

} // verus!
