//! ELF-specific extraction: header decoding, section table and the import
//! normalizer over the dynamic symbol table.
//!
//! An ELF import is a dynamic symbol flagged both imported and function
//! whose name carries a version delimiter: the name splits at the first
//! `@@` into the function name and the exporting module.  Symbols without
//! the delimiter cannot be attributed to a module and are dropped; an
//! absent dynamic symbol table yields empty imports, not an error.

use vstd::prelude::*;
use vstd::string::StrSliceExecFns;

use crate::decoder::{self, ElfHeaderRaw, ElfParsed, SymbolRaw};
use crate::entry_point::{spec_matches_entry_point, EntryPoint};
use crate::error::Error;
use crate::pe::imports::{
    group_pairs,
    spec_imports_match,
    spec_pairs_view,
    ImportFunction,
    Imports,
};
use crate::sections::{spec_matches_elf_table, SectionTable};
use crate::text::spec_decimal;
use crate::text::u64_to_decimal;

verus! {

/// The container class: 32-bit or 64-bit.
#[derive(Clone, Copy, Debug, PartialEq, Eq, Structural)]
pub enum Identifier {
    Elf32,
    Elf64,
}

/// The byte order of the container.
#[derive(Clone, Copy, Debug, PartialEq, Eq, Structural)]
pub enum Endianness {
    Little,
    Big,
}

/// The decoded ELF header facts.
#[derive(Clone, Debug, PartialEq)]
pub struct Header {
    pub version: u32,
    /// The object-file type field, rendered as its decimal value.
    pub kind: String,
    pub ident: Identifier,
    pub endianness: Endianness,
    pub program_headers_count: u16,
    pub program_headers_offset: u64,
    pub program_header_size: u16,
    pub section_headers_count: u16,
    pub section_headers_offset: u64,
    pub section_header_size: u16,
}

/// Whether the identification fields of a raw header are well-formed:
/// a known class and a known byte order.
pub open spec fn spec_elf_header_ok(h: ElfHeaderRaw) -> bool {
    (h.class == 1 || h.class == 2) && (h.encoding == 1 || h.encoding == 2)
}

/// What the decoded header holds for the raw one.
pub open spec fn spec_matches_header(hd: Header, h: ElfHeaderRaw) -> bool {
    &&& hd.version == h.version
    &&& hd.kind@ == spec_decimal(h.e_type as nat)
    &&& hd.ident == (if h.class == 1 {
        Identifier::Elf32
    } else {
        Identifier::Elf64
    })
    &&& hd.endianness == (if h.encoding == 1 {
        Endianness::Little
    } else {
        Endianness::Big
    })
    &&& hd.program_headers_count == h.phnum
    &&& hd.program_headers_offset == h.phoff
    &&& hd.program_header_size == h.phentsize
    &&& hd.section_headers_count == h.shnum
    &&& hd.section_headers_offset == h.shoff
    &&& hd.section_header_size == h.shentsize
}

impl Header {
    /// Decodes the raw header: an unknown class is rejected as an invalid
    /// identifier, then an unknown byte order as invalid endianness.
    pub fn from_raw(h: &ElfHeaderRaw) -> (r: Result<Header, Error>)
        ensures
            r is Ok <==> spec_elf_header_ok(*h),
            r matches Ok(hd) ==> spec_matches_header(hd, *h),
            r matches Err(e) ==> (e == Error::InvalidIdentifier && !(h.class == 1 || h.class == 2))
                || (e == Error::InvalidEndianness && (h.class == 1 || h.class == 2) && !(h.encoding
                == 1 || h.encoding == 2)),
    {
        let ident = if h.class == 1 {
            Identifier::Elf32
        } else if h.class == 2 {
            Identifier::Elf64
        } else {
            return Err(Error::InvalidIdentifier);
        };
        let endianness = if h.encoding == 1 {
            Endianness::Little
        } else if h.encoding == 2 {
            Endianness::Big
        } else {
            return Err(Error::InvalidEndianness);
        };
        Ok(
            Header {
                version: h.version,
                kind: u64_to_decimal(h.e_type as u64),
                ident,
                endianness,
                program_headers_count: h.phnum,
                program_headers_offset: h.phoff,
                program_header_size: h.phentsize,
                section_headers_count: h.shnum,
                section_headers_offset: h.shoff,
                section_header_size: h.shentsize,
            },
        )
    }
}

/// The first position at or after `i` where the version delimiter `@@`
/// starts, or a negative value when there is none.
pub open spec fn spec_first_delim(s: Seq<char>, i: int) -> int
    decreases s.len() - i,
{
    if i < 0 || i + 2 > s.len() {
        -1
    } else if s[i] == '@' && s[i + 1] == '@' {
        i
    } else {
        spec_first_delim(s, i + 1)
    }
}

/// The split of a symbol name at the first version delimiter: the function
/// name before it and the exporting module after it; no delimiter, no split.
pub open spec fn spec_split_version(s: Seq<char>) -> Option<(Seq<char>, Seq<char>)> {
    let p = spec_first_delim(s, 0);
    if p < 0 {
        None
    } else {
        Some((s.subrange(0, p), s.subrange(p + 2, s.len() as int)))
    }
}

/// Splits a symbol name at the first version delimiter.
fn split_version(s: &str) -> (r: Option<(String, String)>)
    ensures
        r is Some <==> spec_split_version(s@) is Some,
        r matches Some(p) ==> spec_split_version(s@) == Some((p.0@, p.1@)),
{
    let n = s.unicode_len();
    let mut i: usize = 0;
    while n >= 2 && i <= n - 2
        invariant
            n == s@.len(),
            i <= n,
            spec_first_delim(s@, 0) == spec_first_delim(s@, i as int),
        decreases n - i,
    {
        let c0 = s.get_char(i);
        let c1 = s.get_char(i + 1);
        if c0 == '@' && c1 == '@' {
            let func = s.substring_char(0, i).to_owned();
            let module = s.substring_char(i + 2, n).to_owned();
            return Some((func, module));
        }
        i = i + 1;
    }
    assert(spec_first_delim(s@, i as int) == -1);
    None
}

/// The keyed view of one dynamic symbol: only a named symbol flagged both
/// imported and function, whose name splits at a version delimiter, counts;
/// its module is the key, its function name the value, never by ordinal.
pub open spec fn spec_elf_pair(sym: SymbolRaw) -> Option<(Seq<char>, (Seq<char>, bool))> {
    if sym.is_import && sym.is_function {
        match sym.name {
            Some(n) => match spec_split_version(n@) {
                Some(fm) => Some((fm.1, (fm.0, false))),
                None => None,
            },
            None => None,
        }
    } else {
        None
    }
}

/// The keyed views of a dynamic symbol table, in table order, dropping
/// everything that cannot be attributed to a module.
pub open spec fn spec_elf_pairs(syms: Seq<SymbolRaw>) -> Seq<(Seq<char>, (Seq<char>, bool))>
    decreases syms.len(),
{
    if syms.len() == 0 {
        Seq::empty()
    } else {
        let rest = spec_elf_pairs(syms.drop_last());
        match spec_elf_pair(syms.last()) {
            Some(p) => rest.push(p),
            None => rest,
        }
    }
}

impl Imports {
    /// Normalizes the dynamic symbol table: imported function symbols with
    /// a version delimiter, grouped by their exporting module; everything
    /// else is dropped, and no symbols at all yield empty imports.
    pub fn from_elf_symbols(syms: &Vec<SymbolRaw>) -> (r: Imports)
        ensures
            spec_imports_match(r, spec_elf_pairs(syms@)),
    {
        let n = syms.len();
        let mut pairs: Vec<(String, ImportFunction)> = Vec::new();
        assert(syms@.take(0) =~= Seq::<SymbolRaw>::empty());
        for i in 0..n
            invariant
                n == syms@.len(),
                spec_pairs_view(pairs@) == spec_elf_pairs(syms@.take(i as int)),
        {
            let ghost old_pairs = pairs@;
            let sym = &syms[i];
            if sym.is_import && sym.is_function {
                match &sym.name {
                    Some(name) => {
                        match split_version(name.as_str()) {
                            Some(fm) => {
                                pairs.push(
                                    (fm.1, ImportFunction { name: fm.0, import_by_ordinal: false }),
                                );
                            },
                            None => {},
                        }
                    },
                    None => {},
                }
            }
            proof {
                assert(syms@.take(i + 1).drop_last() =~= syms@.take(i as int));
                assert(syms@.take(i + 1).last() == syms@[i as int]);
                assert(spec_pairs_view(pairs@) =~= spec_elf_pairs(syms@.take(i + 1)));
            }
        }
        proof {
            assert(syms@.take(n as int) =~= syms@);
        }
        group_pairs(&pairs)
    }
}

/// Everything extracted from one ELF image.
#[derive(Clone, Debug)]
pub struct ElfFileInformation {
    pub entry_point: EntryPoint,
    pub section_table: SectionTable,
    pub header: Header,
    pub imports: Imports,
}

/// What the ELF report holds for the decoder's output.
pub open spec fn spec_matches_elf_info(info: ElfFileInformation, p: ElfParsed) -> bool {
    &&& spec_matches_header(info.header, p.header)
    &&& spec_matches_elf_table(info.section_table, p.sections@)
    &&& spec_matches_entry_point(info.entry_point, p.header.entry, info.section_table.sections@)
    &&& spec_imports_match(info.imports, spec_elf_pairs(p.symbols@))
}

impl ElfFileInformation {
    /// Extracts the whole ELF report: header, section table, entry point
    /// and normalized imports.
    pub fn parse(buf: &[u8]) -> (r: Result<ElfFileInformation, Error>)
        ensures
            r is Ok <==> (decoder::spec_elf_raw(buf@) matches Some(p) && spec_elf_header_ok(
                p.header,
            )),
            r matches Ok(info) ==> decoder::spec_elf_raw(buf@) matches Some(p)
                && spec_matches_elf_info(info, p),
            r matches Err(e) ==> match e {
                Error::GoblinError(_) => decoder::spec_elf_raw(buf@) is None,
                Error::InvalidIdentifier | Error::InvalidEndianness => decoder::spec_elf_raw(buf@)
                    matches Some(p) && !spec_elf_header_ok(p.header),
                _ => false,
            },
    {
        let header_raw = match decoder::elf_header(buf) {
            Ok(v) => v,
            Err(msg) => {
                return Err(Error::GoblinError(msg));
            },
        };
        let sections_raw = match decoder::elf_sections(buf) {
            Ok(v) => v,
            Err(msg) => {
                return Err(Error::GoblinError(msg));
            },
        };
        let symbols = match decoder::elf_symbols(buf) {
            Ok(v) => v,
            Err(msg) => {
                return Err(Error::GoblinError(msg));
            },
        };
        let header = match Header::from_raw(&header_raw) {
            Ok(h) => h,
            Err(e) => {
                return Err(e);
            },
        };
        let section_table = SectionTable::from_elf_headers(&sections_raw);
        let entry_point = EntryPoint::resolve(header_raw.entry, &section_table);
        let imports = Imports::from_elf_symbols(&symbols);
        Ok(ElfFileInformation { entry_point, section_table, header, imports })
    }
}

} // verus!
