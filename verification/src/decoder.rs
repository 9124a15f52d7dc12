//! The boundary to the primitive container decoder.
//!
//! The extraction engine never parses primitive container headers itself: a
//! decoding library reads them and this module hands their content on as
//! plain records.  Everything the engine consumes from a container is one of
//! the record types below, filled by the trusted functions of this module.

use vstd::prelude::*;

verus! {

/// One PE section header, as the primitive decoder hands it over.
#[derive(Clone, Debug, PartialEq)]
pub struct SectionHeaderRaw {
    /// The fixed-width name field; NUL-padded on disk.
    pub name: Vec<u8>,
    pub virtual_size: u32,
    pub virtual_address: u32,
    pub size_of_raw_data: u32,
    pub pointer_to_raw_data: u32,
    pub characteristics: u32,
}

/// One ELF section header, reduced to what the engine reads.
#[derive(Clone, Debug, PartialEq)]
pub struct ElfSectionRaw {
    /// The index of the name in the section-name string table.
    pub sh_name: u64,
    pub sh_addr: u64,
    pub sh_size: u64,
    pub sh_offset: u64,
}

/// One entry of the PE import directory, already joined with its module.
#[derive(Clone, Debug, PartialEq)]
pub struct ImportRaw {
    /// The importing module (DLL) as named in the directory.
    pub dll: String,
    /// The symbol name; empty for ordinal-only imports.
    pub name: String,
    /// The ordinal or hint field of the lookup-table entry.
    pub ordinal: u16,
}

/// One ELF dynamic symbol, reduced to what the import normalizer reads.
#[derive(Clone, Debug, PartialEq)]
pub struct SymbolRaw {
    /// The symbol name; absent when its string-table entry is unreadable.
    pub name: Option<String>,
    pub is_import: bool,
    pub is_function: bool,
}

/// One entry of the PE attribute-certificate table: the raw signature blob
/// with its header fields.
#[derive(Clone, Debug, PartialEq)]
pub struct CertRaw {
    pub revision: u16,
    pub certificate_type: u16,
    pub data: Vec<u8>,
}

/// The root facts of a parsed PE image.
#[derive(Clone, Debug, PartialEq)]
pub struct PeRootRaw {
    /// The entry point as a relative virtual address.
    pub entry: u64,
    pub image_base: u64,
    pub is_64: bool,
    /// The resource data directory, as (virtual address, size), when present.
    pub resource_dir: Option<(u32, u32)>,
    /// The TLS data directory, as (virtual address, size), when present.
    pub tls_dir: Option<(u32, u32)>,
}

/// The header facts of a parsed ELF image.
#[derive(Clone, Debug, PartialEq)]
pub struct ElfHeaderRaw {
    pub entry: u64,
    pub version: u32,
    pub e_type: u16,
    /// The class byte of the identification: 1 for 32-bit, 2 for 64-bit.
    pub class: u8,
    /// The data-encoding byte of the identification: 1 for little-endian,
    /// 2 for big-endian.
    pub encoding: u8,
    pub phnum: u16,
    pub phoff: u64,
    pub phentsize: u16,
    pub shnum: u16,
    pub shoff: u64,
    pub shentsize: u16,
}

/// Everything the engine takes from a buffer the decoder accepts as PE.
#[derive(Clone, Debug, PartialEq)]
pub struct PeParsed {
    pub root: PeRootRaw,
    pub sections: Vec<SectionHeaderRaw>,
    pub imports: Vec<ImportRaw>,
    pub certs: Vec<CertRaw>,
}

/// Everything the engine takes from a buffer the decoder accepts as ELF.
#[derive(Clone, Debug, PartialEq)]
pub struct ElfParsed {
    pub header: ElfHeaderRaw,
    pub sections: Vec<ElfSectionRaw>,
    pub symbols: Vec<SymbolRaw>,
}

/// What the primitive decoder extracts from a buffer it accepts as a PE
/// image: a function of the bytes alone, absent when it rejects them.
pub uninterp spec fn spec_pe_raw(b: Seq<u8>) -> Option<PeParsed>;

/// What the primitive decoder extracts from a buffer it accepts as an ELF
/// image: a function of the bytes alone, absent when it rejects them.
pub uninterp spec fn spec_elf_raw(b: Seq<u8>) -> Option<ElfParsed>;

/// Relies on goblin's `pe::PE::parse`: acceptance and content are functions
/// of the bytes alone; this hands over the entry address, image base, word
/// width, and the resource and TLS data-directory entries.
#[verifier::external_body]
pub(crate) fn pe_root(buf: &[u8]) -> (r: Result<PeRootRaw, String>)
    ensures
        r is Ok <==> spec_pe_raw(buf@) is Some,
        r matches Ok(v) ==> spec_pe_raw(buf@) matches Some(p) && v == p.root,
{
    match goblin::pe::PE::parse(buf) {
        Ok(pe) => {
            let dd = pe.header.optional_header.map(|oh| oh.data_directories);
            let rsrc = dd.as_ref().and_then(|d| d.get_resource_table());
            let tls = dd.as_ref().and_then(|d| d.get_tls_table());
            Ok(PeRootRaw {
                entry: pe.entry as u64,
                image_base: pe.image_base,
                is_64: pe.is_64,
                resource_dir: rsrc.map(|d| (d.virtual_address, d.size)),
                tls_dir: tls.map(|d| (d.virtual_address, d.size)),
            })
        },
        Err(e) => Err(e.to_string()),
    }
}

/// Relies on goblin's `pe::PE::parse`: the section headers of the image,
/// in declaration order, with their name, address, size and flag fields.
#[verifier::external_body]
pub(crate) fn pe_sections(buf: &[u8]) -> (r: Result<Vec<SectionHeaderRaw>, String>)
    ensures
        r is Ok <==> spec_pe_raw(buf@) is Some,
        r matches Ok(v) ==> spec_pe_raw(buf@) matches Some(p) && v == p.sections,
{
    match goblin::pe::PE::parse(buf) {
        Ok(pe) => Ok(pe.sections.iter().map(
            |s| SectionHeaderRaw {
                name: s.name.to_vec(),
                virtual_size: s.virtual_size,
                virtual_address: s.virtual_address,
                size_of_raw_data: s.size_of_raw_data,
                pointer_to_raw_data: s.pointer_to_raw_data,
                characteristics: s.characteristics,
            },
        ).collect()),
        Err(e) => Err(e.to_string()),
    }
}

/// Relies on goblin's `pe::PE::parse`: the entries of the import directory
/// in directory order, each with its module, symbol name and ordinal field.
#[verifier::external_body]
pub(crate) fn pe_imports(buf: &[u8]) -> (r: Result<Vec<ImportRaw>, String>)
    ensures
        r is Ok <==> spec_pe_raw(buf@) is Some,
        r matches Ok(v) ==> spec_pe_raw(buf@) matches Some(p) && v == p.imports,
{
    match goblin::pe::PE::parse(buf) {
        Ok(pe) => Ok(pe.imports.iter().map(
            |im| ImportRaw { dll: im.dll.to_string(), name: im.name.to_string(), ordinal: im.ordinal },
        ).collect()),
        Err(e) => Err(e.to_string()),
    }
}

/// Relies on goblin's `pe::PE::parse`: the attribute-certificate table
/// entries in table order, each with its header fields and raw blob.
#[verifier::external_body]
pub(crate) fn pe_certs(buf: &[u8]) -> (r: Result<Vec<CertRaw>, String>)
    ensures
        r is Ok <==> spec_pe_raw(buf@) is Some,
        r matches Ok(v) ==> spec_pe_raw(buf@) matches Some(p) && v == p.certs,
{
    match goblin::pe::PE::parse(buf) {
        Ok(pe) => Ok(pe.certificates.iter().map(
            |c| CertRaw {
                revision: c.revision as u16,
                certificate_type: c.certificate_type as u16,
                data: c.certificate.to_vec(),
            },
        ).collect()),
        Err(e) => Err(e.to_string()),
    }
}

/// Relies on goblin's `elf::Elf::parse`: acceptance and content are
/// functions of the bytes alone; this hands over the entry address and the
/// header fields, with the class and data-encoding identification bytes raw.
#[verifier::external_body]
pub(crate) fn elf_header(buf: &[u8]) -> (r: Result<ElfHeaderRaw, String>)
    ensures
        r is Ok <==> spec_elf_raw(buf@) is Some,
        r matches Ok(v) ==> spec_elf_raw(buf@) matches Some(p) && v == p.header,
{
    match goblin::elf::Elf::parse(buf) {
        Ok(elf) => {
            let h = &elf.header;
            Ok(ElfHeaderRaw {
                entry: elf.entry,
                version: h.e_version,
                e_type: h.e_type,
                class: h.e_ident[4],
                encoding: h.e_ident[5],
                phnum: h.e_phnum, phoff: h.e_phoff, phentsize: h.e_phentsize,
                shnum: h.e_shnum, shoff: h.e_shoff, shentsize: h.e_shentsize,
            })
        },
        Err(e) => Err(e.to_string()),
    }
}

/// Relies on goblin's `elf::Elf::parse`: the section headers in declaration
/// order, with name index, address, size and offset.
#[verifier::external_body]
pub(crate) fn elf_sections(buf: &[u8]) -> (r: Result<Vec<ElfSectionRaw>, String>)
    ensures
        r is Ok <==> spec_elf_raw(buf@) is Some,
        r matches Ok(v) ==> spec_elf_raw(buf@) matches Some(p) && v == p.sections,
{
    match goblin::elf::Elf::parse(buf) {
        Ok(elf) => Ok(elf.section_headers.iter().map(
            |s| ElfSectionRaw {
                sh_name: s.sh_name as u64,
                sh_addr: s.sh_addr,
                sh_size: s.sh_size,
                sh_offset: s.sh_offset,
            },
        ).collect()),
        Err(e) => Err(e.to_string()),
    }
}

/// Relies on goblin's `elf::Elf::parse`, `Sym::is_import`,
/// `Sym::is_function` and `Strtab::get_at`: the dynamic symbols in table
/// order, each with its name from the dynamic string table and its import
/// and function flags.
#[verifier::external_body]
pub(crate) fn elf_symbols(buf: &[u8]) -> (r: Result<Vec<SymbolRaw>, String>)
    ensures
        r is Ok <==> spec_elf_raw(buf@) is Some,
        r matches Ok(v) ==> spec_elf_raw(buf@) matches Some(p) && v == p.symbols,
{
    match goblin::elf::Elf::parse(buf) {
        Ok(elf) => Ok(elf.dynsyms.iter().map(
            |sym| SymbolRaw {
                name: elf.dynstrtab.get_at(sym.st_name).map(|s| s.to_string()),
                is_import: sym.is_import(),
                is_function: sym.is_function(),
            },
        ).collect()),
        Err(e) => Err(e.to_string()),
    }
}

} // verus!
