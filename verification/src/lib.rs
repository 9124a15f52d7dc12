//! Extraction of structured extended information from native executable
//! containers (Windows PE and Unix ELF): entry-point resolution, section
//! tables with entropy scoring, import normalization, resource-tree walking,
//! TLS callbacks, Authenticode signature chains and whole-file digests,
//! merged into one format-agnostic report whose field availability depends
//! on the container kind.

pub mod decoder;
pub mod elf;
pub mod entropy;
pub mod entry_point;
pub mod error;
pub mod pe;
pub mod sections;
pub mod text;

use vstd::prelude::*;

use crate::decoder::{spec_elf_raw, spec_pe_raw, ElfParsed, PeParsed};
use crate::elf::{spec_elf_header_ok, spec_elf_pairs, spec_matches_elf_info, ElfFileInformation};
use crate::entry_point::{spec_matches_entry_point, EntryPoint};
use crate::error::Error;
use crate::pe::hash::spec_matches_hashes;
use crate::pe::imports::{spec_imports_match, spec_pe_pairs, Imports};
use crate::pe::resource::{spec_matches_resources, spec_resources_available, Resources};
use crate::pe::signatures::{spec_certs_ok, spec_matches_authenticodes, PeAuthenticodes};
use crate::pe::tls::{spec_tls_callbacks, TlsCallbacks};
use crate::pe::{spec_matches_pe_info, spec_pe_info_ok, PeFileInformation};
use crate::sections::{
    spec_matches_elf_table,
    spec_matches_pe_table,
    spec_pe_table_ok,
    SectionTable,
};

verus! {

/// The container kind, detected from the identification bytes: the ELF
/// magic sequence, or the PE `MZ` signature, or neither.
#[derive(Clone, Copy, Debug, PartialEq, Eq, Structural)]
pub enum ContainerKind {
    Pe,
    Elf,
    Unsupported,
}

/// The container kind of a buffer, from its first bytes alone.
pub open spec fn spec_detect_kind(b: Seq<u8>) -> ContainerKind {
    if b.len() >= 4 && b[0] == 0x7F && b[1] == 0x45 && b[2] == 0x4C && b[3] == 0x46 {
        ContainerKind::Elf
    } else if b.len() >= 2 && b[0] == 0x4D && b[1] == 0x5A {
        ContainerKind::Pe
    } else {
        ContainerKind::Unsupported
    }
}

/// Detects the container kind from the identification bytes.
pub fn detect_kind(buf: &[u8]) -> (k: ContainerKind)
    ensures
        k == spec_detect_kind(buf@),
{
    if buf.len() >= 4 && buf[0] == 0x7F && buf[1] == 0x45 && buf[2] == 0x4C && buf[3] == 0x46 {
        ContainerKind::Elf
    } else if buf.len() >= 2 && buf[0] == 0x4D && buf[1] == 0x5A {
        ContainerKind::Pe
    } else {
        ContainerKind::Unsupported
    }
}

/// Extended information for one binary, with every field independently
/// optional: an absent field means "inapplicable to this container kind"
/// or "applicable but not present in the image".
#[derive(Clone, Debug, Default, PartialEq)]
pub struct BinExInfo {
    /// Entry point (ELF and PE).
    pub entry_point: Option<EntryPoint>,
    /// Signatures (PE only).
    pub signature: Option<PeAuthenticodes>,
    /// Section table (ELF and PE).
    pub section_table: Option<SectionTable>,
    /// Imports (ELF and PE).
    pub imports: Option<Imports>,
    /// Resources (PE only).
    pub resources: Option<Resources>,
    /// TLS callbacks (PE only).
    pub tls_callbacks: Option<TlsCallbacks>,
}

impl From<PeFileInformation> for BinExInfo {
    fn from(val: PeFileInformation) -> BinExInfo {
        BinExInfo {
            entry_point: Some(val.entry_point),
            signature: Some(val.signature),
            section_table: Some(val.section_table),
            imports: Some(val.imports),
            resources: val.resources,
            tls_callbacks: Some(val.tls),
        }
    }
}

impl vstd::std_specs::convert::FromSpecImpl<PeFileInformation> for BinExInfo {
    open spec fn obeys_from_spec() -> bool {
        true
    }

    open spec fn from_spec(val: PeFileInformation) -> BinExInfo {
        BinExInfo {
            entry_point: Some(val.entry_point),
            signature: Some(val.signature),
            section_table: Some(val.section_table),
            imports: Some(val.imports),
            resources: val.resources,
            tls_callbacks: Some(val.tls),
        }
    }
}

impl From<ElfFileInformation> for BinExInfo {
    fn from(val: ElfFileInformation) -> BinExInfo {
        BinExInfo {
            entry_point: Some(val.entry_point),
            signature: None,
            section_table: Some(val.section_table),
            imports: Some(val.imports),
            resources: None,
            tls_callbacks: None,
        }
    }
}

impl vstd::std_specs::convert::FromSpecImpl<ElfFileInformation> for BinExInfo {
    open spec fn obeys_from_spec() -> bool {
        true
    }

    open spec fn from_spec(val: ElfFileInformation) -> BinExInfo {
        BinExInfo {
            entry_point: Some(val.entry_point),
            signature: None,
            section_table: Some(val.section_table),
            imports: Some(val.imports),
            resources: None,
            tls_callbacks: None,
        }
    }
}

/// What a report flattened from a PE extraction holds for the decoder's
/// output and the file bytes.
pub open spec fn spec_matches_pe_report(rep: BinExInfo, p: PeParsed, b: Seq<u8>) -> bool {
    &&& rep.section_table matches Some(t) && spec_matches_pe_table(t, p.sections@, b)
    &&& (rep.section_table matches Some(t) ==> rep.entry_point matches Some(ep)
        && spec_matches_entry_point(ep, p.root.entry, t.sections@))
    &&& rep.signature matches Some(sig) && spec_matches_authenticodes(sig, p.certs@)
    &&& rep.imports matches Some(im) && spec_imports_match(im, spec_pe_pairs(p.imports@))
    &&& (rep.resources is Some <==> spec_resources_available(b, p.sections@, p.root.resource_dir))
    &&& (rep.resources matches Some(res) ==> spec_matches_resources(
        res,
        b,
        p.sections@,
        p.root.resource_dir,
    ))
    &&& rep.tls_callbacks matches Some(tls) && tls.callbacks@ == spec_tls_callbacks(
        b,
        p.sections@,
        p.root.tls_dir,
        p.root.image_base,
        p.root.is_64,
    )
}

/// What a report flattened from an ELF extraction holds for the decoder's
/// output: the PE-only fields are fixed to absent.
pub open spec fn spec_matches_elf_report(rep: BinExInfo, p: ElfParsed) -> bool {
    &&& rep.section_table matches Some(t) && spec_matches_elf_table(t, p.sections@)
    &&& (rep.section_table matches Some(t) ==> rep.entry_point matches Some(ep)
        && spec_matches_entry_point(ep, p.header.entry, t.sections@))
    &&& rep.imports matches Some(im) && spec_imports_match(im, spec_elf_pairs(p.symbols@))
    &&& rep.signature is None
    &&& rep.resources is None
    &&& rep.tls_callbacks is None
}

/// Extracts the extended information of a binary held in memory: detects
/// the container kind from the identification bytes, attempting PE first
/// and falling back to ELF only if PE decoding outright fails, and merges
/// the per-format extraction into one report.  The caller gets either a
/// complete report or a typed error — never a partial report.
pub fn get_extended_information(payload: &[u8]) -> (r: Result<BinExInfo, Error>)
    ensures
        spec_detect_kind(payload@) == ContainerKind::Unsupported ==> r == Err::<BinExInfo, Error>(
            Error::UnsupportedFileType,
        ),
        spec_detect_kind(payload@) == ContainerKind::Elf ==> {
            &&& (r is Ok <==> (spec_elf_raw(payload@) matches Some(p) && spec_elf_header_ok(
                p.header,
            )))
            &&& (r matches Ok(rep) ==> spec_elf_raw(payload@) matches Some(p)
                && spec_matches_elf_report(rep, p))
        },
        spec_detect_kind(payload@) == ContainerKind::Pe ==> {
            &&& (r is Ok <==> ((spec_pe_raw(payload@) matches Some(p) && spec_pe_info_ok(p)) || (
            spec_pe_raw(payload@) is None && (spec_elf_raw(payload@) matches Some(q)
                && spec_elf_header_ok(q.header)))))
            &&& (r matches Ok(rep) ==> (spec_pe_raw(payload@) matches Some(p)
                ==> spec_matches_pe_report(rep, p, payload@)))
            &&& (r matches Ok(rep) ==> (spec_pe_raw(payload@) is None ==> (spec_elf_raw(payload@)
                matches Some(q) && spec_matches_elf_report(rep, q))))
        },
        r matches Err(e) ==> match e {
            Error::UnsupportedFileType => spec_detect_kind(payload@) == ContainerKind::Unsupported,
            Error::GoblinError(_) => (spec_detect_kind(payload@) == ContainerKind::Pe && spec_pe_raw(
                payload@,
            ) is None && spec_elf_raw(payload@) is None) || (spec_detect_kind(payload@)
                == ContainerKind::Elf && spec_elf_raw(payload@) is None),
            Error::Encoding => spec_detect_kind(payload@) == ContainerKind::Pe && (spec_pe_raw(
                payload@,
            ) matches Some(p) && !spec_pe_table_ok(p.sections@)),
            Error::SignatureDecodeError => spec_detect_kind(payload@) == ContainerKind::Pe && (
            spec_pe_raw(payload@) matches Some(p) && spec_pe_table_ok(p.sections@)
                && !spec_certs_ok(p.certs@)),
            Error::InvalidIdentifier | Error::InvalidEndianness => spec_elf_raw(payload@)
                matches Some(q) && !spec_elf_header_ok(q.header) && (spec_detect_kind(payload@)
                == ContainerKind::Elf || (spec_detect_kind(payload@) == ContainerKind::Pe
                && spec_pe_raw(payload@) is None)),
            _ => false,
        },
{
    match detect_kind(payload) {
        ContainerKind::Unsupported => Err(Error::UnsupportedFileType),
        ContainerKind::Elf => match ElfFileInformation::parse(payload) {
            Ok(info) => Ok(BinExInfo::from(info)),
            Err(e) => Err(e),
        },
        ContainerKind::Pe => match PeFileInformation::parse(payload) {
            Ok(info) => Ok(BinExInfo::from(info)),
            Err(e) => match e {
                Error::GoblinError(msg) => match ElfFileInformation::parse(payload) {
                    Ok(info) => Ok(BinExInfo::from(info)),
                    Err(e2) => match e2 {
                        Error::GoblinError(_) => Err(Error::GoblinError(msg)),
                        other => Err(other),
                    },
                },
                other => Err(other),
            },
        },
    }
}

} // verus!
