//! PE-specific extraction components and the PE report driver.

pub mod hash;
pub mod imports;
pub mod resource;
pub mod signatures;
pub mod tls;
pub mod util;

use vstd::prelude::*;

use crate::decoder::{self, PeParsed};
use crate::entry_point::{spec_matches_entry_point, EntryPoint};
use crate::error::Error;
use crate::pe::hash::{spec_matches_hashes, Hashes};
use crate::pe::imports::{spec_imports_match, spec_pe_pairs, Imports};
use crate::pe::resource::{spec_matches_resources, spec_resources_available, Resources};
use crate::pe::signatures::{spec_certs_ok, spec_matches_authenticodes, PeAuthenticodes};
use crate::pe::tls::{spec_tls_callbacks, TlsCallbacks};
use crate::sections::{spec_matches_pe_table, spec_pe_table_ok, SectionTable};

verus! {

/// Everything extracted from one PE image.
#[derive(Clone, Debug, Default)]
pub struct PeFileInformation {
    pub entry_point: EntryPoint,
    pub hashes: Hashes,
    pub signature: PeAuthenticodes,
    pub section_table: SectionTable,
    pub imports: Imports,
    pub resources: Option<Resources>,
    pub tls: TlsCallbacks,
}

/// Whether extraction succeeds for an image the decoder accepts: every
/// section name must decode and every attribute certificate must decode.
pub open spec fn spec_pe_info_ok(p: PeParsed) -> bool {
    spec_pe_table_ok(p.sections@) && spec_certs_ok(p.certs@)
}

/// What the PE report holds for the decoder's output and the file bytes.
pub open spec fn spec_matches_pe_info(info: PeFileInformation, p: PeParsed, b: Seq<u8>) -> bool {
    &&& spec_matches_pe_table(info.section_table, p.sections@, b)
    &&& spec_matches_entry_point(info.entry_point, p.root.entry, info.section_table.sections@)
    &&& spec_matches_hashes(info.hashes, b)
    &&& spec_matches_authenticodes(info.signature, p.certs@)
    &&& spec_imports_match(info.imports, spec_pe_pairs(p.imports@))
    &&& (info.resources is Some <==> spec_resources_available(b, p.sections@, p.root.resource_dir))
    &&& (info.resources matches Some(res) ==> spec_matches_resources(
        res,
        b,
        p.sections@,
        p.root.resource_dir,
    ))
    &&& info.tls.callbacks@ == spec_tls_callbacks(
        b,
        p.sections@,
        p.root.tls_dir,
        p.root.image_base,
        p.root.is_64,
    )
}

impl PeFileInformation {
    /// Extracts the whole PE report.  Failures of mandatory structures —
    /// the container itself, the section table, the signature chain — abort
    /// the extraction; the optional resource and TLS directories degrade to
    /// an absent or empty field.
    pub fn parse(buf: &[u8]) -> (r: Result<PeFileInformation, Error>)
        ensures
            r is Ok <==> (decoder::spec_pe_raw(buf@) matches Some(p) && spec_pe_info_ok(p)),
            r matches Ok(info) ==> decoder::spec_pe_raw(buf@) matches Some(p)
                && spec_matches_pe_info(info, p, buf@),
            r matches Err(e) ==> match e {
                Error::GoblinError(_) => decoder::spec_pe_raw(buf@) is None,
                Error::Encoding => decoder::spec_pe_raw(buf@) matches Some(p)
                    && !spec_pe_table_ok(p.sections@),
                Error::SignatureDecodeError => decoder::spec_pe_raw(buf@) matches Some(p)
                    && spec_pe_table_ok(p.sections@) && !spec_certs_ok(p.certs@),
                _ => false,
            },
    {
        let root = match decoder::pe_root(buf) {
            Ok(v) => v,
            Err(msg) => {
                return Err(Error::GoblinError(msg));
            },
        };
        let headers = match decoder::pe_sections(buf) {
            Ok(v) => v,
            Err(msg) => {
                return Err(Error::GoblinError(msg));
            },
        };
        let imports_raw = match decoder::pe_imports(buf) {
            Ok(v) => v,
            Err(msg) => {
                return Err(Error::GoblinError(msg));
            },
        };
        let certs = match decoder::pe_certs(buf) {
            Ok(v) => v,
            Err(msg) => {
                return Err(Error::GoblinError(msg));
            },
        };
        let section_table = match SectionTable::from_pe_headers(&headers, buf) {
            Ok(t) => t,
            Err(e) => {
                return Err(e);
            },
        };
        let signature = match PeAuthenticodes::parse(&certs) {
            Ok(s) => s,
            Err(e) => {
                return Err(e);
            },
        };
        let entry_point = EntryPoint::resolve(root.entry, &section_table);
        let hashes = Hashes::parse(buf);
        let imports = Imports::parse(&imports_raw);
        let resources = Resources::parse(buf, &headers, root.resource_dir);
        let tls = TlsCallbacks::parse(buf, &headers, root.tls_dir, root.image_base, root.is_64);
        Ok(
            PeFileInformation {
                entry_point,
                hashes,
                signature,
                section_table,
                imports,
                resources,
                tls,
            },
        )
    }
}

} // verus!
