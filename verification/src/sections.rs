//! The section table: per-container section/segment records with raw bytes,
//! entropy score and decoded characteristics.
//!
//! PE sections carry their raw bytes (bounds-clamped against the physical
//! file), an entropy score and a decoded characteristics string; their name
//! is the fixed 8-byte field trimmed at the first NUL and decoded as UTF-8,
//! and text that is not UTF-8 is a hard parse failure.  ELF section headers
//! provide address and size only: no byte is read and no entropy is scored.

use vstd::prelude::*;
use vstd::slice::{slice_index_get, slice_subrange, slice_to_vec};
use vstd::string::StringExecFns;
use vstd::utf8::{decode_utf8, valid_utf8};

use crate::decoder::{ElfSectionRaw, SectionHeaderRaw};
use crate::entropy::{shannon_entropy_mbits, spec_entropy_mbits};
use crate::error::Error;
use crate::pe::util::{safe_read, spec_safe_read};
use crate::text::{spec_decimal, spec_hex_upper, u64_to_decimal, u64_to_hex_upper};

verus! {

/// One section or segment of a container.
#[derive(Clone, Debug, Default, PartialEq)]
pub struct Section {
    pub name: String,
    pub virt_addr: u64,
    pub virt_size: u64,
    pub raw_addr: u64,
    pub raw_size: u64,
    /// The raw bytes of the section, clamped to the physical file.
    pub data: Vec<u8>,
    /// The entropy of the raw bytes in millibits per byte; PE only.
    pub entropy: Option<u64>,
    /// The decoded characteristics flags; PE only.
    pub characteristics: Option<String>,
}

/// The ordered sequence of sections, in on-disk declaration order.
#[derive(Clone, Debug, Default, PartialEq)]
pub struct SectionTable {
    pub sections: Vec<Section>,
}

/// The index of the first NUL byte, or the length when there is none.
pub open spec fn spec_first_nul(s: Seq<u8>) -> int
    decreases s.len(),
{
    if s.len() == 0 {
        0
    } else if s[0] == 0 {
        0
    } else {
        1 + spec_first_nul(s.drop_first())
    }
}

/// The bytes before the first NUL.
pub open spec fn spec_trim_nul(s: Seq<u8>) -> Seq<u8> {
    s.subrange(0, spec_first_nul(s))
}

/// The first NUL index lies within the sequence.
pub proof fn lemma_first_nul_bounds(s: Seq<u8>)
    ensures
        0 <= spec_first_nul(s) <= s.len(),
    decreases s.len(),
{
    if s.len() > 0 && s[0] != 0 {
        lemma_first_nul_bounds(s.drop_first());
    }
}

/// A position with no NUL before it and a NUL (or the end) at it is the
/// first NUL index.
proof fn lemma_first_nul_at(s: Seq<u8>, p: int)
    requires
        0 <= p <= s.len(),
        forall|j: int| 0 <= j < p ==> s[j] != 0,
        p == s.len() || s[p] == 0,
    ensures
        spec_first_nul(s) == p,
    decreases s.len(),
{
    if p == 0 {
    } else {
        assert(s[0] != 0);
        let t = s.drop_first();
        assert forall|j: int| 0 <= j < p - 1 implies t[j] != 0 by {
            assert(t[j] == s[j + 1]);
        }
        lemma_first_nul_at(t, p - 1);
    }
}

/// Copies the bytes before the first NUL.
fn trim_at_nul(name: &[u8]) -> (r: Vec<u8>)
    ensures
        r@ == spec_trim_nul(name@),
{
    let n = name.len();
    let mut p: usize = 0;
    while p < n && *slice_index_get(name, p) != 0
        invariant
            p <= n,
            n == name@.len(),
            forall|j: int| 0 <= j < p ==> name@[j] != 0,
        decreases n - p,
    {
        p = p + 1;
    }
    proof {
        lemma_first_nul_at(name@, p as int);
    }
    let sub = slice_subrange(name, 0, p);
    slice_to_vec(sub)
}

/// How many section characteristics flags have names.
pub open spec fn spec_flag_count() -> int {
    20
}

/// The bit mask of the named characteristics flag at position `i`.
pub open spec fn spec_flag_mask(i: int) -> u32 {
    if i == 0 {
        0x8
    } else if i == 1 {
        0x20
    } else if i == 2 {
        0x40
    } else if i == 3 {
        0x80
    } else if i == 4 {
        0x100
    } else if i == 5 {
        0x200
    } else if i == 6 {
        0x800
    } else if i == 7 {
        0x1000
    } else if i == 8 {
        0x8000
    } else if i == 9 {
        0x20000
    } else if i == 10 {
        0x40000
    } else if i == 11 {
        0x80000
    } else if i == 12 {
        0x1000000
    } else if i == 13 {
        0x2000000
    } else if i == 14 {
        0x4000000
    } else if i == 15 {
        0x8000000
    } else if i == 16 {
        0x10000000
    } else if i == 17 {
        0x20000000
    } else if i == 18 {
        0x40000000
    } else if i == 19 {
        0x80000000
    } else {
        0
    }
}

/// The name of the characteristics flag at position `i`.
pub open spec fn spec_flag_name(i: int) -> Seq<char> {
    if i == 0 {
        "TYPE_NO_PAD"@
    } else if i == 1 {
        "CNT_CODE"@
    } else if i == 2 {
        "CNT_INITIALIZED_DATA"@
    } else if i == 3 {
        "CNT_UNINITIALIZED_DATA"@
    } else if i == 4 {
        "LNK_OTHER"@
    } else if i == 5 {
        "LNK_INFO"@
    } else if i == 6 {
        "LNK_REMOVE"@
    } else if i == 7 {
        "LNK_COMDAT"@
    } else if i == 8 {
        "GPREL"@
    } else if i == 9 {
        "MEM_PURGEABLE"@
    } else if i == 10 {
        "MEM_LOCKED"@
    } else if i == 11 {
        "MEM_PRELOAD"@
    } else if i == 12 {
        "LNK_NRELOC_OVFL"@
    } else if i == 13 {
        "MEM_DISCARDABLE"@
    } else if i == 14 {
        "MEM_NOT_CACHED"@
    } else if i == 15 {
        "MEM_NOT_PAGED"@
    } else if i == 16 {
        "MEM_SHARED"@
    } else if i == 17 {
        "MEM_EXECUTE"@
    } else if i == 18 {
        "MEM_READ"@
    } else if i == 19 {
        "MEM_WRITE"@
    } else {
        ""@
    }
}

/// The names of the flags set in `bits` from position `i` on, joined with
/// a separator; `first` says whether no name has been written yet.
pub open spec fn spec_flag_list(bits: u32, i: int, first: bool) -> Seq<char>
    decreases spec_flag_count() - i,
{
    if i < 0 || i >= spec_flag_count() {
        Seq::empty()
    } else if bits & spec_flag_mask(i) != 0 {
        (if first {
            Seq::<char>::empty()
        } else {
            " | "@
        }) + spec_flag_name(i) + spec_flag_list(bits, i + 1, false)
    } else {
        spec_flag_list(bits, i + 1, first)
    }
}

/// The decoded characteristics string: the raw value in hexadecimal — which
/// preserves unknown bits numerically — followed by the names of the set
/// flags in parentheses.
pub open spec fn spec_characteristics(bits: u32) -> Seq<char> {
    spec_hex_upper(bits as nat) + " ("@ + spec_flag_list(bits, 0, true) + ")"@
}

/// The bit mask of the named flag at position `i`.
fn flag_mask(i: usize) -> (r: u32)
    requires
        i < 20,
    ensures
        r == spec_flag_mask(i as int),
{
    match i {
        0 => 0x8,
        1 => 0x20,
        2 => 0x40,
        3 => 0x80,
        4 => 0x100,
        5 => 0x200,
        6 => 0x800,
        7 => 0x1000,
        8 => 0x8000,
        9 => 0x20000,
        10 => 0x40000,
        11 => 0x80000,
        12 => 0x1000000,
        13 => 0x2000000,
        14 => 0x4000000,
        15 => 0x8000000,
        16 => 0x10000000,
        17 => 0x20000000,
        18 => 0x40000000,
        _ => 0x80000000,
    }
}

/// The name of the flag at position `i`.
fn flag_name(i: usize) -> (r: &'static str)
    requires
        i < 20,
    ensures
        r@ == spec_flag_name(i as int),
{
    match i {
        0 => "TYPE_NO_PAD",
        1 => "CNT_CODE",
        2 => "CNT_INITIALIZED_DATA",
        3 => "CNT_UNINITIALIZED_DATA",
        4 => "LNK_OTHER",
        5 => "LNK_INFO",
        6 => "LNK_REMOVE",
        7 => "LNK_COMDAT",
        8 => "GPREL",
        9 => "MEM_PURGEABLE",
        10 => "MEM_LOCKED",
        11 => "MEM_PRELOAD",
        12 => "LNK_NRELOC_OVFL",
        13 => "MEM_DISCARDABLE",
        14 => "MEM_NOT_CACHED",
        15 => "MEM_NOT_PAGED",
        16 => "MEM_SHARED",
        17 => "MEM_EXECUTE",
        18 => "MEM_READ",
        _ => "MEM_WRITE",
    }
}

/// Decodes PE section characteristics to a readable string.
pub fn characteristics_string(bits: u32) -> (r: String)
    ensures
        r@ == spec_characteristics(bits),
{
    let mut s = u64_to_hex_upper(bits as u64);
    s.append(" (");
    let mut first: bool = true;
    for i in 0..20usize
        invariant
            s@ + spec_flag_list(bits, i as int, first) == spec_hex_upper(bits as nat) + " ("@
                + spec_flag_list(bits, 0, true),
    {
        if bits & flag_mask(i) != 0 {
            if !first {
                s.append(" | ");
            }
            s.append(flag_name(i));
            first = false;
        }
    }
    s.append(")");
    proof {
        assert(s@ =~= spec_characteristics(bits));
    }
    s
}

/// Whether the fixed-width PE name field decodes: the bytes before the
/// first NUL must be valid UTF-8.
pub open spec fn spec_pe_section_ok(h: SectionHeaderRaw) -> bool {
    valid_utf8(spec_trim_nul(h.name@))
}

/// What a PE section record holds for its header and the file buffer.
pub open spec fn spec_matches_pe_section(sec: Section, h: SectionHeaderRaw, buf: Seq<u8>) -> bool {
    &&& sec.name@ == decode_utf8(spec_trim_nul(h.name@))
    &&& sec.virt_addr == h.virtual_address as u64
    &&& sec.virt_size == h.virtual_size as u64
    &&& sec.raw_addr == h.pointer_to_raw_data as u64
    &&& sec.raw_size == h.size_of_raw_data as u64
    &&& sec.data@ == spec_safe_read(buf, h.pointer_to_raw_data as nat, h.size_of_raw_data as nat)
    &&& sec.entropy matches Some(e) && e as int == spec_entropy_mbits(sec.data@)
    &&& sec.characteristics matches Some(c) && c@ == spec_characteristics(h.characteristics)
}

/// What an ELF section record holds for its header: addresses and sizes
/// only, the name rendered from its string-table index, no bytes read.
pub open spec fn spec_matches_elf_section(sec: Section, h: ElfSectionRaw) -> bool {
    &&& sec.name@ == spec_decimal(h.sh_name as nat)
    &&& sec.virt_addr == h.sh_addr
    &&& sec.virt_size == h.sh_size
    &&& sec.raw_addr == h.sh_offset
    &&& sec.raw_size == h.sh_size
    &&& sec.data@ == Seq::<u8>::empty()
    &&& sec.entropy is None
    &&& sec.characteristics is None
}

/// Builds one section record from a PE section header: reads the raw bytes
/// bounds-clamped, scores their entropy, decodes name and characteristics.
pub fn section_from_pe_header(h: &SectionHeaderRaw, buf: &[u8]) -> (r: Result<Section, Error>)
    ensures
        r is Ok <==> spec_pe_section_ok(*h),
        r matches Ok(sec) ==> spec_matches_pe_section(sec, *h, buf@),
        r matches Err(e) ==> e == Error::Encoding,
{
    let trimmed = trim_at_nul(h.name.as_slice());
    let name = match crate::text::string_from_utf8(trimmed) {
        Some(name) => name,
        None => {
            return Err(Error::Encoding);
        },
    };
    let data_slice = safe_read(buf, h.pointer_to_raw_data as usize, h.size_of_raw_data as usize);
    let entropy = shannon_entropy_mbits(data_slice);
    let data = slice_to_vec(data_slice);
    Ok(
        Section {
            name,
            virt_addr: h.virtual_address as u64,
            virt_size: h.virtual_size as u64,
            raw_addr: h.pointer_to_raw_data as u64,
            raw_size: h.size_of_raw_data as u64,
            data,
            entropy: Some(entropy),
            characteristics: Some(characteristics_string(h.characteristics)),
        },
    )
}

/// Builds one section record from an ELF section header.
pub fn section_from_elf_header(h: &ElfSectionRaw) -> (sec: Section)
    ensures
        spec_matches_elf_section(sec, *h),
{
    Section {
        name: u64_to_decimal(h.sh_name),
        virt_addr: h.sh_addr,
        virt_size: h.sh_size,
        raw_addr: h.sh_offset,
        raw_size: h.sh_size,
        data: Vec::new(),
        entropy: None,
        characteristics: None,
    }
}

/// Whether a whole PE section table can be built: every name must decode.
pub open spec fn spec_pe_table_ok(headers: Seq<SectionHeaderRaw>) -> bool {
    forall|i: int| 0 <= i < headers.len() ==> spec_pe_section_ok(#[trigger] headers[i])
}

/// What the PE section table holds for its headers and the file buffer.
pub open spec fn spec_matches_pe_table(
    t: SectionTable,
    headers: Seq<SectionHeaderRaw>,
    buf: Seq<u8>,
) -> bool {
    &&& t.sections@.len() == headers.len()
    &&& forall|i: int|
        0 <= i < headers.len() ==> spec_matches_pe_section(
            #[trigger] t.sections@[i],
            headers[i],
            buf,
        )
}

/// What the ELF section table holds for its headers.
pub open spec fn spec_matches_elf_table(t: SectionTable, headers: Seq<ElfSectionRaw>) -> bool {
    &&& t.sections@.len() == headers.len()
    &&& forall|i: int|
        0 <= i < headers.len() ==> spec_matches_elf_section(#[trigger] t.sections@[i], headers[i])
}

impl SectionTable {
    /// Builds the section table of a PE image, in declaration order.  It
    /// succeeds exactly when every section name decodes as UTF-8.
    pub fn from_pe_headers(headers: &Vec<SectionHeaderRaw>, buf: &[u8]) -> (r: Result<
        SectionTable,
        Error,
    >)
        ensures
            r is Ok <==> spec_pe_table_ok(headers@),
            r matches Ok(t) ==> spec_matches_pe_table(t, headers@, buf@),
            r matches Err(e) ==> e == Error::Encoding,
    {
        let mut sections: Vec<Section> = Vec::new();
        let n = headers.len();
        for i in 0..n
            invariant
                n == headers@.len(),
                sections@.len() == i,
                forall|j: int| 0 <= j < i ==> spec_pe_section_ok(#[trigger] headers@[j]),
                forall|j: int|
                    0 <= j < i ==> spec_matches_pe_section(
                        #[trigger] sections@[j],
                        headers@[j],
                        buf@,
                    ),
        {
            match section_from_pe_header(&headers[i], buf) {
                Ok(sec) => {
                    sections.push(sec);
                },
                Err(e) => {
                    return Err(e);
                },
            }
        }
        Ok(SectionTable { sections })
    }

    /// Builds the section table of an ELF image, in declaration order.
    pub fn from_elf_headers(headers: &Vec<ElfSectionRaw>) -> (t: SectionTable)
        ensures
            spec_matches_elf_table(t, headers@),
    {
        let mut sections: Vec<Section> = Vec::new();
        let n = headers.len();
        for i in 0..n
            invariant
                n == headers@.len(),
                sections@.len() == i,
                forall|j: int|
                    0 <= j < i ==> spec_matches_elf_section(#[trigger] sections@[j], headers@[j]),
        {
            sections.push(section_from_elf_header(&headers[i]));
        }
        SectionTable { sections }
    }
}

/// The raw bytes of a PE section are always a subset of the window that
/// starts at its raw address and ends at the declared raw size or the end
/// of the file, whichever comes first.
pub proof fn lemma_section_data_within_file(sec: Section, h: SectionHeaderRaw, buf: Seq<u8>)
    requires
        spec_matches_pe_section(sec, h, buf),
    ensures
        sec.data@.len() <= sec.raw_size,
        sec.data@.len() > 0 ==> sec.raw_addr + sec.data@.len() <= buf.len(),
        forall|k: int| 0 <= k < sec.data@.len() ==> sec.data@[k] == buf[sec.raw_addr + k],
{
    crate::pe::util::lemma_safe_read_within_bounds(
        buf,
        h.pointer_to_raw_data as nat,
        h.size_of_raw_data as nat,
    );
}

} // verus!
