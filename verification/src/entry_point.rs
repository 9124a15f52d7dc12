//! Entry-point resolution: which section owns the entry address.
//!
//! The owning section is the first section, in declared order, whose
//! half-open virtual range contains the entry address.  No match is not an
//! error: malformed or obfuscated binaries commonly place the entry point
//! outside every declared section, and overlapping sections are resolved by
//! first match — deterministic, though not guaranteed meaningful for such
//! hostile input.

use vstd::prelude::*;
use vstd::slice::slice_to_vec;

use crate::sections::{Section, SectionTable};

verus! {

/// The entry address with its owning section, when one contains it.
#[derive(Clone, Debug, Default, PartialEq)]
pub struct EntryPoint {
    pub address: u64,
    pub section: Option<Section>,
}

/// Whether the half-open virtual range of `sec` contains `addr`.
pub open spec fn spec_section_contains(sec: Section, addr: u64) -> bool {
    sec.virt_addr <= addr && (addr as int) < sec.virt_addr + sec.virt_size
}

/// The first section, in order, whose virtual range contains `addr`.
pub open spec fn spec_first_containing(sections: Seq<Section>, addr: u64) -> Option<Section>
    decreases sections.len(),
{
    if sections.len() == 0 {
        None
    } else if spec_section_contains(sections[0], addr) {
        Some(sections[0])
    } else {
        spec_first_containing(sections.drop_first(), addr)
    }
}

/// Whether two section records hold the same content, compared by views.
pub open spec fn spec_section_like(a: Section, b: Section) -> bool {
    &&& a.name@ == b.name@
    &&& a.virt_addr == b.virt_addr
    &&& a.virt_size == b.virt_size
    &&& a.raw_addr == b.raw_addr
    &&& a.raw_size == b.raw_size
    &&& a.data@ == b.data@
    &&& a.entropy == b.entropy
    &&& a.characteristics is Some <==> b.characteristics is Some
    &&& a.characteristics matches Some(c) ==> b.characteristics matches Some(d) && c@ == d@
}

/// Copies a section record, content for content.
pub fn duplicate_section(sec: &Section) -> (r: Section)
    ensures
        spec_section_like(r, *sec),
{
    Section {
        name: sec.name.clone(),
        virt_addr: sec.virt_addr,
        virt_size: sec.virt_size,
        raw_addr: sec.raw_addr,
        raw_size: sec.raw_size,
        data: slice_to_vec(sec.data.as_slice()),
        entropy: sec.entropy,
        characteristics: match &sec.characteristics {
            Some(c) => Some(c.clone()),
            None => None,
        },
    }
}

/// What a resolved entry point holds for its address and section table.
pub open spec fn spec_matches_entry_point(ep: EntryPoint, addr: u64, sections: Seq<Section>) -> bool {
    &&& ep.address == addr
    &&& ep.section is Some <==> spec_first_containing(sections, addr) is Some
    &&& ep.section matches Some(sec) ==> spec_first_containing(sections, addr) matches Some(f)
        && spec_section_like(sec, f)
}

impl EntryPoint {
    /// Resolves the entry address to its owning section: the first section
    /// whose virtual range contains it, or none — never a nearest match.
    pub fn resolve(address: u64, table: &SectionTable) -> (r: EntryPoint)
        ensures
            spec_matches_entry_point(r, address, table.sections@),
    {
        let ghost all = table.sections@;
        let n = table.sections.len();
        assert(all.skip(0) =~= all);
        for i in 0..n
            invariant
                n == all.len(),
                all == table.sections@,
                spec_first_containing(all, address) == spec_first_containing(
                    all.skip(i as int),
                    address,
                ),
        {
            let sec = &table.sections[i];
            proof {
                assert(all.skip(i as int)[0] == all[i as int]);
            }
            if sec.virt_addr <= address && address - sec.virt_addr < sec.virt_size {
                assert(spec_section_contains(all[i as int], address));
                return EntryPoint { address, section: Some(duplicate_section(sec)) };
            }
            proof {
                assert(!spec_section_contains(all[i as int], address));
                assert(all.skip(i as int).drop_first() =~= all.skip(i + 1));
            }
        }
        assert(all.skip(n as int).len() == 0);
        EntryPoint { address, section: None }
    }
}

/// The resolver's defining law, one half: an owning section exists exactly
/// when some section's virtual range contains the address.
pub proof fn lemma_first_containing_iff(sections: Seq<Section>, addr: u64)
    ensures
        (spec_first_containing(sections, addr) is Some) <==> (exists|i: int|
            0 <= i < sections.len() && spec_section_contains(#[trigger] sections[i], addr)),
    decreases sections.len(),
{
    if sections.len() == 0 {
    } else if spec_section_contains(sections[0], addr) {
    } else {
        let t = sections.drop_first();
        lemma_first_containing_iff(t, addr);
        if spec_first_containing(sections, addr) is Some {
            let i = choose|i: int| 0 <= i < t.len() && spec_section_contains(#[trigger] t[i], addr);
            assert(sections[i + 1] == t[i]);
            assert(spec_section_contains(sections[i + 1], addr));
        }
        if exists|i: int| 0 <= i < sections.len() && spec_section_contains(
            #[trigger] sections[i],
            addr,
        ) {
            let i = choose|i: int|
                0 <= i < sections.len() && spec_section_contains(#[trigger] sections[i], addr);
            assert(i >= 1);
            assert(t[i - 1] == sections[i]);
            assert(spec_section_contains(t[i - 1], addr));
        }
    }
}

/// The resolver's defining law, other half: the owning section is the first
/// containing one — a section that contains the address, before which no
/// section does, is the resolved one.
pub proof fn lemma_first_containing_is_first(sections: Seq<Section>, addr: u64, i: int)
    requires
        0 <= i < sections.len(),
        spec_section_contains(sections[i], addr),
        forall|j: int| 0 <= j < i ==> !spec_section_contains(#[trigger] sections[j], addr),
    ensures
        spec_first_containing(sections, addr) == Some(sections[i]),
    decreases i,
{
    if i == 0 {
    } else {
        let t = sections.drop_first();
        assert(!spec_section_contains(sections[0], addr));
        assert(t[i - 1] == sections[i]);
        assert forall|j: int| 0 <= j < i - 1 implies !spec_section_contains(
            #[trigger] t[j],
            addr,
        ) by {
            assert(t[j] == sections[j + 1]);
        }
        lemma_first_containing_is_first(t, addr, i - 1);
    }
}

} // verus!
