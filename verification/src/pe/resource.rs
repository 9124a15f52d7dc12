//! The PE resource directory walker: a bounded pre-order traversal of the
//! three directory levels (type, then name/id, then language), with address
//! translation for each leaf's data.
//!
//! The traversal is iterative, with an explicit work stack, a fixed depth of
//! three levels and an explicit budget on visited entries, so that crafted
//! self-referential or oversized directories can never make it run on
//! without end.  A leaf whose data address does not translate keeps `None`
//! offsets and the walk continues; an absent or unreadable directory yields
//! no resource report at all, which is not an error.

use vstd::prelude::*;
use vstd::string::StringExecFns;

use crate::decoder::SectionHeaderRaw;
use crate::pe::util::{
    read_u16_at,
    read_u32_at,
    spec_read_u16,
    spec_read_u32,
    spec_translate_rva,
    translate_rva,
};
use crate::text::{
    decode_utf16_units,
    spec_decimal,
    spec_decode_utf16,
    u64_to_decimal,
};

verus! {

/// How many directory entries the walker will visit at most.
pub const RESOURCE_WALK_BUDGET: u64 = 65536;

/// One resource leaf: resolved type name, optional numeric type id, the
/// name/id and language fields rendered as text, and the file range of the
/// data when its address translates.
#[derive(Clone, Debug, Default, PartialEq)]
pub struct ResourceEntry {
    pub resource_type: String,
    pub offset: Option<u32>,
    pub resource_id: String,
    pub language_id: String,
    pub data_start: Option<usize>,
    pub data_end: Option<usize>,
}

/// The resource directory: root metadata and the leaves in pre-order.
#[derive(Clone, Debug, Default, PartialEq)]
pub struct Resources {
    pub minor_version: u16,
    pub major_version: u16,
    pub number_of_id_entries: u16,
    pub number_of_named_entries: u16,
    pub timestamp: u32,
    pub resources: Vec<ResourceEntry>,
}

/// One pending step of the iterative walk: the directory at `dir` (relative
/// to the resource base), the next entry index `k` in it, its level, and the
/// type and id fields inherited from the levels above.
#[derive(Clone, Copy, Debug, PartialEq, Eq, Structural)]
pub struct WorkItem {
    pub level: u8,
    pub dir: u32,
    pub k: u32,
    pub type_field: u32,
    pub id_field: u32,
}

/// One leaf found by the walk, before resolution: the three directory-level
/// fields and the offset of the data entry, relative to the resource base.
#[derive(Clone, Copy, Debug, PartialEq, Eq, Structural)]
pub struct LeafRaw {
    pub type_field: u32,
    pub id_field: u32,
    pub lang_field: u32,
    pub data_off: u32,
}

/// How many entries a directory node declares: named plus id entries, or
/// none when its header cannot be read.
pub open spec fn spec_dir_count(b: Seq<u8>, node: int) -> int {
    match (spec_read_u16(b, node + 12), spec_read_u16(b, node + 14)) {
        (Some(named), Some(ids)) => named + ids,
        _ => 0,
    }
}

/// The leaves of the bounded pre-order walk: each step takes the top work
/// item and one unit of budget; an exhausted budget or stack ends the walk.
/// An entry points either at a subdirectory — descended into only above the
/// language level, which caps the depth at three — or at a data entry,
/// which is a leaf only at the language level.
pub open spec fn spec_walk(b: Seq<u8>, base: int, stack: Seq<WorkItem>, budget: nat) -> Seq<
    LeafRaw,
>
    decreases budget,
{
    if budget == 0 || stack.len() == 0 {
        Seq::empty()
    } else {
        let it = stack.last();
        let rest = stack.drop_last();
        if it.k >= spec_dir_count(b, base + it.dir) {
            spec_walk(b, base, rest, (budget - 1) as nat)
        } else {
            let ent = base + it.dir + 16 + 8 * it.k;
            let cont = rest.push(
                WorkItem {
                    level: it.level,
                    dir: it.dir,
                    k: (it.k + 1) as u32,
                    type_field: it.type_field,
                    id_field: it.id_field,
                },
            );
            match (spec_read_u32(b, ent), spec_read_u32(b, ent + 4)) {
                (Some(name), Some(off)) => {
                    if off & 0x8000_0000 != 0 {
                        if it.level < 2 {
                            let child = WorkItem {
                                level: (it.level + 1) as u8,
                                dir: off & 0x7FFF_FFFF,
                                k: 0,
                                type_field: if it.level == 0 {
                                    name
                                } else {
                                    it.type_field
                                },
                                id_field: if it.level == 1 {
                                    name
                                } else {
                                    it.id_field
                                },
                            };
                            spec_walk(b, base, cont.push(child), (budget - 1) as nat)
                        } else {
                            spec_walk(b, base, cont, (budget - 1) as nat)
                        }
                    } else {
                        if it.level == 2 {
                            seq![
                                LeafRaw {
                                    type_field: it.type_field,
                                    id_field: it.id_field,
                                    lang_field: name,
                                    data_off: off,
                                },
                            ] + spec_walk(b, base, cont, (budget - 1) as nat)
                        } else {
                            spec_walk(b, base, cont, (budget - 1) as nat)
                        }
                    }
                },
                _ => spec_walk(b, base, cont, (budget - 1) as nat),
            }
        }
    }
}

/// The root work item: the directory at the resource base itself.
pub open spec fn spec_root_item() -> WorkItem {
    WorkItem { level: 0, dir: 0, k: 0, type_field: 0, id_field: 0 }
}

/// The walk never yields more leaves than it has budget: a crafted
/// self-referential or oversized directory ends after at most `budget`
/// visited entries.
pub proof fn lemma_walk_bounded(b: Seq<u8>, base: int, stack: Seq<WorkItem>, budget: nat)
    ensures
        spec_walk(b, base, stack, budget).len() <= budget,
    decreases budget,
{
    if budget > 0 && stack.len() > 0 {
        let it = stack.last();
        let rest = stack.drop_last();
        if it.k >= spec_dir_count(b, base + it.dir) {
            lemma_walk_bounded(b, base, rest, (budget - 1) as nat);
        } else {
            let ent = base + it.dir + 16 + 8 * it.k;
            let cont = rest.push(
                WorkItem {
                    level: it.level,
                    dir: it.dir,
                    k: (it.k + 1) as u32,
                    type_field: it.type_field,
                    id_field: it.id_field,
                },
            );
            match (spec_read_u32(b, ent), spec_read_u32(b, ent + 4)) {
                (Some(name), Some(off)) => {
                    if off & 0x8000_0000 != 0 && it.level < 2 {
                        let child = WorkItem {
                            level: (it.level + 1) as u8,
                            dir: off & 0x7FFF_FFFF,
                            k: 0,
                            type_field: if it.level == 0 {
                                name
                            } else {
                                it.type_field
                            },
                            id_field: if it.level == 1 {
                                name
                            } else {
                                it.id_field
                            },
                        };
                        lemma_walk_bounded(b, base, cont.push(child), (budget - 1) as nat);
                    } else {
                        lemma_walk_bounded(b, base, cont, (budget - 1) as nat);
                    }
                },
                _ => lemma_walk_bounded(b, base, cont, (budget - 1) as nat),
            }
        }
    }
}

/// Collects the leaves of the resource directory at `base`, in pre-order,
/// visiting at most `RESOURCE_WALK_BUDGET` entries.
fn collect_leaves(buf: &[u8], base: u64) -> (r: Vec<LeafRaw>)
    requires
        base <= 0x2_0000_0000u64,
    ensures
        r@ == spec_walk(
            buf@,
            base as int,
            seq![spec_root_item()],
            RESOURCE_WALK_BUDGET as nat,
        ),
{
    let mut stack: Vec<WorkItem> = Vec::new();
    stack.push(WorkItem { level: 0, dir: 0, k: 0, type_field: 0, id_field: 0 });
    let ghost init_stack = stack@;
    let mut leaves: Vec<LeafRaw> = Vec::new();
    let mut budget: u64 = RESOURCE_WALK_BUDGET;
    assert(init_stack =~= seq![spec_root_item()]);
    while budget > 0 && stack.len() > 0
        invariant
            base <= 0x2_0000_0000u64,
            forall|i: int| 0 <= i < stack@.len() ==> (#[trigger] stack@[i]).dir <= 0x7FFF_FFFF
                && stack@[i].k <= 0x2_0000,
            leaves@ + spec_walk(buf@, base as int, stack@, budget as nat) == spec_walk(
                buf@,
                base as int,
                init_stack,
                RESOURCE_WALK_BUDGET as nat,
            ),
        decreases budget,
    {
        let ghost stack0 = stack@;
        let ghost budget0 = budget as nat;
        budget = budget - 1;
        let it = match stack.pop() {
            Some(it) => it,
            None => {
                return leaves;
            },
        };
        proof {
            assert(it == stack0.last());
            assert(stack@ =~= stack0.drop_last());
        }
        let node = base + it.dir as u64;
        let named = read_u16_at(buf, node + 12);
        let ids = read_u16_at(buf, node + 14);
        let cnt: u32 = match (named, ids) {
            (Some(a), Some(b)) => a as u32 + b as u32,
            _ => 0,
        };
        assert(cnt == spec_dir_count(buf@, base + it.dir));
        if it.k >= cnt {
            continue;
        }
        let ent: u64 = node + 16 + 8 * (it.k as u64);
        let cont_item = WorkItem {
            level: it.level,
            dir: it.dir,
            k: it.k + 1,
            type_field: it.type_field,
            id_field: it.id_field,
        };
        stack.push(cont_item);
        let name_field = read_u32_at(buf, ent);
        let off_field = read_u32_at(buf, ent + 4);
        match (name_field, off_field) {
            (Some(name), Some(off)) => {
                if off & 0x8000_0000 != 0 {
                    if it.level < 2 {
                        let child = WorkItem {
                            level: it.level + 1,
                            dir: off & 0x7FFF_FFFF,
                            k: 0,
                            type_field: if it.level == 0 {
                                name
                            } else {
                                it.type_field
                            },
                            id_field: if it.level == 1 {
                                name
                            } else {
                                it.id_field
                            },
                        };
                        stack.push(child);
                        proof {
                            assert(off & 0x7FFF_FFFF <= 0x7FFF_FFFF) by (bit_vector);
                        }
                    }
                } else {
                    if it.level == 2 {
                        let leaf = LeafRaw {
                            type_field: it.type_field,
                            id_field: it.id_field,
                            lang_field: name,
                            data_off: off,
                        };
                        leaves.push(leaf);
                        proof {
                            assert(leaves@ + spec_walk(buf@, base as int, stack@, budget as nat)
                                =~= leaves@.drop_last() + (seq![leaf] + spec_walk(
                                buf@,
                                base as int,
                                stack@,
                                budget as nat,
                            )));
                        }
                    }
                }
            },
            _ => {},
        }
    }
    leaves
}

/// A translated file offset never exceeds the sum of two 32-bit values.
pub proof fn lemma_translate_bounded(hs: Seq<SectionHeaderRaw>, rva: u64)
    ensures
        spec_translate_rva(hs, rva) matches Some(o) ==> o < 0x2_0000_0000u64,
    decreases hs.len(),
{
    if hs.len() > 0 && !crate::pe::util::spec_header_contains_rva(hs[0], rva) {
        lemma_translate_bounded(hs.drop_first(), rva);
    }
}

/// The UTF-16 units of a length-prefixed name: `n` units read from `off`.
pub open spec fn spec_read_utf16_units(b: Seq<u8>, off: int, n: int) -> Option<Seq<u16>>
    decreases n,
{
    if n <= 0 {
        Some(Seq::empty())
    } else {
        match (spec_read_u16(b, off), spec_read_utf16_units(b, off + 2, n - 1)) {
            (Some(u), Some(rest)) => Some(seq![u] + rest),
            _ => None,
        }
    }
}

/// The resource name string at `off`: a 16-bit unit count followed by that
/// many UTF-16 units; anything unreadable or undecodable reads as empty.
pub open spec fn spec_utf16_name(b: Seq<u8>, off: int) -> Seq<char> {
    match spec_read_u16(b, off) {
        Some(n) => match spec_read_utf16_units(b, off + 2, n as int) {
            Some(units) => match spec_decode_utf16(units) {
                Some(cs) => cs,
                None => Seq::empty(),
            },
            None => Seq::empty(),
        },
        None => Seq::empty(),
    }
}

/// Reads the resource name string at `off`.
fn read_utf16_name(buf: &[u8], off: u64) -> (r: String)
    requires
        off <= 0x3_0000_0000u64,
    ensures
        r@ == spec_utf16_name(buf@, off as int),
{
    let n = match read_u16_at(buf, off) {
        Some(n) => n,
        None => {
            return String::new();
        },
    };
    let mut units: Vec<u16> = Vec::new();
    let mut i: u16 = 0;
    assert(units@ + Seq::<u16>::empty() =~= units@);
    while i < n
        invariant
            i <= n,
            off <= 0x3_0000_0000u64,
            units@.len() == i,
            spec_read_u16(buf@, off as int) == Some(n),
            spec_read_utf16_units(buf@, off as int + 2, n as int) == (match spec_read_utf16_units(
                buf@,
                off as int + 2 + 2 * i,
                n - i,
            ) {
                Some(rest) => Some(units@ + rest),
                None => None::<Seq<u16>>,
            }),
        decreases n - i,
    {
        match read_u16_at(buf, off + 2 + 2 * (i as u64)) {
            Some(u) => {
                units.push(u);
                proof {
                    assert forall|rest: Seq<u16>|
                        units@.drop_last() + (seq![u] + rest) =~= units@ + rest by {}
                }
                i = i + 1;
            },
            None => {
                return String::new();
            },
        }
    }
    assert(spec_read_utf16_units(buf@, off as int + 2 + 2 * i, 0) == Some(Seq::<u16>::empty()));
    assert(spec_read_utf16_units(buf@, off as int + 2, n as int) == Some(units@));
    match decode_utf16_units(&units) {
        Some(s) => s,
        None => String::new(),
    }
}

/// The rendering of a name-or-id field below the type level: an explicit
/// name as `Name("...")`, a numeric id as `ID(n)`.
pub open spec fn spec_resolved_name(b: Seq<u8>, base: int, field: u32) -> Seq<char> {
    if field & 0x8000_0000 != 0 {
        "Name(\""@ + spec_utf16_name(b, base + (field & 0x7FFF_FFFF)) + "\")"@
    } else {
        "ID("@ + spec_decimal(field as nat) + ")"@
    }
}

/// Renders a name-or-id field below the type level.
fn resolved_name(buf: &[u8], base: u64, field: u32) -> (r: String)
    requires
        base <= 0x2_0000_0000u64,
    ensures
        r@ == spec_resolved_name(buf@, base as int, field),
{
    if field & 0x8000_0000 != 0 {
        proof {
            assert(field & 0x7FFF_FFFF <= 0x7FFF_FFFF) by (bit_vector);
        }
        let name = read_utf16_name(buf, base + (field & 0x7FFF_FFFF) as u64);
        let mut s = String::from_str("Name(\"");
        s.append(name.as_str());
        s.append("\")");
        proof {
            assert(s@ =~= spec_resolved_name(buf@, base as int, field));
        }
        s
    } else {
        let mut s = String::from_str("ID(");
        let num = u64_to_decimal(field as u64);
        s.append(num.as_str());
        s.append(")");
        proof {
            assert(s@ =~= spec_resolved_name(buf@, base as int, field));
        }
        s
    }
}

/// The name of a numeric resource type id, from the static table; ids
/// outside the table read as `Unknown`.
pub open spec fn spec_resource_type_name(id: u32) -> Seq<char> {
    if id == 1 {
        "Cursor"@
    } else if id == 2 {
        "Bitmap"@
    } else if id == 3 {
        "Icon"@
    } else if id == 4 {
        "Menu"@
    } else if id == 5 {
        "Dialog"@
    } else if id == 6 {
        "String"@
    } else if id == 7 {
        "FontDir"@
    } else if id == 8 {
        "Font"@
    } else if id == 9 {
        "Accelerator"@
    } else if id == 10 {
        "RCData"@
    } else if id == 11 {
        "MessageTable"@
    } else if id == 12 {
        "GroupCursor"@
    } else if id == 13 {
        "Reserved"@
    } else if id == 14 {
        "GroupIcon"@
    } else if id == 15 {
        "Reserved2"@
    } else if id == 16 {
        "Version"@
    } else if id == 17 {
        "DlgInclude"@
    } else if id == 18 {
        "Reserved3"@
    } else if id == 19 {
        "PlugPlay"@
    } else if id == 20 {
        "VXD"@
    } else if id == 21 {
        "AniCursor"@
    } else if id == 22 {
        "AniIcon"@
    } else if id == 23 {
        "HTML"@
    } else if id == 24 {
        "Manifest"@
    } else {
        "Unknown"@
    }
}

/// Resolves a numeric resource type id to its name.
pub fn resource_id_to_type(id: u32) -> (r: String)
    ensures
        r@ == spec_resource_type_name(id),
{
    match id {
        1 => String::from_str("Cursor"),
        2 => String::from_str("Bitmap"),
        3 => String::from_str("Icon"),
        4 => String::from_str("Menu"),
        5 => String::from_str("Dialog"),
        6 => String::from_str("String"),
        7 => String::from_str("FontDir"),
        8 => String::from_str("Font"),
        9 => String::from_str("Accelerator"),
        10 => String::from_str("RCData"),
        11 => String::from_str("MessageTable"),
        12 => String::from_str("GroupCursor"),
        13 => String::from_str("Reserved"),
        14 => String::from_str("GroupIcon"),
        15 => String::from_str("Reserved2"),
        16 => String::from_str("Version"),
        17 => String::from_str("DlgInclude"),
        18 => String::from_str("Reserved3"),
        19 => String::from_str("PlugPlay"),
        20 => String::from_str("VXD"),
        21 => String::from_str("AniCursor"),
        22 => String::from_str("AniIcon"),
        23 => String::from_str("HTML"),
        24 => String::from_str("Manifest"),
        _ => String::from_str("Unknown"),
    }
}

/// The resolved type of a leaf: an explicit name passes through, a numeric
/// id resolves against the static table.
pub open spec fn spec_type_string(b: Seq<u8>, base: int, field: u32) -> Seq<char> {
    if field & 0x8000_0000 != 0 {
        spec_utf16_name(b, base + (field & 0x7FFF_FFFF))
    } else {
        spec_resource_type_name(field)
    }
}

/// Resolves the type field of a leaf.
fn type_string(buf: &[u8], base: u64, field: u32) -> (r: String)
    requires
        base <= 0x2_0000_0000u64,
    ensures
        r@ == spec_type_string(buf@, base as int, field),
{
    if field & 0x8000_0000 != 0 {
        proof {
            assert(field & 0x7FFF_FFFF <= 0x7FFF_FFFF) by (bit_vector);
        }
        read_utf16_name(buf, base + (field & 0x7FFF_FFFF) as u64)
    } else {
        resource_id_to_type(field)
    }
}

/// The translated file range of a leaf's data: its data entry names an
/// address and a size; the address translates through the section headers
/// to the start offset, and the size is added for the end.  A failed read,
/// a failed translation, or a range beyond the address space yields none.
pub open spec fn spec_leaf_range(
    b: Seq<u8>,
    base: int,
    hs: Seq<SectionHeaderRaw>,
    data_off: u32,
) -> Option<(int, int)> {
    match (spec_read_u32(b, base + data_off), spec_read_u32(b, base + data_off + 4)) {
        (Some(rva), Some(size)) => match spec_translate_rva(hs, rva as u64) {
            Some(o) => if o + size <= usize::MAX {
                Some((o as int, o + size))
            } else {
                None
            },
            None => None,
        },
        _ => None,
    }
}

/// Translates the data entry of a leaf to its file range.
fn leaf_range(buf: &[u8], base: u64, headers: &Vec<SectionHeaderRaw>, data_off: u32) -> (r: Option<
    (usize, usize),
>)
    requires
        base <= 0x2_0000_0000u64,
    ensures
        r matches Some(p) ==> spec_leaf_range(buf@, base as int, headers@, data_off) == Some(
            (p.0 as int, p.1 as int),
        ),
        r is None ==> spec_leaf_range(buf@, base as int, headers@, data_off) is None,
{
    let rva = match read_u32_at(buf, base + data_off as u64) {
        Some(v) => v,
        None => {
            return None;
        },
    };
    let size = match read_u32_at(buf, base + data_off as u64 + 4) {
        Some(v) => v,
        None => {
            return None;
        },
    };
    let o = match translate_rva(headers, rva as u64) {
        Some(o) => o,
        None => {
            return None;
        },
    };
    proof {
        lemma_translate_bounded(headers@, rva as u64);
    }
    if o + size as u64 <= usize::MAX as u64 {
        Some((o as usize, (o + size as u64) as usize))
    } else {
        None
    }
}

/// What one resolved resource entry holds for its leaf.
pub open spec fn spec_matches_resource_entry(
    e: ResourceEntry,
    b: Seq<u8>,
    base: int,
    hs: Seq<SectionHeaderRaw>,
    leaf: LeafRaw,
) -> bool {
    &&& e.resource_type@ == spec_type_string(b, base, leaf.type_field)
    &&& e.offset == (if leaf.type_field & 0x8000_0000 == 0 {
        Some(leaf.type_field)
    } else {
        None::<u32>
    })
    &&& e.resource_id@ == spec_resolved_name(b, base, leaf.id_field)
    &&& e.language_id@ == spec_resolved_name(b, base, leaf.lang_field)
    &&& match spec_leaf_range(b, base, hs, leaf.data_off) {
        Some(p) => e.data_start == Some(p.0 as usize) && e.data_end == Some(p.1 as usize),
        None => e.data_start is None && e.data_end is None,
    }
}

/// Resolves one leaf to a resource entry.
fn leaf_to_entry(buf: &[u8], base: u64, headers: &Vec<SectionHeaderRaw>, leaf: &LeafRaw) -> (e:
    ResourceEntry)
    requires
        base <= 0x2_0000_0000u64,
    ensures
        spec_matches_resource_entry(e, buf@, base as int, headers@, *leaf),
{
    let (data_start, data_end) = match leaf_range(buf, base, headers, leaf.data_off) {
        Some(p) => (Some(p.0), Some(p.1)),
        None => (None, None),
    };
    ResourceEntry {
        resource_type: type_string(buf, base, leaf.type_field),
        offset: if leaf.type_field & 0x8000_0000 == 0 {
            Some(leaf.type_field)
        } else {
            None
        },
        resource_id: resolved_name(buf, base, leaf.id_field),
        language_id: resolved_name(buf, base, leaf.lang_field),
        data_start,
        data_end,
    }
}

/// Whether a resource report can be extracted at all: the directory must be
/// declared, its address must translate, and its root header must lie
/// within the file.
pub open spec fn spec_resources_available(
    b: Seq<u8>,
    hs: Seq<SectionHeaderRaw>,
    dir: Option<(u32, u32)>,
) -> bool {
    match dir {
        Some(d) => match spec_translate_rva(hs, d.0 as u64) {
            Some(base) => base + 16 <= b.len(),
            None => false,
        },
        None => false,
    }
}

/// What the resource report holds at a given base: the root directory
/// metadata read there, and one resolved entry per leaf of the bounded
/// pre-order walk, in walk order.
pub open spec fn spec_matches_resources_at(
    res: Resources,
    b: Seq<u8>,
    hs: Seq<SectionHeaderRaw>,
    base: int,
) -> bool {
    &&& spec_read_u16(b, base + 8) == Some(res.major_version)
    &&& spec_read_u16(b, base + 10) == Some(res.minor_version)
    &&& spec_read_u16(b, base + 12) == Some(res.number_of_named_entries)
    &&& spec_read_u16(b, base + 14) == Some(res.number_of_id_entries)
    &&& spec_read_u32(b, base + 4) == Some(res.timestamp)
    &&& res.resources@.len() == spec_walk(
        b,
        base,
        seq![spec_root_item()],
        RESOURCE_WALK_BUDGET as nat,
    ).len()
    &&& forall|i: int|
        0 <= i < res.resources@.len() ==> spec_matches_resource_entry(
            #[trigger] res.resources@[i],
            b,
            base,
            hs,
            spec_walk(b, base, seq![spec_root_item()], RESOURCE_WALK_BUDGET as nat)[i],
        )
}

/// What the resource report holds for the declared data directory.
pub open spec fn spec_matches_resources(
    res: Resources,
    b: Seq<u8>,
    hs: Seq<SectionHeaderRaw>,
    dir: Option<(u32, u32)>,
) -> bool {
    match dir {
        Some(d) => match spec_translate_rva(hs, d.0 as u64) {
            Some(base) => spec_matches_resources_at(res, b, hs, base as int),
            None => false,
        },
        None => false,
    }
}

impl Resources {
    /// Walks the resource directory named by the data-directory entry: root
    /// metadata plus the leaves of the bounded pre-order traversal, each
    /// resolved and address-translated.  An absent, untranslatable or
    /// truncated directory yields no report, which is not an error.
    pub fn parse(
        buf: &[u8],
        headers: &Vec<SectionHeaderRaw>,
        dir: Option<(u32, u32)>,
    ) -> (r: Option<Resources>)
        ensures
            r is Some <==> spec_resources_available(buf@, headers@, dir),
            r matches Some(res) ==> spec_matches_resources(res, buf@, headers@, dir),
    {
        let d = match dir {
            Some(d) => d,
            None => {
                return None;
            },
        };
        let base = match translate_rva(headers, d.0 as u64) {
            Some(base) => base,
            None => {
                return None;
            },
        };
        proof {
            lemma_translate_bounded(headers@, d.0 as u64);
        }
        let timestamp = match read_u32_at(buf, base + 4) {
            Some(v) => v,
            None => {
                return None;
            },
        };
        let major_version = match read_u16_at(buf, base + 8) {
            Some(v) => v,
            None => {
                return None;
            },
        };
        let minor_version = match read_u16_at(buf, base + 10) {
            Some(v) => v,
            None => {
                return None;
            },
        };
        let number_of_named_entries = match read_u16_at(buf, base + 12) {
            Some(v) => v,
            None => {
                return None;
            },
        };
        let number_of_id_entries = match read_u16_at(buf, base + 14) {
            Some(v) => v,
            None => {
                return None;
            },
        };
        let leaves = collect_leaves(buf, base);
        let ghost walk = spec_walk(
            buf@,
            base as int,
            seq![spec_root_item()],
            RESOURCE_WALK_BUDGET as nat,
        );
        let n = leaves.len();
        let mut resources: Vec<ResourceEntry> = Vec::new();
        for i in 0..n
            invariant
                base <= 0x2_0000_0000u64,
                n == leaves@.len(),
                leaves@ == walk,
                resources@.len() == i,
                forall|j: int|
                    0 <= j < i ==> spec_matches_resource_entry(
                        #[trigger] resources@[j],
                        buf@,
                        base as int,
                        headers@,
                        walk[j],
                    ),
        {
            resources.push(leaf_to_entry(buf, base, headers, &leaves[i]));
        }
        Some(
            Resources {
                minor_version,
                major_version,
                number_of_id_entries,
                number_of_named_entries,
                timestamp,
                resources,
            },
        )
    }
}

} // verus!
