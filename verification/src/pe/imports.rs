//! Import normalization: symbols grouped by module across two symbol models.
//!
//! PE imports are grouped by their module (DLL) name folded to lower case,
//! so module-name comparison is case-insensitive; a symbol is either named
//! or ordinal-only, and ordinal-only symbols get the synthesized name
//! `Ordinal(N)`.  Modules appear in first-appearance order, one entry per
//! distinct module, and each module's functions keep their directory order,
//! duplicates allowed.

use vstd::prelude::*;
use vstd::string::{StringExecFns, StrSliceExecFns};

use crate::decoder::ImportRaw;
use crate::text::{spec_decimal, spec_lower, to_lowercase, u64_to_decimal};

verus! {

/// One imported symbol: its name (or synthesized ordinal name) and whether
/// it is imported by ordinal only.
#[derive(Clone, Debug, Default, PartialEq)]
pub struct ImportFunction {
    pub name: String,
    pub import_by_ordinal: bool,
}

/// One importing module with its symbols, in directory order.
#[derive(Clone, Debug, Default, PartialEq)]
pub struct ImportEntry {
    pub name: String,
    pub imports: Vec<ImportFunction>,
}

/// All importing modules, one entry per distinct module.
#[derive(Clone, Debug, Default, PartialEq)]
pub struct Imports {
    pub modules: Vec<ImportEntry>,
}

/// The content of one import function, by views.
pub open spec fn spec_function_view(f: ImportFunction) -> (Seq<char>, bool) {
    (f.name@, f.import_by_ordinal)
}

/// The contents of a function list, by views.
pub open spec fn spec_funcs_view(fs: Seq<ImportFunction>) -> Seq<(Seq<char>, bool)> {
    fs.map_values(|f: ImportFunction| spec_function_view(f))
}

/// The contents of a key list, by views.
pub open spec fn spec_keys_view(ks: Seq<String>) -> Seq<Seq<char>> {
    ks.map_values(|s: String| s@)
}

/// The content of one keyed pair, by views.
pub open spec fn spec_pair_view(p: (String, ImportFunction)) -> (Seq<char>, (Seq<char>, bool)) {
    (p.0@, spec_function_view(p.1))
}

/// The contents of a keyed pair list, by views.
pub open spec fn spec_pairs_view(ps: Seq<(String, ImportFunction)>) -> Seq<
    (Seq<char>, (Seq<char>, bool)),
> {
    ps.map_values(|p: (String, ImportFunction)| spec_pair_view(p))
}

/// The distinct keys of a pair list, in first-appearance order.
pub open spec fn spec_group_keys(ps: Seq<(Seq<char>, (Seq<char>, bool))>) -> Seq<Seq<char>>
    decreases ps.len(),
{
    if ps.len() == 0 {
        Seq::empty()
    } else {
        let prev = spec_group_keys(ps.drop_last());
        if prev.contains(ps.last().0) {
            prev
        } else {
            prev.push(ps.last().0)
        }
    }
}

/// The values of the pairs with the given key, in list order.
pub open spec fn spec_group_funcs(
    ps: Seq<(Seq<char>, (Seq<char>, bool))>,
    key: Seq<char>,
) -> Seq<(Seq<char>, bool)>
    decreases ps.len(),
{
    if ps.len() == 0 {
        Seq::empty()
    } else {
        let prev = spec_group_funcs(ps.drop_last(), key);
        if ps.last().0 == key {
            prev.push(ps.last().1)
        } else {
            prev
        }
    }
}

/// What a normalized import table holds for a keyed pair list: one module
/// per distinct key in first-appearance order, each carrying the values of
/// its pairs in list order.
pub open spec fn spec_imports_match(
    im: Imports,
    ps: Seq<(Seq<char>, (Seq<char>, bool))>,
) -> bool {
    &&& im.modules@.len() == spec_group_keys(ps).len()
    &&& forall|i: int|
        0 <= i < im.modules@.len() ==> (#[trigger] im.modules@[i]).name@ == spec_group_keys(ps)[i]
    &&& forall|i: int|
        0 <= i < im.modules@.len() ==> spec_funcs_view((#[trigger] im.modules@[i]).imports@)
            == spec_group_funcs(ps, spec_group_keys(ps)[i])
}

/// Whether a list of keys, by views, holds the given key.
fn contains_key(keys: &Vec<String>, k: &String) -> (b: bool)
    ensures
        b == spec_keys_view(keys@).contains(k@),
{
    let n = keys.len();
    for i in 0..n
        invariant
            n == keys@.len(),
            forall|j: int| 0 <= j < i ==> spec_keys_view(keys@)[j] != k@,
    {
        if keys[i].eq(k) {
            assert(spec_keys_view(keys@)[i as int] == k@);
            return true;
        }
    }
    assert(!spec_keys_view(keys@).contains(k@));
    false
}

/// Copies one import function, content for content.
fn duplicate_function(f: &ImportFunction) -> (r: ImportFunction)
    ensures
        r == *f,
{
    ImportFunction { name: f.name.clone(), import_by_ordinal: f.import_by_ordinal }
}

/// Groups keyed functions by key: one module per distinct key in
/// first-appearance order, functions in list order, duplicates kept.
pub(crate) fn group_pairs(pairs: &Vec<(String, ImportFunction)>) -> (r: Imports)
    ensures
        spec_imports_match(r, spec_pairs_view(pairs@)),
{
    let ghost ps = spec_pairs_view(pairs@);
    let n = pairs.len();
    let mut keys: Vec<String> = Vec::new();
    assert(ps.take(0) =~= Seq::<(Seq<char>, (Seq<char>, bool))>::empty());
    for i in 0..n
        invariant
            n == pairs@.len(),
            ps == spec_pairs_view(pairs@),
            spec_keys_view(keys@) == spec_group_keys(ps.take(i as int)),
    {
        proof {
            assert(ps.take(i + 1).drop_last() =~= ps.take(i as int));
            assert(ps.take(i + 1).last() == ps[i as int]);
            assert(ps[i as int] == spec_pair_view(pairs@[i as int]));
        }
        if !contains_key(&keys, &pairs[i].0) {
            keys.push(pairs[i].0.clone());
            assert(spec_keys_view(keys@) =~= spec_group_keys(ps.take(i + 1)));
        } else {
            assert(spec_keys_view(keys@) =~= spec_group_keys(ps.take(i + 1)));
        }
    }
    proof {
        assert(ps.take(n as int) =~= ps);
    }
    let k = keys.len();
    let mut modules: Vec<ImportEntry> = Vec::new();
    for j in 0..k
        invariant
            k == keys@.len(),
            n == pairs@.len(),
            ps == spec_pairs_view(pairs@),
            spec_keys_view(keys@) == spec_group_keys(ps),
            modules@.len() == j,
            forall|jj: int|
                0 <= jj < j ==> (#[trigger] modules@[jj]).name@ == spec_group_keys(ps)[jj],
            forall|jj: int|
                0 <= jj < j ==> spec_funcs_view((#[trigger] modules@[jj]).imports@)
                    == spec_group_funcs(ps, spec_group_keys(ps)[jj]),
    {
        let mut funcs: Vec<ImportFunction> = Vec::new();
        assert(ps.take(0) =~= Seq::<(Seq<char>, (Seq<char>, bool))>::empty());
        for i in 0..n
            invariant
                n == pairs@.len(),
                k == keys@.len(),
                j < k,
                ps == spec_pairs_view(pairs@),
                spec_keys_view(keys@) == spec_group_keys(ps),
                spec_funcs_view(funcs@) == spec_group_funcs(ps.take(i as int), keys@[j as int]@),
        {
            proof {
                assert(ps.take(i + 1).drop_last() =~= ps.take(i as int));
                assert(ps.take(i + 1).last() == ps[i as int]);
                assert(ps[i as int] == spec_pair_view(pairs@[i as int]));
            }
            if pairs[i].0.eq(&keys[j]) {
                funcs.push(duplicate_function(&pairs[i].1));
                assert(spec_funcs_view(funcs@) =~= spec_group_funcs(
                    ps.take(i + 1),
                    keys@[j as int]@,
                ));
            } else {
                assert(spec_funcs_view(funcs@) =~= spec_group_funcs(
                    ps.take(i + 1),
                    keys@[j as int]@,
                ));
            }
        }
        proof {
            assert(ps.take(n as int) =~= ps);
            assert(keys@[j as int]@ == spec_keys_view(keys@)[j as int]);
        }
        modules.push(ImportEntry { name: keys[j].clone(), imports: funcs });
    }
    Imports { modules }
}

/// The normalized view of one PE import record: ordinal-only symbols get
/// the synthesized name `Ordinal(N)`, named symbols keep their name.
pub open spec fn spec_pe_function(r: ImportRaw) -> (Seq<char>, bool) {
    if r.ordinal > 0 {
        ("Ordinal("@ + spec_decimal(r.ordinal as nat) + ")"@, true)
    } else {
        (r.name@, false)
    }
}

/// The keyed view of one PE import record: the module name folded to lower
/// case, with the normalized symbol.
pub open spec fn spec_pe_pair(r: ImportRaw) -> (Seq<char>, (Seq<char>, bool)) {
    (spec_lower(r.dll@), spec_pe_function(r))
}

/// The keyed views of a PE import directory, in directory order.
pub open spec fn spec_pe_pairs(rs: Seq<ImportRaw>) -> Seq<(Seq<char>, (Seq<char>, bool))> {
    rs.map_values(|r: ImportRaw| spec_pe_pair(r))
}

/// Builds one normalized import function from a PE import record.
fn pe_function(r: &ImportRaw) -> (f: ImportFunction)
    ensures
        spec_function_view(f) == spec_pe_function(*r),
{
    if r.ordinal > 0 {
        let mut name = String::from_str("Ordinal(");
        let num = u64_to_decimal(r.ordinal as u64);
        name.append(num.as_str());
        name.append(")");
        proof {
            assert(name@ =~= "Ordinal("@ + spec_decimal(r.ordinal as nat) + ")"@);
        }
        ImportFunction { name, import_by_ordinal: true }
    } else {
        ImportFunction { name: r.name.clone(), import_by_ordinal: false }
    }
}

impl Imports {
    /// Normalizes a PE import directory: symbols grouped by module name
    /// folded to lower case, one entry per distinct module in
    /// first-appearance order, ordinal-only symbols named `Ordinal(N)`.
    pub fn parse(records: &Vec<ImportRaw>) -> (r: Imports)
        ensures
            spec_imports_match(r, spec_pe_pairs(records@)),
    {
        let n = records.len();
        let mut pairs: Vec<(String, ImportFunction)> = Vec::new();
        for i in 0..n
            invariant
                n == records@.len(),
                pairs@.len() == i,
                spec_pairs_view(pairs@) == spec_pe_pairs(records@.take(i as int)),
        {
            let key = to_lowercase(records[i].dll.as_str());
            let f = pe_function(&records[i]);
            let ghost old_pairs = pairs@;
            pairs.push((key, f));
            proof {
                assert forall|idx: int| 0 <= idx < i + 1 implies spec_pairs_view(pairs@)[idx]
                    == spec_pe_pairs(records@.take(i + 1))[idx] by {
                    assert(records@.take(i + 1)[idx] == records@[idx]);
                    if idx < i {
                        assert(pairs@[idx] == old_pairs[idx]);
                        assert(spec_pairs_view(old_pairs)[idx] == spec_pe_pairs(
                            records@.take(i as int),
                        )[idx]);
                        assert(spec_pe_pairs(records@.take(i as int))[idx] == spec_pe_pair(
                            records@.take(i as int)[idx],
                        ));
                        assert(records@.take(i as int)[idx] == records@[idx]);
                    } else {
                        assert(pairs@[idx] == (key, f));
                    }
                }
                assert(spec_pairs_view(pairs@) =~= spec_pe_pairs(records@.take(i + 1)));
            }
        }
        proof {
            assert(records@.take(n as int) =~= records@);
        }
        group_pairs(&pairs)
    }
}

/// Normalizes a PE import directory, as an optional value.
pub fn pimp(records: &Vec<ImportRaw>) -> (r: Option<Imports>)
    ensures
        r matches Some(im) && spec_imports_match(im, spec_pe_pairs(records@)),
{
    Some(Imports::parse(records))
}

/// Distinct keys stay distinct: the normalized table holds one entry per
/// module, never two entries with the same folded name.
pub proof fn lemma_group_keys_distinct(ps: Seq<(Seq<char>, (Seq<char>, bool))>)
    ensures
        forall|i: int, j: int|
            0 <= i < j < spec_group_keys(ps).len() ==> spec_group_keys(ps)[i] != spec_group_keys(
                ps,
            )[j],
    decreases ps.len(),
{
    if ps.len() > 0 {
        lemma_group_keys_distinct(ps.drop_last());
        let prev = spec_group_keys(ps.drop_last());
        let k = ps.last().0;
        if !prev.contains(k) {
            assert forall|i: int, j: int|
                0 <= i < j < spec_group_keys(ps).len() implies spec_group_keys(ps)[i]
                != spec_group_keys(ps)[j] by {
                if j == prev.len() {
                    assert(spec_group_keys(ps)[i] == prev[i]);
                    assert(!prev.contains(k));
                    assert(prev[i] != k);
                }
            }
        }
    }
}

/// Every pair lands in the group of its key: the key is a module of the
/// table, and the pair's value stands in that module's function list.
pub proof fn lemma_group_membership(ps: Seq<(Seq<char>, (Seq<char>, bool))>, i: int)
    requires
        0 <= i < ps.len(),
    ensures
        spec_group_keys(ps).contains(ps[i].0),
        spec_group_funcs(ps, ps[i].0).contains(ps[i].1),
    decreases ps.len(),
{
    let prev_keys = spec_group_keys(ps.drop_last());
    let prev_funcs = spec_group_funcs(ps.drop_last(), ps[i].0);
    if i == ps.len() - 1 {
        if !prev_keys.contains(ps[i].0) {
            assert(spec_group_keys(ps).last() == ps[i].0);
        }
        assert(spec_group_funcs(ps, ps[i].0).last() == ps[i].1);
    } else {
        assert(ps.drop_last()[i] == ps[i]);
        lemma_group_membership(ps.drop_last(), i);
        if !prev_keys.contains(ps.last().0) {
            let w = choose|w: int| 0 <= w < prev_keys.len() && prev_keys[w] == ps[i].0;
            assert(spec_group_keys(ps)[w] == ps[i].0);
        }
        if ps.last().0 == ps[i].0 {
            let w = choose|w: int| 0 <= w < prev_funcs.len() && prev_funcs[w] == ps[i].1;
            assert(spec_group_funcs(ps, ps[i].0)[w] == ps[i].1);
        }
    }
}

/// Module-name comparison is case-insensitive: two import records whose
/// module names agree after case folding land in the same module entry,
/// each contributing its own function.
pub proof fn lemma_case_insensitive_grouping(rs: Seq<ImportRaw>, i: int, j: int)
    requires
        0 <= i < rs.len(),
        0 <= j < rs.len(),
        spec_lower(rs[i].dll@) == spec_lower(rs[j].dll@),
    ensures
        spec_group_keys(spec_pe_pairs(rs)).contains(spec_lower(rs[i].dll@)),
        spec_group_funcs(spec_pe_pairs(rs), spec_lower(rs[i].dll@)).contains(spec_pe_function(rs[i])),
        spec_group_funcs(spec_pe_pairs(rs), spec_lower(rs[i].dll@)).contains(spec_pe_function(rs[j])),
{
    let ps = spec_pe_pairs(rs);
    assert(ps[i] == spec_pe_pair(rs[i]));
    assert(ps[j] == spec_pe_pair(rs[j]));
    lemma_group_membership(ps, i);
    lemma_group_membership(ps, j);
}

} // verus!
