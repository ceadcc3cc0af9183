//! Benchmark unit discovery: from the entries of the benchmark directory,
//! select the subdirectories that hold a build manifest, optionally restrict
//! to one named unit, and order the result by name.
use crate::strutil::lemma_lex_le_total;
use crate::strutil::lemma_lex_le_trans;
use crate::strutil::lex_le;
use crate::strutil::str_eq;
use crate::strutil::str_le;
use vstd::prelude::*;
use vstd::string::StringExecFns;

verus! {

/// One entry of the benchmark directory, as plain values: its name (when it
/// is valid text), its path, and whether it is a directory that holds a
/// build manifest.
#[derive(Debug)]
pub struct DirEntryInfo {
    /// The entry's file name, or `None` when it is not valid text.
    pub file_name: Option<String>,
    /// The entry's full path, for error reports.
    pub path: String,
    pub is_dir: bool,
    pub has_manifest: bool,
}

/// A single benchmark crate found in the benchmark directory.
#[derive(Debug)]
pub struct BenchmarkGroupCrate {
    pub name: String,
    pub path: String,
}

/// Discovery failed: a unit directory's name is not valid text.
#[derive(Debug)]
pub struct DiscoveryError {
    /// The path of the offending entry.
    pub path: String,
}

impl DiscoveryError {
    /// The error rendered as one line.
    pub fn message(&self) -> (r: String)
        ensures
            r@ == "Cannot get filename of "@ + self.path@,
    {
        let mut r = String::from_str("Cannot get filename of ");
        r.append(self.path.as_str());
        r
    }
}

/// An entry that counts as a benchmark unit: a directory with a manifest.
pub open spec fn is_unit(e: DirEntryInfo) -> bool {
    e.is_dir && e.has_manifest
}

/// A unit entry whose name cannot be read.
pub open spec fn is_bad_unit(e: DirEntryInfo) -> bool {
    is_unit(e) && e.file_name is None
}

/// A unit entry that the restriction keeps.
pub open spec fn is_selected(e: DirEntryInfo, restriction: Option<Seq<char>>) -> bool {
    &&& is_unit(e)
    &&& e.file_name matches Some(n)
    &&& (match restriction {
        Some(r) => n@ == r,
        None => true,
    })
}

/// The crate that a selected entry yields.
pub open spec fn crate_of(e: DirEntryInfo) -> BenchmarkGroupCrate {
    BenchmarkGroupCrate { name: e.file_name->0, path: e.path }
}

/// The crates of the selected entries, in entry order.
pub open spec fn selected_crates(
    entries: Seq<DirEntryInfo>,
    restriction: Option<Seq<char>>,
) -> Seq<BenchmarkGroupCrate>
    decreases entries.len(),
{
    if entries.len() == 0 {
        Seq::empty()
    } else {
        let rest = selected_crates(entries.drop_last(), restriction);
        if is_selected(entries.last(), restriction) {
            rest.push(crate_of(entries.last()))
        } else {
            rest
        }
    }
}

/// The crates are ordered by name.
pub open spec fn sorted_crates(s: Seq<BenchmarkGroupCrate>) -> bool {
    forall|i: int, j: int|
        0 <= i < j < s.len() ==> lex_le(#[trigger] s[i].name@, #[trigger] s[j].name@)
}

/// Sorts crates by name; the contents are preserved as a multiset.
fn sort_crates_by_name(v: &mut Vec<BenchmarkGroupCrate>)
    ensures
        final(v)@.to_multiset() == old(v)@.to_multiset(),
        sorted_crates(final(v)@),
{
    broadcast use vstd::seq_lib::group_to_multiset_ensures;

    let mut i: usize = 1;
    if v.len() <= 1 {
        return ;
    }
    while i < v.len()
        invariant
            1 <= i <= v@.len(),
            v@.len() == old(v)@.len(),
            v@.to_multiset() == old(v)@.to_multiset(),
            sorted_crates(v@.take(i as int)),
        decreases v@.len() - i,
    {
        let ghost before = v@;
        let x = v.remove(i);
        let ghost mid = v@;
        let mut j: usize = 0;
        while j < i && str_le(v[j].name.as_str(), x.name.as_str())
            invariant
                0 <= j <= i,
                i < before.len(),
                v@ == mid,
                mid == before.remove(i as int),
                x == before[i as int],
                forall|k: int| 0 <= k < j ==> lex_le(#[trigger] mid[k].name@, x.name@),
            decreases i - j,
        {
            j = j + 1;
        }
        proof {
            if j < i {
                lemma_lex_le_total(x.name@, mid[j as int].name@);
                assert(lex_le(x.name@, mid[j as int].name@));
            }
            assert forall|k: int| j <= k < i implies lex_le(x.name@, #[trigger] mid[k].name@) by {
                assert(mid[k] == before[k]);
                if k > j {
                    assert(mid[j as int] == before[j as int]);
                    assert(lex_le(mid[j as int].name@, mid[k].name@));
                    lemma_lex_le_trans(x.name@, mid[j as int].name@, mid[k].name@);
                }
            }
        }
        v.insert(j, x);
        proof {
            assert(v@ == mid.insert(j as int, x));
            assert(v@.to_multiset() == old(v)@.to_multiset()) by {
                broadcast use vstd::multiset::group_multiset_axioms;
                broadcast use vstd::seq_lib::group_to_multiset_ensures;

                assert(mid == before.remove(i as int));
                assert(before.remove(i as int).to_multiset() == before.to_multiset().remove(
                    before[i as int],
                ));
                assert(mid.insert(j as int, x).to_multiset() == mid.to_multiset().insert(x));
                assert(before.contains(x)) by {
                    assert(before[i as int] == x);
                }
                assert(before.to_multiset().count(x) > 0);
                assert(v@.to_multiset() =~= before.to_multiset());
            }
            assert forall|a: int, b: int| 0 <= a < b < i + 1 implies lex_le(
                #[trigger] v@.take(i + 1)[a].name@,
                #[trigger] v@.take(i + 1)[b].name@,
            ) by {
                assert(forall|k: int| 0 <= k < j ==> v@[k] == mid[k]);
                assert(v@[j as int] == x);
                assert(forall|k: int| j < k <= i ==> v@[k] == mid[k - 1]);
                assert(forall|k: int| 0 <= k < i ==> mid[k] == before[k]);
                assert(forall|k1: int, k2: int|
                    0 <= k1 < k2 < i ==> lex_le(#[trigger] before[k1].name@, #[trigger] before[k2].name@));
            }
        }
        i = i + 1;
    }
    proof {
        assert(v@.take(v@.len() as int) =~= v@);
    }
}

/// Selects the benchmark units among `entries`: the directories that hold a
/// build manifest, restricted to the unit named `group` when one is given.
/// The result is ordered by name; when the restriction matches nothing the
/// result is empty, not an error. Fails only when a unit directory's name is
/// not valid text, naming the first such entry.
pub fn get_runtime_benchmark_groups(entries: Vec<DirEntryInfo>, group: Option<String>) -> (r:
    Result<Vec<BenchmarkGroupCrate>, DiscoveryError>)
    ensures
        (r is Err) <==> (exists|i: int| 0 <= i < entries@.len() && is_bad_unit(#[trigger] entries@[i])),
        r matches Err(e) ==> exists|i: int|
            {
                &&& 0 <= i < entries@.len()
                &&& is_bad_unit(#[trigger] entries@[i])
                &&& e.path == entries@[i].path
                &&& forall|k: int| 0 <= k < i ==> !is_bad_unit(#[trigger] entries@[k])
            },
        r matches Ok(v) ==> v@.to_multiset() == selected_crates(
            entries@,
            crate::filter::opt_view(group),
        ).to_multiset() && sorted_crates(v@),
{
    let ghost restriction = crate::filter::opt_view(group);
    let mut found: Vec<BenchmarkGroupCrate> = Vec::new();
    let mut i: usize = 0;
    while i < entries.len()
        invariant
            0 <= i <= entries@.len(),
            restriction == crate::filter::opt_view(group),
            found@ == selected_crates(entries@.take(i as int), restriction),
            forall|k: int| 0 <= k < i ==> !is_bad_unit(#[trigger] entries@[k]),
        decreases entries@.len() - i,
    {
        proof {
            assert(entries@.take(i + 1).drop_last() =~= entries@.take(i as int));
            assert(entries@.take(i + 1).last() == entries@[i as int]);
        }
        let e = &entries[i];
        if e.is_dir && e.has_manifest {
            match &e.file_name {
                None => {
                    proof {
                        assert(is_bad_unit(entries@[i as int]));
                    }
                    return Err(DiscoveryError { path: e.path.clone() });
                },
                Some(name) => {
                    let keep = match &group {
                        Some(g) => str_eq(name.as_str(), g.as_str()),
                        None => true,
                    };
                    proof {
                        assert(keep == is_selected(entries@[i as int], restriction));
                    }
                    if keep {
                        found.push(
                            BenchmarkGroupCrate { name: name.clone(), path: e.path.clone() },
                        );
                        proof {
                            assert(found@.last() == crate_of(entries@[i as int]));
                            assert(found@ =~= selected_crates(entries@.take(i + 1), restriction));
                        }
                    }
                },
            }
        }
        i = i + 1;
    }
    proof {
        assert(entries@.take(entries@.len() as int) =~= entries@);
    }
    sort_crates_by_name(&mut found);
    Ok(found)
}

/// With a restriction in force, discovery yields exactly one unit when some
/// unit entry bears the restricted name, and none otherwise — never an
/// error's worth more. Holds when unit names are pairwise distinct, as the
/// names of directory entries are.
pub proof fn lemma_restricted_discovery(entries: Seq<DirEntryInfo>, r: Seq<char>)
    requires
        forall|i: int, j: int|
            0 <= i < j < entries.len() && is_selected(#[trigger] entries[i], None) && is_selected(
                #[trigger] entries[j],
                None,
            ) ==> entries[i].file_name->0@ != entries[j].file_name->0@,
    ensures
        selected_crates(entries, Some(r)).len() == (if exists|i: int|
            0 <= i < entries.len() && is_selected(#[trigger] entries[i], Some(r)) {
            1int
        } else {
            0int
        }),
    decreases entries.len(),
{
    if entries.len() > 0 {
        let prefix = entries.drop_last();
        assert(forall|i: int| 0 <= i < prefix.len() ==> prefix[i] == entries[i]);
        lemma_restricted_discovery(prefix, r);
        let last = entries.last();
        if is_selected(last, Some(r)) {
            assert(exists|i: int|
                0 <= i < entries.len() && is_selected(#[trigger] entries[i], Some(r)));
            assert(!(exists|i: int|
                0 <= i < prefix.len() && is_selected(#[trigger] prefix[i], Some(r)))) by {
                if exists|i: int| 0 <= i < prefix.len() && is_selected(#[trigger] prefix[i], Some(r)) {
                    let i = choose|i: int|
                        0 <= i < prefix.len() && is_selected(#[trigger] prefix[i], Some(r));
                    assert(is_selected(entries[i], None));
                    assert(is_selected(entries[entries.len() - 1], None));
                    assert(entries[i].file_name->0@ == r);
                    assert(entries[entries.len() - 1].file_name->0@ == r);
                }
            }
        } else {
            if exists|i: int| 0 <= i < entries.len() && is_selected(#[trigger] entries[i], Some(r)) {
                let i = choose|i: int|
                    0 <= i < entries.len() && is_selected(#[trigger] entries[i], Some(r));
                assert(i < prefix.len());
                assert(is_selected(prefix[i], Some(r)));
            }
        }
    }
}

} // verus!
