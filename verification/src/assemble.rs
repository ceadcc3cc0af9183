//! Suite assembly: folds per-unit build outcomes into a suite, separating
//! built groups from failures, ordering groups by artifact path, and
//! validating that benchmark names are globally unique across groups.
use crate::strutil::lemma_lex_le_total;
use crate::strutil::lemma_lex_le_trans;
use crate::strutil::lex_le;
use crate::strutil::str_eq;
use crate::strutil::str_le;
use crate::suite::group_names;
use crate::suite::BenchmarkGroup;
use crate::suite::BenchmarkSuite;
use crate::suite::BenchmarkSuiteCompilation;
use crate::suite::Toolchain;
use vstd::prelude::*;
use vstd::string::StringExecFns;

verus! {

/// The outcome of building one unit: the unit's name, and either its built
/// group or the text of the error that failed it.
#[derive(Debug)]
pub struct UnitOutcome {
    pub name: String,
    pub result: Result<BenchmarkGroup, String>,
}

/// Assembly failed: one benchmark name is reported by two groups.
#[derive(Debug)]
pub struct DuplicateBenchmarkError {
    pub benchmark: String,
    pub first_group: String,
    pub second_group: String,
}

impl DuplicateBenchmarkError {
    /// The error rendered as one line, naming the benchmark and both groups.
    pub fn message(&self) -> (r: String)
        ensures
            r@ == "Duplicated benchmark name: runtime benchmark `"@ + self.benchmark@
                + "` defined both in `"@ + self.first_group@ + "` and in `"@ + self.second_group@
                + "`"@,
    {
        let mut r = String::from_str("Duplicated benchmark name: runtime benchmark `");
        r.append(self.benchmark.as_str());
        r.append("` defined both in `");
        r.append(self.first_group.as_str());
        r.append("` and in `");
        r.append(self.second_group.as_str());
        r.append("`");
        r
    }
}

/// The groups of the successful outcomes, in outcome order.
pub open spec fn ok_groups(outcomes: Seq<UnitOutcome>) -> Seq<BenchmarkGroup>
    decreases outcomes.len(),
{
    if outcomes.len() == 0 {
        Seq::empty()
    } else {
        let rest = ok_groups(outcomes.drop_last());
        match outcomes.last().result {
            Ok(g) => rest.push(g),
            Err(_) => rest,
        }
    }
}

/// The failed outcomes, each as the unit's name paired with its error text,
/// in outcome order.
pub open spec fn failures(outcomes: Seq<UnitOutcome>) -> Seq<(String, String)>
    decreases outcomes.len(),
{
    if outcomes.len() == 0 {
        Seq::empty()
    } else {
        let rest = failures(outcomes.drop_last());
        match outcomes.last().result {
            Ok(_) => rest,
            Err(e) => rest.push((outcomes.last().name, e)),
        }
    }
}

/// No benchmark name occurs at two different places across the groups.
pub open spec fn unique_names(groups: Seq<BenchmarkGroup>) -> bool {
    forall|i1: int, j1: int, i2: int, j2: int|
        (0 <= i1 < groups.len() && 0 <= j1 < group_names(groups[i1]).len() && 0 <= i2
            < groups.len() && 0 <= j2 < group_names(groups[i2]).len() && (i1 != i2 || j1 != j2))
            ==> #[trigger] group_names(groups[i1])[j1] != #[trigger] group_names(groups[i2])[j2]
}

/// The reported duplicate is real: the error's benchmark occurs at two
/// distinct places among the groups, and the error names their owning
/// groups.
pub open spec fn duplicate_witnessed(
    groups: Seq<BenchmarkGroup>,
    e: DuplicateBenchmarkError,
) -> bool {
    exists|i1: int, j1: int, i2: int, j2: int|
        {
            &&& 0 <= i1 < groups.len()
            &&& 0 <= i2 < groups.len()
            &&& 0 <= j1 < group_names(groups[i1]).len()
            &&& 0 <= j2 < group_names(groups[i2]).len()
            &&& (i1 != i2 || j1 != j2)
            &&& #[trigger] group_names(groups[i1])[j1] == e.benchmark@
            &&& #[trigger] group_names(groups[i2])[j2] == e.benchmark@
            &&& e.first_group == groups[i1].name
            &&& e.second_group == groups[i2].name
        }
}

/// The groups are ordered by artifact path.
pub open spec fn sorted_groups(s: Seq<BenchmarkGroup>) -> bool {
    forall|i: int, j: int|
        0 <= i < j < s.len() ==> lex_le(#[trigger] s[i].binary@, #[trigger] s[j].binary@)
}

/// Two positions that hold equal group values put that value twice into the
/// multiset.
proof fn lemma_two_positions_count(s: Seq<BenchmarkGroup>, i: int, j: int)
    requires
        0 <= i < j < s.len(),
        s[i] == s[j],
    ensures
        s.to_multiset().count(s[i]) >= 2,
{
    broadcast use vstd::seq_lib::group_to_multiset_ensures;

    let s0 = s.subrange(0, j);
    let s1 = s.subrange(j, s.len() as int);
    assert(s =~= s0 + s1);
    vstd::seq_lib::lemma_multiset_commutative(s0, s1);
    assert(s0.contains(s[i])) by {
        assert(s0[i] == s[i]);
    }
    assert(s1.contains(s[j])) by {
        assert(s1[0] == s[j]);
    }
    assert(s0.to_multiset().count(s[i]) > 0);
    assert(s1.to_multiset().count(s[j]) > 0);
}

/// A value counted twice in the multiset sits at two distinct positions.
proof fn lemma_count_two_positions(s: Seq<BenchmarkGroup>, x: BenchmarkGroup)
    requires
        s.to_multiset().count(x) >= 2,
    ensures
        exists|i: int, j: int| 0 <= i < j < s.len() && #[trigger] s[i] == x && #[trigger] s[j] == x,
{
    broadcast use vstd::seq_lib::group_to_multiset_ensures;
    broadcast use vstd::multiset::group_multiset_axioms;

    assert(s.contains(x));
    let i = choose|i: int| 0 <= i < s.len() && s[i] == x;
    assert(s.remove(i).to_multiset() == s.to_multiset().remove(s[i]));
    assert(s.remove(i).to_multiset().count(x) >= 1);
    assert(s.remove(i).contains(x));
    let k = choose|k: int| 0 <= k < s.remove(i).len() && s.remove(i)[k] == x;
    if k < i {
        assert(s[k] == x);
        assert(s[i] == x);
    } else {
        assert(s[k + 1] == x);
        assert(s[i] == x);
    }
}

/// A duplicated benchmark name survives any reordering of the groups.
proof fn lemma_dup_names_multiset(a: Seq<BenchmarkGroup>, b: Seq<BenchmarkGroup>)
    requires
        a.to_multiset() == b.to_multiset(),
        !unique_names(a),
    ensures
        !unique_names(b),
{
    broadcast use vstd::seq_lib::group_to_multiset_ensures;

    let (i1, j1, i2, j2) = choose|i1: int, j1: int, i2: int, j2: int|
        0 <= i1 < a.len() && 0 <= j1 < group_names(a[i1]).len() && 0 <= i2 < a.len() && 0 <= j2
            < group_names(a[i2]).len() && (i1 != i2 || j1 != j2) && #[trigger] group_names(
            a[i1],
        )[j1] == #[trigger] group_names(a[i2])[j2];
    if i1 == i2 {
        assert(a.contains(a[i1])) by {
            assert(a[i1] == a[i1]);
        }
        assert(b.to_multiset().count(a[i1]) > 0);
        assert(b.contains(a[i1]));
        let k = choose|k: int| 0 <= k < b.len() && b[k] == a[i1];
        assert(group_names(b[k])[j1] == group_names(b[k])[j2]);
        assert(!unique_names(b)) by {
            if unique_names(b) {
                assert(group_names(b[k])[j1] != group_names(b[k])[j2]);
            }
        }
    } else if a[i1] == a[i2] {
        let lo = if i1 < i2 {
            i1
        } else {
            i2
        };
        let hi = if i1 < i2 {
            i2
        } else {
            i1
        };
        lemma_two_positions_count(a, lo, hi);
        assert(b.to_multiset().count(a[i1]) >= 2);
        lemma_count_two_positions(b, a[i1]);
        let (k1, k2) = choose|k1: int, k2: int|
            0 <= k1 < k2 < b.len() && #[trigger] b[k1] == a[i1] && #[trigger] b[k2] == a[i1];
        assert(group_names(b[k1])[j1] == group_names(b[k2])[j2]);
        assert(!unique_names(b)) by {
            if unique_names(b) {
                assert(group_names(b[k1])[j1] != group_names(b[k2])[j2]);
            }
        }
    } else {
        assert(a.contains(a[i1])) by {
            assert(a[i1] == a[i1]);
        }
        assert(a.contains(a[i2])) by {
            assert(a[i2] == a[i2]);
        }
        assert(b.to_multiset().count(a[i1]) > 0);
        assert(b.to_multiset().count(a[i2]) > 0);
        assert(b.contains(a[i1]));
        assert(b.contains(a[i2]));
        let k1 = choose|k: int| 0 <= k < b.len() && b[k] == a[i1];
        let k2 = choose|k: int| 0 <= k < b.len() && b[k] == a[i2];
        assert(k1 != k2);
        assert(group_names(b[k1])[j1] == group_names(b[k2])[j2]);
        assert(!unique_names(b)) by {
            if unique_names(b) {
                assert(group_names(b[k1])[j1] != group_names(b[k2])[j2]);
            }
        }
    }
}

/// Global uniqueness of benchmark names depends only on which groups are
/// present, not on their order.
pub proof fn lemma_unique_names_permutation(a: Seq<BenchmarkGroup>, b: Seq<BenchmarkGroup>)
    requires
        a.to_multiset() == b.to_multiset(),
    ensures
        unique_names(a) <==> unique_names(b),
{
    if !unique_names(a) {
        lemma_dup_names_multiset(a, b);
    }
    if !unique_names(b) {
        lemma_dup_names_multiset(b, a);
    }
}

/// A witnessed duplicate survives any reordering of the groups.
proof fn lemma_duplicate_witness_transfer(
    a: Seq<BenchmarkGroup>,
    b: Seq<BenchmarkGroup>,
    e: DuplicateBenchmarkError,
)
    requires
        a.to_multiset() == b.to_multiset(),
        duplicate_witnessed(a, e),
    ensures
        duplicate_witnessed(b, e),
{
    broadcast use vstd::seq_lib::group_to_multiset_ensures;

    let (i1, j1, i2, j2) = choose|i1: int, j1: int, i2: int, j2: int|
        {
            &&& 0 <= i1 < a.len()
            &&& 0 <= i2 < a.len()
            &&& 0 <= j1 < group_names(a[i1]).len()
            &&& 0 <= j2 < group_names(a[i2]).len()
            &&& (i1 != i2 || j1 != j2)
            &&& #[trigger] group_names(a[i1])[j1] == e.benchmark@
            &&& #[trigger] group_names(a[i2])[j2] == e.benchmark@
            &&& e.first_group == a[i1].name
            &&& e.second_group == a[i2].name
        };
    if i1 == i2 {
        assert(a.contains(a[i1])) by {
            assert(a[i1] == a[i1]);
        }
        assert(b.to_multiset().count(a[i1]) > 0);
        assert(b.contains(a[i1]));
        let k = choose|k: int| 0 <= k < b.len() && b[k] == a[i1];
        assert(group_names(b[k])[j1] == e.benchmark@);
        assert(group_names(b[k])[j2] == e.benchmark@);
        assert(e.first_group == b[k].name);
        assert(e.second_group == b[k].name);
    } else if a[i1] == a[i2] {
        let lo = if i1 < i2 {
            i1
        } else {
            i2
        };
        let hi = if i1 < i2 {
            i2
        } else {
            i1
        };
        lemma_two_positions_count(a, lo, hi);
        assert(b.to_multiset().count(a[i1]) >= 2);
        lemma_count_two_positions(b, a[i1]);
        let (k1, k2) = choose|k1: int, k2: int|
            0 <= k1 < k2 < b.len() && #[trigger] b[k1] == a[i1] && #[trigger] b[k2] == a[i1];
        assert(group_names(b[k1])[j1] == e.benchmark@);
        assert(group_names(b[k2])[j2] == e.benchmark@);
        assert(e.first_group == b[k1].name);
        assert(e.second_group == b[k2].name);
    } else {
        assert(a.contains(a[i1])) by {
            assert(a[i1] == a[i1]);
        }
        assert(a.contains(a[i2])) by {
            assert(a[i2] == a[i2]);
        }
        assert(b.to_multiset().count(a[i1]) > 0);
        assert(b.to_multiset().count(a[i2]) > 0);
        assert(b.contains(a[i1]));
        assert(b.contains(a[i2]));
        let k1 = choose|k: int| 0 <= k < b.len() && b[k] == a[i1];
        let k2 = choose|k: int| 0 <= k < b.len() && b[k] == a[i2];
        assert(k1 != k2);
        assert(group_names(b[k1])[j1] == e.benchmark@);
        assert(group_names(b[k2])[j2] == e.benchmark@);
        assert(e.first_group == b[k1].name);
        assert(e.second_group == b[k2].name);
    }
}

/// Sorts groups by artifact path; the contents are preserved as a multiset.
fn sort_groups_by_binary(v: &mut Vec<BenchmarkGroup>)
    ensures
        final(v)@.to_multiset() == old(v)@.to_multiset(),
        sorted_groups(final(v)@),
{
    let mut i: usize = 1;
    if v.len() <= 1 {
        return ;
    }
    while i < v.len()
        invariant
            1 <= i <= v@.len(),
            v@.len() == old(v)@.len(),
            v@.to_multiset() == old(v)@.to_multiset(),
            sorted_groups(v@.take(i as int)),
        decreases v@.len() - i,
    {
        let ghost before = v@;
        let x = v.remove(i);
        let ghost mid = v@;
        let mut j: usize = 0;
        while j < i && str_le(v[j].binary.as_str(), x.binary.as_str())
            invariant
                0 <= j <= i,
                i < before.len(),
                v@ == mid,
                mid == before.remove(i as int),
                x == before[i as int],
                forall|k: int| 0 <= k < j ==> lex_le(#[trigger] mid[k].binary@, x.binary@),
            decreases i - j,
        {
            j = j + 1;
        }
        proof {
            if j < i {
                lemma_lex_le_total(x.binary@, mid[j as int].binary@);
                assert(lex_le(x.binary@, mid[j as int].binary@));
            }
            assert forall|k: int| j <= k < i implies lex_le(x.binary@, #[trigger] mid[k].binary@) by {
                assert(mid[k] == before[k]);
                if k > j {
                    assert(mid[j as int] == before[j as int]);
                    assert(lex_le(mid[j as int].binary@, mid[k].binary@));
                    lemma_lex_le_trans(x.binary@, mid[j as int].binary@, mid[k].binary@);
                }
            }
        }
        v.insert(j, x);
        proof {
            assert(v@ == mid.insert(j as int, x));
            assert(v@.to_multiset() == old(v)@.to_multiset()) by {
                broadcast use vstd::multiset::group_multiset_axioms;
                broadcast use vstd::seq_lib::group_to_multiset_ensures;

                assert(mid == before.remove(i as int));
                assert(before.remove(i as int).to_multiset() == before.to_multiset().remove(
                    before[i as int],
                ));
                assert(mid.insert(j as int, x).to_multiset() == mid.to_multiset().insert(x));
                assert(before.contains(x)) by {
                    assert(before[i as int] == x);
                }
                assert(before.to_multiset().count(x) > 0);
                assert(v@.to_multiset() =~= before.to_multiset());
            }
            assert forall|a: int, b: int| 0 <= a < b < i + 1 implies lex_le(
                #[trigger] v@.take(i + 1)[a].binary@,
                #[trigger] v@.take(i + 1)[b].binary@,
            ) by {
                assert(forall|k: int| 0 <= k < j ==> v@[k] == mid[k]);
                assert(v@[j as int] == x);
                assert(forall|k: int| j < k <= i ==> v@[k] == mid[k - 1]);
                assert(forall|k: int| 0 <= k < i ==> mid[k] == before[k]);
                assert(forall|k1: int, k2: int|
                    0 <= k1 < k2 < i ==> lex_le(
                        #[trigger] before[k1].binary@,
                        #[trigger] before[k2].binary@,
                    ));
            }
        }
        i = i + 1;
    }
    proof {
        assert(v@.take(v@.len() as int) =~= v@);
    }
}

/// A position strictly earlier than the bound, in group-then-name order.
pub open spec fn pos_before(i1: int, j1: int, bi: int, bj: int) -> bool {
    i1 < bi || (i1 == bi && j1 < bj)
}

spec fn name_in_seen(seen: Seq<(String, String)>, n: Seq<char>) -> bool {
    exists|k: int| 0 <= k < seen.len() && #[trigger] seen[k].0@ == n
}

spec fn entry_witnessed(
    groups: Seq<BenchmarkGroup>,
    bi: int,
    bj: int,
    entry: (String, String),
) -> bool {
    exists|i1: int, j1: int|
        0 <= i1 < groups.len() && 0 <= j1 < group_names(groups[i1]).len() && pos_before(
            i1,
            j1,
            bi,
            bj,
        ) && #[trigger] group_names(groups[i1])[j1] == entry.0@ && groups[i1].name == entry.1
}

spec fn prefix_unique(groups: Seq<BenchmarkGroup>, bi: int, bj: int) -> bool {
    forall|i1: int, j1: int, i2: int, j2: int|
        (0 <= i1 < groups.len() && 0 <= j1 < group_names(groups[i1]).len() && 0 <= i2
            < groups.len() && 0 <= j2 < group_names(groups[i2]).len() && pos_before(i1, j1, bi, bj)
            && pos_before(i2, j2, bi, bj) && (i1 != i2 || j1 != j2)) ==> #[trigger] group_names(
            groups[i1],
        )[j1] != #[trigger] group_names(groups[i2])[j2]
}

spec fn prefix_complete(
    groups: Seq<BenchmarkGroup>,
    bi: int,
    bj: int,
    seen: Seq<(String, String)>,
) -> bool {
    forall|i1: int, j1: int|
        (0 <= i1 < groups.len() && 0 <= j1 < group_names(groups[i1]).len() && pos_before(
            i1,
            j1,
            bi,
            bj,
        )) ==> name_in_seen(seen, #[trigger] group_names(groups[i1])[j1])
}

fn find_in_seen(seen: &Vec<(String, String)>, name: &str) -> (r: Option<usize>)
    ensures
        match r {
            Some(k) => k < seen@.len() && seen@[k as int].0@ == name@,
            None => forall|k: int| 0 <= k < seen@.len() ==> #[trigger] seen@[k].0@ != name@,
        },
{
    let mut k: usize = 0;
    while k < seen.len()
        invariant
            0 <= k <= seen@.len(),
            forall|m: int| 0 <= m < k ==> #[trigger] seen@[m].0@ != name@,
        decreases seen@.len() - k,
    {
        if str_eq(seen[k].0.as_str(), name) {
            return Some(k);
        }
        k = k + 1;
    }
    None
}

/// Checks that no benchmark name is reported by two groups (nor twice by
/// one); on a duplicate, the error names the benchmark and the two owning
/// groups, in scan order.
pub fn check_duplicates(groups: &[BenchmarkGroup]) -> (r: Result<(), DuplicateBenchmarkError>)
    ensures
        r is Ok <==> unique_names(groups@),
        r matches Err(e) ==> exists|i1: int, j1: int, i2: int, j2: int|
            {
                &&& 0 <= i1 <= i2 < groups@.len()
                &&& 0 <= j1 < group_names(groups@[i1]).len()
                &&& 0 <= j2 < group_names(groups@[i2]).len()
                &&& (i1 != i2 || j1 != j2)
                &&& #[trigger] group_names(groups@[i1])[j1] == e.benchmark@
                &&& #[trigger] group_names(groups@[i2])[j2] == e.benchmark@
                &&& e.first_group == groups@[i1].name
                &&& e.second_group == groups@[i2].name
            },
{
    let ghost gseq = groups@;
    let mut seen: Vec<(String, String)> = Vec::new();
    let mut i: usize = 0;
    while i < groups.len()
        invariant
            gseq == groups@,
            0 <= i <= gseq.len(),
            prefix_unique(gseq, i as int, 0),
            prefix_complete(gseq, i as int, 0, seen@),
            forall|k: int|
                0 <= k < seen@.len() ==> entry_witnessed(gseq, i as int, 0, #[trigger] seen@[k]),
        decreases gseq.len() - i,
    {
        let names = &groups[i].benchmark_names;
        let mut j: usize = 0;
        while j < names.len()
            invariant
                gseq == groups@,
                0 <= i < gseq.len(),
                names == &gseq[i as int].benchmark_names,
                0 <= j <= names@.len(),
                prefix_unique(gseq, i as int, j as int),
                prefix_complete(gseq, i as int, j as int, seen@),
                forall|k: int|
                    0 <= k < seen@.len() ==> entry_witnessed(
                        gseq,
                        i as int,
                        j as int,
                        #[trigger] seen@[k],
                    ),
            decreases names@.len() - j,
        {
            let name = &names[j];
            match find_in_seen(&seen, name.as_str()) {
                Some(k) => {
                    let e = DuplicateBenchmarkError {
                        benchmark: name.clone(),
                        first_group: seen[k].1.clone(),
                        second_group: groups[i].name.clone(),
                    };
                    proof {
                        let entry = seen@[k as int];
                        assert(entry_witnessed(gseq, i as int, j as int, entry));
                        let (i1, j1) = choose|i1: int, j1: int|
                            0 <= i1 < gseq.len() && 0 <= j1 < group_names(gseq[i1]).len()
                                && pos_before(i1, j1, i as int, j as int)
                                && #[trigger] group_names(gseq[i1])[j1] == entry.0@
                                && gseq[i1].name == entry.1;
                        assert(group_names(gseq[i1])[j1] == name@);
                        assert(group_names(gseq[i as int])[j as int] == name@);
                        assert(group_names(gseq[i1])[j1] == e.benchmark@);
                        assert(group_names(gseq[i as int])[j as int] == e.benchmark@);
                        assert(e.first_group == gseq[i1].name);
                        assert(e.second_group == gseq[i as int].name);
                        assert(i1 != i as int || j1 != j as int);
                        assert(!unique_names(gseq)) by {
                            if unique_names(gseq) {
                                assert(group_names(gseq[i1])[j1] != group_names(
                                    gseq[i as int],
                                )[j as int]);
                            }
                        }
                        assert(i1 <= i as int);
                    }
                    return Err(e);
                },
                None => {
                    let ghost seen0 = seen@;
                    seen.push((name.clone(), groups[i].name.clone()));
                    proof {
                        let n = group_names(gseq[i as int])[j as int];
                        assert(seen@.last().0@ == n);
                        assert(seen@.last().1 == gseq[i as int].name);
                        assert(entry_witnessed(gseq, i as int, j + 1, seen@.last()));
                        assert forall|k: int|
                            0 <= k < seen@.len() implies entry_witnessed(
                            gseq,
                            i as int,
                            j + 1,
                            #[trigger] seen@[k],
                        ) by {
                            if k < seen@.len() - 1 {
                                assert(seen@[k] == seen0[k]);
                                assert(entry_witnessed(gseq, i as int, j as int, seen0[k]));
                                let (i1, j1) = choose|i1: int, j1: int|
                                    0 <= i1 < gseq.len() && 0 <= j1 < group_names(gseq[i1]).len()
                                        && pos_before(i1, j1, i as int, j as int)
                                        && #[trigger] group_names(gseq[i1])[j1] == seen@[k].0@
                                        && gseq[i1].name == seen@[k].1;
                                assert(pos_before(i1, j1, i as int, j + 1));
                            }
                        }
                        assert forall|i1: int, j1: int|
                            (0 <= i1 < gseq.len() && 0 <= j1 < group_names(gseq[i1]).len()
                                && pos_before(i1, j1, i as int, j + 1)) implies name_in_seen(
                            seen@,
                            #[trigger] group_names(gseq[i1])[j1],
                        ) by {
                            if pos_before(i1, j1, i as int, j as int) {
                                assert(name_in_seen(seen0, group_names(gseq[i1])[j1]));
                                let k = choose|k: int|
                                    0 <= k < seen0.len() && #[trigger] seen0[k].0@ == group_names(
                                        gseq[i1],
                                    )[j1];
                                assert(seen@[k].0@ == group_names(gseq[i1])[j1]);
                            } else {
                                assert(i1 == i as int && j1 == j as int);
                                assert(seen@[seen@.len() - 1].0@ == n);
                            }
                        }
                        assert forall|i1: int, j1: int, i2: int, j2: int|
                            (0 <= i1 < gseq.len() && 0 <= j1 < group_names(gseq[i1]).len() && 0
                                <= i2 < gseq.len() && 0 <= j2 < group_names(gseq[i2]).len()
                                && pos_before(i1, j1, i as int, j + 1) && pos_before(
                                i2,
                                j2,
                                i as int,
                                j + 1,
                            ) && (i1 != i2 || j1 != j2)) implies #[trigger] group_names(
                            gseq[i1],
                        )[j1] != #[trigger] group_names(gseq[i2])[j2] by {
                            if pos_before(i1, j1, i as int, j as int) && pos_before(
                                i2,
                                j2,
                                i as int,
                                j as int,
                            ) {
                            } else if pos_before(i1, j1, i as int, j as int) && !pos_before(
                                i2,
                                j2,
                                i as int,
                                j as int,
                            ) {
                                assert(i2 == i as int && j2 == j as int);
                                if group_names(gseq[i1])[j1] == group_names(gseq[i2])[j2] {
                                    assert(name_in_seen(seen0, n));
                                    let k = choose|k: int|
                                        0 <= k < seen0.len() && #[trigger] seen0[k].0@ == n;
                                    assert(seen0[k].0@ != name@);
                                }
                            } else if !pos_before(i1, j1, i as int, j as int) && pos_before(
                                i2,
                                j2,
                                i as int,
                                j as int,
                            ) {
                                assert(i1 == i as int && j1 == j as int);
                                if group_names(gseq[i1])[j1] == group_names(gseq[i2])[j2] {
                                    assert(name_in_seen(seen0, n));
                                    let k = choose|k: int|
                                        0 <= k < seen0.len() && #[trigger] seen0[k].0@ == n;
                                    assert(seen0[k].0@ != name@);
                                }
                            } else {
                                assert(i1 == i as int && j1 == j as int);
                                assert(i2 == i as int && j2 == j as int);
                            }
                        }
                    }
                },
            }
            j = j + 1;
        }
        proof {
            assert forall|k: int|
                0 <= k < seen@.len() implies entry_witnessed(
                gseq,
                i + 1,
                0,
                #[trigger] seen@[k],
            ) by {
                assert(entry_witnessed(gseq, i as int, names@.len() as int, seen@[k]));
                let (i1, j1) = choose|i1: int, j1: int|
                    0 <= i1 < gseq.len() && 0 <= j1 < group_names(gseq[i1]).len()
                        && pos_before(i1, j1, i as int, names@.len() as int)
                        && #[trigger] group_names(gseq[i1])[j1] == seen@[k].0@
                        && gseq[i1].name == seen@[k].1;
                assert(pos_before(i1, j1, i + 1, 0));
            }
            assert forall|i1: int, j1: int|
                (0 <= i1 < gseq.len() && 0 <= j1 < group_names(gseq[i1]).len() && pos_before(
                    i1,
                    j1,
                    i + 1,
                    0,
                )) implies name_in_seen(seen@, #[trigger] group_names(gseq[i1])[j1]) by {
                assert(pos_before(i1, j1, i as int, names@.len() as int));
            }
            assert(prefix_unique(gseq, i + 1, 0)) by {
                assert forall|i1: int, j1: int, i2: int, j2: int|
                    (0 <= i1 < gseq.len() && 0 <= j1 < group_names(gseq[i1]).len() && 0 <= i2
                        < gseq.len() && 0 <= j2 < group_names(gseq[i2]).len() && pos_before(
                        i1,
                        j1,
                        i + 1,
                        0,
                    ) && pos_before(i2, j2, i + 1, 0) && (i1 != i2 || j1 != j2))
                        implies #[trigger] group_names(gseq[i1])[j1] != #[trigger] group_names(
                    gseq[i2],
                )[j2] by {
                    assert(pos_before(i1, j1, i as int, names@.len() as int));
                    assert(pos_before(i2, j2, i as int, names@.len() as int));
                }
            }
        }
        i = i + 1;
    }
    proof {
        assert(unique_names(gseq)) by {
            assert forall|i1: int, j1: int, i2: int, j2: int|
                (0 <= i1 < gseq.len() && 0 <= j1 < group_names(gseq[i1]).len() && 0 <= i2
                    < gseq.len() && 0 <= j2 < group_names(gseq[i2]).len() && (i1 != i2 || j1 != j2))
                    implies #[trigger] group_names(gseq[i1])[j1] != #[trigger] group_names(
                gseq[i2],
            )[j2] by {
                assert(pos_before(i1, j1, gseq.len() as int, 0));
                assert(pos_before(i2, j2, gseq.len() as int, 0));
            }
        }
    }
    Ok(())
}

/// Folds the per-unit outcomes into a `SuiteCompilation`: built groups are
/// collected and ordered by artifact path, failures are recorded by unit
/// name, and the whole assembly fails exactly when two groups (or one group
/// twice) report the same benchmark name; the error then names that
/// benchmark and the two owning groups. One unit's failure never disturbs
/// the others: whenever the successful groups' benchmark names are globally
/// unique — as any extractable suite requires — the assembly succeeds, the
/// failure list is exactly the failed outcomes in order, each keyed by its
/// unit's name, and the suite holds exactly the successful groups.
pub fn assemble_suite(
    toolchain: Toolchain,
    outcomes: Vec<UnitOutcome>,
    tmp_artifacts_dir: Option<tempfile::TempDir>,
) -> (r: Result<BenchmarkSuiteCompilation, DuplicateBenchmarkError>)
    ensures
        r matches Ok(c) ==> {
            &&& c.suite.toolchain == toolchain
            &&& c.suite.groups@.to_multiset() == ok_groups(outcomes@).to_multiset()
            &&& sorted_groups(c.suite.groups@)
            &&& unique_names(c.suite.groups@)
            &&& unique_names(ok_groups(outcomes@))
            &&& c.failed_to_compile@ == failures(outcomes@)
            &&& c.suite.tmp_artifacts_dir == tmp_artifacts_dir
        },
        (r is Err) <==> !unique_names(ok_groups(outcomes@)),
        r matches Err(e) ==> duplicate_witnessed(ok_groups(outcomes@), e),
{
    broadcast use vstd::seq_lib::group_to_multiset_ensures;

    let ghost orig = outcomes@;
    let mut rest = outcomes;
    let mut groups: Vec<BenchmarkGroup> = Vec::new();
    let mut failed: Vec<(String, String)> = Vec::new();
    let ghost done: int = 0;
    while rest.len() > 0
        invariant
            0 <= done <= orig.len(),
            rest@ =~= orig.skip(done),
            groups@ == ok_groups(orig.take(done)),
            failed@ == failures(orig.take(done)),
        decreases rest.len(),
    {
        let oc = rest.remove(0);
        proof {
            assert(oc == orig[done]);
            assert(rest@ =~= orig.skip(done + 1));
            assert(orig.take(done + 1).drop_last() =~= orig.take(done));
            assert(orig.take(done + 1).last() == orig[done]);
        }
        match oc.result {
            Ok(g) => {
                groups.push(g);
            },
            Err(e) => {
                failed.push((oc.name, e));
            },
        }
        proof {
            assert(groups@ =~= ok_groups(orig.take(done + 1)));
            assert(failed@ =~= failures(orig.take(done + 1)));
            done = done + 1;
        }
    }
    proof {
        assert(orig.take(done) =~= orig);
    }
    let ghost unsorted = groups@;
    sort_groups_by_binary(&mut groups);
    match check_duplicates(groups.as_slice()) {
        Err(e) => {
            proof {
                assert(!unique_names(groups@));
                lemma_unique_names_permutation(groups@, ok_groups(outcomes@));
                let (i1, j1, i2, j2) = choose|i1: int, j1: int, i2: int, j2: int|
                    {
                        &&& 0 <= i1 <= i2 < groups@.len()
                        &&& 0 <= j1 < group_names(groups@[i1]).len()
                        &&& 0 <= j2 < group_names(groups@[i2]).len()
                        &&& (i1 != i2 || j1 != j2)
                        &&& #[trigger] group_names(groups@[i1])[j1] == e.benchmark@
                        &&& #[trigger] group_names(groups@[i2])[j2] == e.benchmark@
                        &&& e.first_group == groups@[i1].name
                        &&& e.second_group == groups@[i2].name
                    };
                assert(duplicate_witnessed(groups@, e));
                lemma_duplicate_witness_transfer(groups@, ok_groups(outcomes@), e);
            }
            Err(e)
        },
        Ok(()) => {
            proof {
                assert(unique_names(groups@));
                lemma_unique_names_permutation(groups@, ok_groups(outcomes@));
            }
            Ok(
                BenchmarkSuiteCompilation {
                    suite: BenchmarkSuite { toolchain, groups, tmp_artifacts_dir },
                    failed_to_compile: failed,
                },
            )
        },
    }
}

} // verus!
