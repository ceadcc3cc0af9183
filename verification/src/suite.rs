//! The suite data model: groups of benchmarks produced by successful builds,
//! the suite that owns them, and the transient compilation result that pairs a
//! suite with the units that failed to build.
use crate::filter::opt_view;
use crate::filter::spec_passes_filter;
use crate::filter::BenchmarkFilter;
use crate::strutil::contains_sub;
use crate::strutil::lemma_contains_sub_extend;
use crate::strutil::lemma_contains_sub_prepend;
use crate::strutil::lemma_contains_sub_suffix;
use crate::strutil::str_eq;
use vstd::prelude::*;

verus! {

/// Relied on for ownership only: `tempfile::TempDir` deletes its directory
/// when dropped, so a suite holding one keeps the compiled artifacts alive
/// exactly as long as the suite itself. The library never inspects the value.
#[verifier::external_type_specification]
#[verifier::external_body]
pub struct ExTempDir(tempfile::TempDir);

/// The toolchain a suite is built with: an identifier and the paths to its
/// build-driver and compiler-driver binaries.
#[derive(Debug)]
pub struct Toolchain {
    pub id: String,
    pub cargo: String,
    pub rustc: String,
}

/// A successfully built unit: one executable that defines several benchmarks.
#[derive(Debug)]
pub struct BenchmarkGroup {
    pub binary: String,
    pub name: String,
    pub benchmark_names: Vec<String>,
}

/// The benchmark names of one group, as sequences of characters.
pub open spec fn group_names(g: BenchmarkGroup) -> Seq<Seq<char>> {
    g.benchmark_names.deep_view()
}

/// Whether a group reports the benchmark name `n`.
pub open spec fn group_contains_name(g: BenchmarkGroup, n: Seq<char>) -> bool {
    exists|i: int| 0 <= i < group_names(g).len() && #[trigger] group_names(g)[i] == n
}

/// Whether a group has at least one benchmark kept by the patterns.
pub open spec fn group_matches(
    g: BenchmarkGroup,
    exclude: Option<Seq<char>>,
    included: Option<Seq<char>>,
) -> bool {
    exists|i: int|
        0 <= i < group_names(g).len() && spec_passes_filter(
            #[trigger] group_names(g)[i],
            exclude,
            included,
        )
}

/// The groups that have at least one benchmark kept by the patterns, in order.
pub open spec fn kept_groups(
    groups: Seq<BenchmarkGroup>,
    exclude: Option<Seq<char>>,
    included: Option<Seq<char>>,
) -> Seq<BenchmarkGroup>
    decreases groups.len(),
{
    if groups.len() == 0 {
        Seq::empty()
    } else {
        let rest = kept_groups(groups.drop_last(), exclude, included);
        if group_matches(groups.last(), exclude, included) {
            rest.push(groups.last())
        } else {
            rest
        }
    }
}

/// How many of the names are kept by the patterns.
pub open spec fn count_matching(
    names: Seq<Seq<char>>,
    exclude: Option<Seq<char>>,
    included: Option<Seq<char>>,
) -> nat
    decreases names.len(),
{
    if names.len() == 0 {
        0
    } else {
        count_matching(names.drop_last(), exclude, included) + (if spec_passes_filter(
            names.last(),
            exclude,
            included,
        ) {
            1nat
        } else {
            0nat
        })
    }
}

/// How many benchmark names across all groups are kept by the patterns.
pub open spec fn suite_match_count(
    groups: Seq<BenchmarkGroup>,
    exclude: Option<Seq<char>>,
    included: Option<Seq<char>>,
) -> nat
    decreases groups.len(),
{
    if groups.len() == 0 {
        0
    } else {
        suite_match_count(groups.drop_last(), exclude, included) + count_matching(
            group_names(groups.last()),
            exclude,
            included,
        )
    }
}

/// All benchmark names of the suite, in group order and within a group in
/// reported order.
pub open spec fn all_names(groups: Seq<BenchmarkGroup>) -> Seq<Seq<char>>
    decreases groups.len(),
{
    if groups.len() == 0 {
        Seq::empty()
    } else {
        all_names(groups.drop_last()) + group_names(groups.last())
    }
}

/// A collection of benchmark groups built from one directory with one
/// toolchain.
#[derive(Debug)]
pub struct BenchmarkSuite {
    /// Toolchain used to compile this suite.
    pub toolchain: Toolchain,
    pub groups: Vec<BenchmarkGroup>,
    /// Holds onto the temporary directory that contains the compiled
    /// binaries, only so that it is not deleted before the suite is done
    /// with; nothing ever reads it.
    pub tmp_artifacts_dir: Option<tempfile::TempDir>,
}

impl BenchmarkGroup {
    /// Whether this group reports the benchmark named `name`.
    pub fn contains_benchmark(&self, name: &str) -> (r: bool)
        ensures
            r == group_contains_name(*self, name@),
    {
        let mut i: usize = 0;
        while i < self.benchmark_names.len()
            invariant
                0 <= i <= self.benchmark_names.len(),
                forall|j: int| 0 <= j < i ==> #[trigger] group_names(*self)[j] != name@,
            decreases self.benchmark_names.len() - i,
        {
            if str_eq(self.benchmark_names[i].as_str(), name) {
                assert(group_names(*self)[i as int] == name@);
                return true;
            }
            i = i + 1;
        }
        false
    }

    /// Whether this group has at least one benchmark kept by the filter.
    pub fn matches_filter(&self, filter: &BenchmarkFilter) -> (r: bool)
        ensures
            r == group_matches(*self, opt_view(filter.exclude), opt_view(filter.included)),
    {
        let ghost ex = opt_view(filter.exclude);
        let ghost inc = opt_view(filter.included);
        let mut i: usize = 0;
        while i < self.benchmark_names.len()
            invariant
                0 <= i <= self.benchmark_names.len(),
                ex == opt_view(filter.exclude),
                inc == opt_view(filter.included),
                forall|j: int|
                    0 <= j < i ==> !spec_passes_filter(#[trigger] group_names(*self)[j], ex, inc),
            decreases self.benchmark_names.len() - i,
        {
            if filter.passes(self.benchmark_names[i].as_str()) {
                assert(spec_passes_filter(group_names(*self)[i as int], ex, inc));
                return true;
            }
            i = i + 1;
        }
        false
    }

    /// How many of this group's benchmarks are kept by the filter.
    pub fn matching_count(&self, filter: &BenchmarkFilter) -> (c: usize)
        ensures
            c == count_matching(
                group_names(*self),
                opt_view(filter.exclude),
                opt_view(filter.included),
            ),
    {
        let ghost ex = opt_view(filter.exclude);
        let ghost inc = opt_view(filter.included);
        let mut c: usize = 0;
        let mut i: usize = 0;
        while i < self.benchmark_names.len()
            invariant
                0 <= i <= self.benchmark_names.len(),
                c <= i,
                ex == opt_view(filter.exclude),
                inc == opt_view(filter.included),
                c == count_matching(group_names(*self).take(i as int), ex, inc),
            decreases self.benchmark_names.len() - i,
        {
            proof {
                assert(group_names(*self).take(i + 1).drop_last() =~= group_names(*self).take(
                    i as int,
                ));
                assert(group_names(*self).take(i + 1).last() == group_names(*self)[i as int]);
            }
            if filter.passes(self.benchmark_names[i].as_str()) {
                c = c + 1;
            }
            i = i + 1;
        }
        proof {
            assert(group_names(*self).take(self.benchmark_names.len() as int) =~= group_names(
                *self,
            ));
        }
        c
    }
}

proof fn lemma_suite_count_take(
    groups: Seq<BenchmarkGroup>,
    exclude: Option<Seq<char>>,
    included: Option<Seq<char>>,
    i: int,
)
    requires
        0 <= i <= groups.len(),
    ensures
        suite_match_count(groups.take(i), exclude, included) <= suite_match_count(
            groups,
            exclude,
            included,
        ),
    decreases groups.len() - i,
{
    if i < groups.len() {
        assert(groups.take(i + 1).drop_last() =~= groups.take(i));
        assert(groups.take(i + 1).last() == groups[i]);
        lemma_suite_count_take(groups, exclude, included, i + 1);
    } else {
        assert(groups.take(i) =~= groups);
    }
}

impl BenchmarkSuite {
    /// Returns a new suite containing only the groups that contain at least a
    /// single benchmark that matches the filter; a kept group is kept whole.
    /// The toolchain and the ownership of the temporary artifact directory
    /// carry over.
    pub fn filter(self, filter: &BenchmarkFilter) -> (r: Self)
        ensures
            r.toolchain == self.toolchain,
            r.groups@ == kept_groups(
                self.groups@,
                opt_view(filter.exclude),
                opt_view(filter.included),
            ),
            r.tmp_artifacts_dir == self.tmp_artifacts_dir,
    {
        let ghost ex = opt_view(filter.exclude);
        let ghost inc = opt_view(filter.included);
        let BenchmarkSuite { toolchain, groups, tmp_artifacts_dir } = self;
        let ghost orig = groups@;
        let mut rest = groups;
        let mut kept: Vec<BenchmarkGroup> = Vec::new();
        let ghost done: int = 0;
        while rest.len() > 0
            invariant
                0 <= done <= orig.len(),
                rest@ =~= orig.skip(done),
                ex == opt_view(filter.exclude),
                inc == opt_view(filter.included),
                kept@ == kept_groups(orig.take(done), ex, inc),
            decreases rest.len(),
        {
            let g = rest.remove(0);
            proof {
                assert(g == orig[done]);
                assert(rest@ =~= orig.skip(done + 1));
                assert(orig.take(done + 1).drop_last() =~= orig.take(done));
                assert(orig.take(done + 1).last() == orig[done]);
            }
            if g.matches_filter(filter) {
                kept.push(g);
            }
            proof {
                done = done + 1;
            }
        }
        proof {
            assert(orig.take(done) =~= orig);
        }
        BenchmarkSuite { toolchain, groups: kept, tmp_artifacts_dir }
    }

    /// How many benchmark names across the whole suite match the filter.
    pub fn filtered_benchmark_count(&self, filter: &BenchmarkFilter) -> (r: u64)
        requires
            suite_match_count(
                self.groups@,
                opt_view(filter.exclude),
                opt_view(filter.included),
            ) <= u64::MAX,
        ensures
            r == suite_match_count(
                self.groups@,
                opt_view(filter.exclude),
                opt_view(filter.included),
            ),
    {
        let ghost ex = opt_view(filter.exclude);
        let ghost inc = opt_view(filter.included);
        let mut total: u64 = 0;
        let mut i: usize = 0;
        while i < self.groups.len()
            invariant
                0 <= i <= self.groups.len(),
                ex == opt_view(filter.exclude),
                inc == opt_view(filter.included),
                suite_match_count(self.groups@, ex, inc) <= u64::MAX,
                total == suite_match_count(self.groups@.take(i as int), ex, inc),
            decreases self.groups.len() - i,
        {
            proof {
                assert(self.groups@.take(i + 1).drop_last() =~= self.groups@.take(i as int));
                assert(self.groups@.take(i + 1).last() == self.groups@[i as int]);
                lemma_suite_count_take(self.groups@, ex, inc, i + 1);
            }
            let c = self.groups[i].matching_count(filter);
            total = total + (c as u64);
            i = i + 1;
        }
        proof {
            assert(self.groups@.take(self.groups.len() as int) =~= self.groups@);
        }
        total
    }

    /// All benchmark names in the suite, in group order and within a group in
    /// reported order.
    pub fn benchmark_names(&self) -> (r: Vec<String>)
        ensures
            r.deep_view() == all_names(self.groups@),
    {
        let mut out: Vec<String> = Vec::new();
        let mut i: usize = 0;
        while i < self.groups.len()
            invariant
                0 <= i <= self.groups.len(),
                out.deep_view() == all_names(self.groups@.take(i as int)),
            decreases self.groups.len() - i,
        {
            proof {
                assert(self.groups@.take(i + 1).drop_last() =~= self.groups@.take(i as int));
                assert(self.groups@.take(i + 1).last() == self.groups@[i as int]);
            }
            let names = &self.groups[i].benchmark_names;
            let mut j: usize = 0;
            while j < names.len()
                invariant
                    0 <= j <= names.len(),
                    names == &self.groups@[i as int].benchmark_names,
                    0 <= i < self.groups.len(),
                    out.deep_view() =~= all_names(self.groups@.take(i as int)) + group_names(
                        self.groups@[i as int],
                    ).take(j as int),
                decreases names.len() - j,
            {
                let ghost dv0 = out.deep_view();
                out.push(names[j].clone());
                proof {
                    let cur = all_names(self.groups@.take(i as int)) + group_names(
                        self.groups@[i as int],
                    ).take(j + 1);
                    assert(out@.len() == dv0.len() + 1);
                    assert(dv0.len() == all_names(self.groups@.take(i as int)).len() + j);
                    assert(group_names(self.groups@[i as int]).take(j + 1).len() == j + 1);
                    assert(out.deep_view().len() == cur.len());
                    assert forall|k: int| 0 <= k < cur.len() implies out.deep_view()[k] == cur[k] by {
                        if k < dv0.len() {
                            assert(out.deep_view()[k] == dv0[k]);
                        } else {
                            assert(out.deep_view()[k] == names@[j as int]@);
                        }
                    }
                    assert(out.deep_view() =~= cur);
                }
                j = j + 1;
            }
            proof {
                assert(group_names(self.groups@[i as int]).take(names@.len() as int) =~= group_names(
                    self.groups@[i as int],
                ));
                assert(out.deep_view() =~= all_names(self.groups@.take(i + 1)));
            }
            i = i + 1;
        }
        proof {
            assert(self.groups@.take(self.groups.len() as int) =~= self.groups@);
        }
        out
    }

    /// The first group that reports the benchmark named `benchmark`, if any.
    pub fn get_group_by_benchmark(&self, benchmark: &str) -> (r: Option<&BenchmarkGroup>)
        ensures
            match r {
                Some(g) => exists|i: int|
                    0 <= i < self.groups@.len() && *g == self.groups@[i] && group_contains_name(
                        #[trigger] self.groups@[i],
                        benchmark@,
                    ) && forall|j: int|
                        0 <= j < i ==> !group_contains_name(#[trigger] self.groups@[j], benchmark@),
                None => forall|i: int|
                    0 <= i < self.groups@.len() ==> !group_contains_name(
                        #[trigger] self.groups@[i],
                        benchmark@,
                    ),
            },
    {
        let mut i: usize = 0;
        while i < self.groups.len()
            invariant
                0 <= i <= self.groups.len(),
                forall|j: int|
                    0 <= j < i ==> !group_contains_name(#[trigger] self.groups@[j], benchmark@),
            decreases self.groups.len() - i,
        {
            if self.groups[i].contains_benchmark(benchmark) {
                return Some(&self.groups[i]);
            }
            i = i + 1;
        }
        None
    }
}

/// The text of the failure section of an extraction report: for every failed
/// group its name, then its stored error, separated by blank lines.
pub open spec fn failure_report_text(failed: Seq<(String, String)>) -> Seq<char>
    decreases failed.len(),
{
    if failed.len() == 0 {
        Seq::empty()
    } else {
        failure_report_text(failed.drop_last()) + failed.last().0@ + "\n"@ + failed.last().1@
            + "\n\n"@
    }
}

/// Every failed group's name and stored error occur in the report text.
pub proof fn lemma_failure_report_complete(failed: Seq<(String, String)>, i: int)
    requires
        0 <= i < failed.len(),
    ensures
        contains_sub(failure_report_text(failed), failed[i].0@),
        contains_sub(failure_report_text(failed), failed[i].1@),
    decreases failed.len(),
{
    let prev = failure_report_text(failed.drop_last());
    let n = failed.last().0@;
    let e = failed.last().1@;
    if i == failed.len() - 1 {
        lemma_contains_sub_suffix(prev, n);
        lemma_contains_sub_extend(prev + n, "\n"@, n);
        lemma_contains_sub_extend(prev + n + "\n"@, e, n);
        lemma_contains_sub_extend(prev + n + "\n"@ + e, "\n\n"@, n);
        lemma_contains_sub_suffix(prev + n + "\n"@, e);
        lemma_contains_sub_extend(prev + n + "\n"@ + e, "\n\n"@, e);
    } else {
        lemma_failure_report_complete(failed.drop_last(), i);
        assert(failed.drop_last()[i] == failed[i]);
        lemma_contains_sub_extend(prev, n, failed[i].0@);
        lemma_contains_sub_extend(prev + n, "\n"@, failed[i].0@);
        lemma_contains_sub_extend(prev + n + "\n"@, e, failed[i].0@);
        lemma_contains_sub_extend(prev + n + "\n"@ + e, "\n\n"@, failed[i].0@);
        lemma_contains_sub_extend(prev, n, failed[i].1@);
        lemma_contains_sub_extend(prev + n, "\n"@, failed[i].1@);
        lemma_contains_sub_extend(prev + n + "\n"@, e, failed[i].1@);
        lemma_contains_sub_extend(prev + n + "\n"@ + e, "\n\n"@, failed[i].1@);
    }
}

/// The result of assembling a suite: the suite itself plus, for every unit
/// that failed to build, its name paired with the error text.
#[derive(Debug)]
pub struct BenchmarkSuiteCompilation {
    pub suite: BenchmarkSuite,
    /// Failed group name, each paired with its compilation error.
    pub failed_to_compile: Vec<(String, String)>,
}

impl BenchmarkSuiteCompilation {
    /// Converts to a plain suite; only callers that demand an all-green batch
    /// use this, so the failure map must be empty. A caller that cannot
    /// guarantee that checks first and reports `failure_report` instead.
    pub fn extract_suite(self) -> (r: BenchmarkSuite)
        requires
            self.failed_to_compile@.len() == 0,
        ensures
            r == self.suite,
    {
        self.suite
    }

    /// The consolidated report of every failed group: a fixed header, then
    /// each group name with its stored error text.
    pub fn failure_report(&self) -> (r: String)
        ensures
            r@ == "Cannot extract runtime suite because of compilation errors:\n"@
                + failure_report_text(self.failed_to_compile@),
    {
        let mut r = String::from_str("Cannot extract runtime suite because of compilation errors:\n");
        let ghost header = "Cannot extract runtime suite because of compilation errors:\n"@;
        let mut i: usize = 0;
        while i < self.failed_to_compile.len()
            invariant
                0 <= i <= self.failed_to_compile.len(),
                r@ == header + failure_report_text(self.failed_to_compile@.take(i as int)),
            decreases self.failed_to_compile.len() - i,
        {
            proof {
                assert(self.failed_to_compile@.take(i + 1).drop_last() =~= self.failed_to_compile@
                    .take(i as int));
                assert(self.failed_to_compile@.take(i + 1).last() == self.failed_to_compile@[
                    i as int]);
            }
            r.append(self.failed_to_compile[i].0.as_str());
            r.append("\n");
            r.append(self.failed_to_compile[i].1.as_str());
            r.append("\n\n");
            proof {
                assert(r@ =~= header + failure_report_text(
                    self.failed_to_compile@.take(i + 1),
                ));
            }
            i = i + 1;
        }
        proof {
            assert(self.failed_to_compile@.take(self.failed_to_compile.len() as int)
                =~= self.failed_to_compile@);
        }
        r
    }

    /// Every failed group's name and error occur in the full report.
    pub proof fn lemma_report_lists_failures(&self, i: int)
        requires
            0 <= i < self.failed_to_compile@.len(),
        ensures
            contains_sub(
                "Cannot extract runtime suite because of compilation errors:\n"@
                    + failure_report_text(self.failed_to_compile@),
                self.failed_to_compile@[i].0@,
            ),
            contains_sub(
                "Cannot extract runtime suite because of compilation errors:\n"@
                    + failure_report_text(self.failed_to_compile@),
                self.failed_to_compile@[i].1@,
            ),
    {
        lemma_failure_report_complete(self.failed_to_compile@, i);
        lemma_contains_sub_prepend(
            "Cannot extract runtime suite because of compilation errors:\n"@,
            failure_report_text(self.failed_to_compile@),
            self.failed_to_compile@[i].0@,
        );
        lemma_contains_sub_prepend(
            "Cannot extract runtime suite because of compilation errors:\n"@,
            failure_report_text(self.failed_to_compile@),
            self.failed_to_compile@[i].1@,
        );
    }
}

} // verus!
