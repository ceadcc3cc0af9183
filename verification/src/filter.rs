//! Include/exclude criteria over benchmark names.
//!
//! A pattern matches a benchmark name exactly when the pattern is a prefix of
//! the name. A name is kept when it is not matched by the exclude pattern (if
//! one is set) and is matched by the included pattern (if one is set); an
//! absent pattern imposes no constraint on its axis.
use crate::strutil::is_prefix_of;
use crate::strutil::str_starts_with;
use vstd::prelude::*;

verus! {

/// A pair of optional patterns evaluated against benchmark names.
#[derive(Debug)]
pub struct BenchmarkFilter {
    pub exclude: Option<String>,
    pub included: Option<String>,
}

/// The view of an optional owned pattern.
pub open spec fn opt_view(o: Option<String>) -> Option<Seq<char>> {
    match o {
        Some(s) => Some(s@),
        None => None,
    }
}

/// The view of an optional borrowed pattern.
pub open spec fn opt_str_view(o: Option<&str>) -> Option<Seq<char>> {
    match o {
        Some(s) => Some(s@),
        None => None,
    }
}

/// Whether a benchmark name is kept by the given exclude/included patterns.
pub open spec fn spec_passes_filter(
    name: Seq<char>,
    exclude: Option<Seq<char>>,
    included: Option<Seq<char>>,
) -> bool {
    &&& (match exclude {
        Some(e) => !is_prefix_of(e, name),
        None => true,
    })
    &&& (match included {
        Some(i) => is_prefix_of(i, name),
        None => true,
    })
}

/// Decides whether `name` is kept: not excluded by `exclude` and included by
/// `included`, where an absent pattern imposes nothing.
pub fn passes_filter(name: &str, exclude: Option<&str>, included: Option<&str>) -> (r: bool)
    ensures
        r == spec_passes_filter(name@, opt_str_view(exclude), opt_str_view(included)),
{
    let excluded = match exclude {
        Some(e) => str_starts_with(name, e),
        None => false,
    };
    let included = match included {
        Some(i) => str_starts_with(name, i),
        None => true,
    };
    !excluded && included
}

impl BenchmarkFilter {
    /// The filter that keeps every benchmark name.
    pub fn keep_all() -> (r: Self)
        ensures
            r.exclude is None,
            r.included is None,
    {
        Self { exclude: None, included: None }
    }

    pub fn new(exclude: Option<String>, included: Option<String>) -> (r: Self)
        ensures
            r.exclude == exclude,
            r.included == included,
    {
        Self { exclude, included }
    }

    /// Decides whether `name` is kept by this filter.
    pub fn passes(&self, name: &str) -> (r: bool)
        ensures
            r == spec_passes_filter(name@, opt_view(self.exclude), opt_view(self.included)),
    {
        let exclude = match &self.exclude {
            Some(e) => Some(e.as_str()),
            None => None,
        };
        let included = match &self.included {
            Some(i) => Some(i.as_str()),
            None => None,
        };
        passes_filter(name, exclude, included)
    }
}

} // verus!
