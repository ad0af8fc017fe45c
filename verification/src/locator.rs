//! The upward search for the Makefile.
//!
//! The search starts in one directory and climbs from parent to parent. In
//! each directory it first looks for a Makefile and, finding none, for the
//! repository marker. It never climbs out of a directory that holds the
//! marker, nor above the root of the file system.

use crate::error::{Failure, MakefileError};
use crate::makefile::Makefile;
use vstd::prelude::*;

verus! {

/// What the search sees in one directory.
#[derive(Clone, Copy, Debug, PartialEq, Eq, Structural)]
pub struct DirProbe {
    /// The directory holds a Makefile.
    pub has_makefile: bool,
    /// The directory holds the repository marker.
    pub has_marker: bool,
}

/// What the search does after it has looked at one directory.
#[derive(Clone, Copy, Debug, PartialEq, Eq, Structural)]
pub enum Step {
    /// The Makefile is in this directory.
    Found,
    /// The search ends without a Makefile.
    NotFound,
    /// The search goes on in the parent directory.
    Ascend,
}

/// What the search does in a directory where it sees `probe`, and which has
/// a parent or not.
pub open spec fn step_of(probe: DirProbe, has_parent: bool) -> Step {
    if probe.has_makefile {
        Step::Found
    } else if probe.has_marker || !has_parent {
        Step::NotFound
    } else {
        Step::Ascend
    }
}

/// Where the search ends that starts at position `from` of `probes`. The
/// probes are those of the starting directory and of each directory above
/// it, nearest first; the last one has no parent.
pub open spec fn search(probes: Seq<DirProbe>, from: int) -> Option<int>
    decreases probes.len() - from,
{
    if from < 0 || from >= probes.len() {
        None
    } else {
        match step_of(probes[from], from + 1 < probes.len()) {
            Step::Found => Some(from),
            Step::NotFound => None,
            Step::Ascend => search(probes, from + 1),
        }
    }
}

/// Decides what the search does in one directory.
pub fn locate_step(probe: DirProbe, has_parent: bool) -> (step: Step)
    ensures
        step == step_of(probe, has_parent),
{
    if probe.has_makefile {
        Step::Found
    } else if probe.has_marker || !has_parent {
        Step::NotFound
    } else {
        Step::Ascend
    }
}

impl Makefile {
    /// Searches for the Makefile. `probes` holds what the starting directory
    /// and each directory above it hold, nearest first and up to the root of
    /// the file system. The result is the position of the directory whose
    /// Makefile is the one to use.
    pub fn find(probes: &Vec<DirProbe>) -> (found: Result<usize, MakefileError>)
        ensures
            match search(probes@, 0) {
                Some(i) => found matches Ok(at) && at == i,
                None => found matches Err(e) && e@ == Failure::NotFound,
            },
            found matches Ok(at) ==> at < probes.len() && probes[at as int].has_makefile,
    {
        proof {
            lemma_search_finds_makefile(probes@, 0);
        }
        let mut i: usize = 0;
        while i < probes.len()
            invariant
                i <= probes.len(),
                search(probes@, 0) == search(probes@, i as int),
            decreases probes.len() - i,
        {
            match locate_step(probes[i], i + 1 < probes.len()) {
                Step::Found => {
                    return Ok(i);
                },
                Step::NotFound => {
                    return Err(MakefileError::NotFound);
                },
                Step::Ascend => {
                    i += 1;
                },
            }
        }
        Err(MakefileError::NotFound)
    }
}

/// The search finds the nearest Makefile exactly when no directory below the
/// one that holds it has the marker, and finds nothing otherwise. Here `at` is
/// the position in `probes` of the nearest directory with a Makefile.
pub proof fn lemma_found_iff_no_marker_below(probes: Seq<DirProbe>, at: int)
    requires
        0 <= at < probes.len(),
        probes[at].has_makefile,
        forall|j: int| 0 <= j < at ==> !probes[j].has_makefile,
    ensures
        search(probes, 0) == if forall|j: int| 0 <= j < at ==> !probes[j].has_marker {
            Some(at)
        } else {
            None
        },
{
    lemma_search_from(probes, at, 0);
}

/// Where the search ends with a Makefile, that directory holds one, and no
/// directory that the search passed on its way holds a Makefile or the
/// marker.
pub proof fn lemma_search_finds_makefile(probes: Seq<DirProbe>, from: int)
    requires
        0 <= from,
    ensures
        search(probes, from) matches Some(at) ==> {
            &&& from <= at < probes.len()
            &&& probes[at].has_makefile
            &&& forall|j: int|
                from <= j < at ==> !(#[trigger] probes[j]).has_makefile && !probes[j].has_marker
        },
    decreases probes.len() - from,
{
    if from < probes.len() {
        lemma_search_finds_makefile(probes, from + 1);
    }
}

/// Without a Makefile in any directory the search finds nothing.
pub proof fn lemma_no_makefile_not_found(probes: Seq<DirProbe>, from: int)
    requires
        forall|j: int| 0 <= j < probes.len() ==> !probes[j].has_makefile,
    ensures
        search(probes, from) is None,
    decreases probes.len() - from,
{
    if 0 <= from < probes.len() {
        lemma_no_makefile_not_found(probes, from + 1);
    }
}

/// The search from `from`, at or below the nearest Makefile at `at`, finds
/// that Makefile exactly when no directory from `from` up to it holds the
/// marker.
proof fn lemma_search_from(probes: Seq<DirProbe>, at: int, from: int)
    requires
        0 <= from <= at < probes.len(),
        probes[at].has_makefile,
        forall|j: int| 0 <= j < at ==> !probes[j].has_makefile,
    ensures
        (forall|j: int| from <= j < at ==> !probes[j].has_marker) ==> search(probes, from)
            == Some(at),
        (exists|j: int| from <= j < at && probes[j].has_marker) ==> search(probes, from) is None,
    decreases at - from,
{
    if from < at {
        lemma_search_from(probes, at, from + 1);
        if !probes[from].has_marker {
            if exists|j: int| from <= j < at && probes[j].has_marker {
                let j = choose|j: int| from <= j < at && probes[j].has_marker;
                assert(from + 1 <= j < at && probes[j].has_marker);
            }
        }
    }
}

} // verus!
