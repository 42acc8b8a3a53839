//! The explore operation: one request, one response.
//!
//! One request runs as resolve → (if a directory) list → classify → sort.
//! The two filesystem steps — canonicalizing the joined path and iterating
//! the directory — are performed by the embedding program, which calls the
//! functions here in order and feeds each outcome back in; every decision
//! between the steps is verified. Each request is a self-contained
//! computation over its own inputs: nothing is shared between requests but
//! the read-only root.

use vstd::prelude::*;
use vstd::string::*;
use crate::listing::{build_listing, raw_views_of, spec_listing_entries, spec_listing_failures,
    Listing};
use crate::entries::RawEntry;
use crate::paths::RootConfig;
use crate::resolver::{PathError, ValidatedPath};
use crate::sorting::{sorted_entries, views_of};

verus! {

/// Why an explore request produced no result.
pub enum ExploreError {
    /// The requested path yielded no validated location.
    Path(PathError),
    /// The validated directory could not be opened or iterated; carries the
    /// reported detail. This aborts the whole operation, unlike a per-child
    /// fault, which the listing carries along.
    DirectoryRead(String),
}

impl ExploreError {
    pub fn message(&self) -> (m: String)
        ensures
            self matches ExploreError::Path(e) ==> m@ == e.spec_message(),
            self matches ExploreError::DirectoryRead(d) ==> m@ == "Directory read failed : '"@
                + d@ + "'"@,
    {
        match self {
            ExploreError::Path(e) => e.message(),
            ExploreError::DirectoryRead(d) => {
                let mut m = String::from_str("Directory read failed : '");
                m.append(d.as_str());
                m.append("'");
                m
            },
        }
    }
}

/// What one explore request yields: the ordered listing of a directory, or
/// the statement that the target is a file and not listable — distinct from
/// every error.
pub enum ExploreResult {
    Listing(Listing),
    NotListable,
}

/// What the embedding program must do next after resolution.
pub enum ExplorePlan {
    /// The target is a validated directory: read its children and hand them
    /// to [`explore_after_read`].
    ReadDirectory(Vec<String>),
    /// The operation is already decided.
    Finish(Result<ExploreResult, ExploreError>),
}

/// Decides the request after resolution: a validated directory is to be
/// read; a validated file is not listable, which is a successful outcome,
/// not an error; a resolution failure is surfaced unchanged.
pub fn explore_after_resolve(resolved: Result<ValidatedPath, PathError>) -> (p: ExplorePlan)
    ensures
        resolved matches Ok(ValidatedPath::Directory(c)) ==> p == ExplorePlan::ReadDirectory(c),
        resolved matches Ok(ValidatedPath::File(_)) ==> p == ExplorePlan::Finish(Result::<
            ExploreResult,
            ExploreError,
        >::Ok(ExploreResult::NotListable)),
        resolved matches Err(e) ==> p == ExplorePlan::Finish(Result::<
            ExploreResult,
            ExploreError,
        >::Err(ExploreError::Path(e))),
{
    match resolved {
        Ok(ValidatedPath::Directory(c)) => ExplorePlan::ReadDirectory(c),
        Ok(ValidatedPath::File(_)) => ExplorePlan::Finish(Ok(ExploreResult::NotListable)),
        Err(e) => ExplorePlan::Finish(Err(ExploreError::Path(e))),
    }
}

/// Finishes the request after the directory was read: a failure to open or
/// iterate aborts the operation; otherwise the listing holds exactly the
/// classifications of the children that were read, ordered, with every
/// unclassifiable child surfaced, and every child accounted for.
pub fn explore_after_read(root: &RootConfig, read: Result<Vec<RawEntry>, String>) -> (r: Result<
    ExploreResult,
    ExploreError,
>)
    ensures
        read matches Err(d) ==> r == Result::<ExploreResult, ExploreError>::Err(
            ExploreError::DirectoryRead(d),
        ),
        read matches Ok(raws) ==> (r matches Ok(ExploreResult::Listing(l))
            && sorted_entries(views_of(l.entries@))
            && views_of(l.entries@).to_multiset() == spec_listing_entries(
            raw_views_of(raws@),
            root.components_view(),
        ).to_multiset()
            && l.failures.deep_view() == spec_listing_failures(
            raw_views_of(raws@),
            root.components_view(),
        )
            && l.entries@.len() + l.failures@.len() == raws@.len()),
{
    match read {
        Err(detail) => Err(ExploreError::DirectoryRead(detail)),
        Ok(raws) => Ok(ExploreResult::Listing(build_listing(&raws, root))),
    }
}

} // verus!
