//! Turning an untrusted requested path into a validated, root-confined
//! location.
//!
//! The operating system's real-path facility is the one step the library
//! cannot perform itself: the embedding program canonicalizes the joined
//! path and hands the outcome back as a [`CanonicalTarget`] or an error
//! text. Everything decided on that outcome — confinement, classification,
//! the error surface — is verified here.

use vstd::prelude::*;
use vstd::string::*;
use crate::paths::{confined, render_abs, render_path_abs, RootConfig};

verus! {

/// How many separator characters the request starts with.
pub open spec fn leading_separators(req: Seq<char>) -> int
    decreases req.len(),
{
    if req.len() == 0 {
        0
    } else if req[0] != '/' {
        0
    } else {
        1 + leading_separators(req.skip(1))
    }
}

/// `leading_separators` is pinned by any index `i` such that everything
/// before `i` is a separator and `i` is the end or a non-separator.
pub proof fn lemma_leading_separators_at(req: Seq<char>, i: int)
    requires
        0 <= i <= req.len(),
        forall|k: int| 0 <= k < i ==> req[k] == '/',
        i == req.len() || req[i] != '/',
    ensures
        leading_separators(req) == i,
    decreases req.len(),
{
    if req.len() == 0 {
    } else if i == 0 {
    } else {
        assert(req[0] == '/');
        let rest = req.skip(1);
        assert forall|k: int| 0 <= k < i - 1 implies rest[k] == '/' by {
            assert(rest[k] == req[k + 1]);
        }
        if i < req.len() {
            assert(rest[i - 1] == req[i]);
        }
        lemma_leading_separators_at(rest, i - 1);
    }
}

/// The string handed to the operating system for canonicalization: the
/// root's own path for a request naming the virtual root (empty or bare
/// separators), otherwise the root's path, one separator, and the request
/// with its leading separators dropped.
pub open spec fn spec_join(root_path: Seq<char>, req: Seq<char>) -> Seq<char> {
    let rest = req.skip(leading_separators(req));
    if rest.len() == 0 {
        root_path
    } else {
        root_path + seq!['/'] + rest
    }
}

/// Empty-path identity: every request that names the virtual root — the
/// empty string or bare separators — joins to exactly the root's own path,
/// the same string the empty request joins to; resolution, a function of
/// the joined path's canonicalization outcome alone, therefore cannot tell
/// them apart.
pub proof fn lemma_empty_request_names_root(root_path: Seq<char>, req: Seq<char>)
    requires
        forall|k: int| 0 <= k < req.len() ==> req[k] == '/',
    ensures
        spec_join(root_path, req) == root_path,
        spec_join(root_path, req) == spec_join(root_path, Seq::<char>::empty()),
{
    lemma_leading_separators_at(req, req.len() as int);
    assert(req.skip(req.len() as int) =~= Seq::<char>::empty());
    lemma_leading_separators_at(Seq::<char>::empty(), 0);
    assert(Seq::<char>::empty().skip(0) =~= Seq::<char>::empty());
}

/// Joins the requested path onto the root for canonicalization.
pub fn join_request(root: &RootConfig, requested: &str) -> (j: String)
    ensures
        j@ == spec_join(root.path_view(), requested@),
{
    let n = requested.unicode_len();
    let mut i: usize = 0;
    while i < n && requested.get_char(i) == '/'
        invariant
            i <= n == requested@.len(),
            forall|k: int| 0 <= k < i ==> requested@[k] == '/',
        decreases n - i,
    {
        i += 1;
    }
    proof {
        lemma_leading_separators_at(requested@, i as int);
    }
    let rest = requested.substring_char(i, n);
    proof {
        assert(rest@ =~= requested@.skip(i as int));
    }
    if rest.unicode_len() == 0 {
        root.path().clone()
    } else {
        let mut j = root.path().clone();
        j.append("/");
        j.append(rest);
        proof {
            reveal_strlit("/");
            assert("/"@ =~= seq!['/']);
            assert(j@ =~= spec_join(root.path_view(), requested@));
        }
        j
    }
}

/// What the operating system reported for the joined path: its canonical
/// components (symlinks resolved, no `.` or `..` left) and whether it is a
/// directory.
pub struct CanonicalTarget {
    pub components: Vec<String>,
    pub is_directory: bool,
}

/// A canonical location that passed the confinement check, classified as a
/// directory or a file. Values of this type come out of [`resolve`], whose
/// contract pins their components inside the root.
pub enum ValidatedPath {
    Directory(Vec<String>),
    File(Vec<String>),
}

impl ValidatedPath {
    /// The validated location's canonical components.
    pub open spec fn spec_components(&self) -> Seq<Seq<char>> {
        match self {
            ValidatedPath::Directory(c) => c.deep_view(),
            ValidatedPath::File(c) => c.deep_view(),
        }
    }

    pub open spec fn is_directory(&self) -> bool {
        self matches ValidatedPath::Directory(_)
    }

    pub fn components(&self) -> (r: &Vec<String>)
        ensures
            r.deep_view() == self.spec_components(),
    {
        match self {
            ValidatedPath::Directory(c) => c,
            ValidatedPath::File(c) => c,
        }
    }
}

/// Why a requested path yielded no validated location.
pub enum PathError {
    /// The operating system could not canonicalize the joined path: the
    /// target is missing, unreadable, or otherwise unresolvable. Carries
    /// the reported detail.
    Canonicalize(String),
    /// The canonical target escapes the root. Carries the rejected
    /// canonical path.
    OutOfScope(String),
}

impl PathError {
    /// The user-visible text for the failure.
    pub open spec fn spec_message(&self) -> Seq<char> {
        match self {
            PathError::Canonicalize(d) => "Canonicalization failed : '"@ + d@ + "'"@,
            PathError::OutOfScope(p) => "Path out of scope : '"@ + p@ + "'"@,
        }
    }

    pub fn message(&self) -> (m: String)
        ensures
            m@ == self.spec_message(),
    {
        match self {
            PathError::Canonicalize(d) => {
                let mut m = String::from_str("Canonicalization failed : '");
                m.append(d.as_str());
                m.append("'");
                m
            },
            PathError::OutOfScope(p) => {
                let mut m = String::from_str("Path out of scope : '");
                m.append(p.as_str());
                m.append("'");
                m
            },
        }
    }
}

/// Confinement decision on a canonicalization outcome.
///
/// A failed canonicalization is surfaced unchanged; a canonical target
/// outside the root is rejected with its rendered path; a confined target
/// is classified by the reported file type. A successful resolution never
/// yields a target outside the root, whatever the outcome was.
pub fn resolve(root: &RootConfig, outcome: Result<CanonicalTarget, String>) -> (r: Result<
    ValidatedPath,
    PathError,
>)
    ensures
        r matches Ok(v) ==> confined(root.components_view(), v.spec_components()),
        outcome matches Err(d) ==> r == Result::<ValidatedPath, PathError>::Err(
            PathError::Canonicalize(d),
        ),
        outcome matches Ok(t) ==> !confined(root.components_view(), t.components.deep_view())
            ==> (r matches Err(PathError::OutOfScope(p)) && p@ == render_abs(
            t.components.deep_view(),
        )),
        outcome matches Ok(t) ==> confined(root.components_view(), t.components.deep_view())
            ==> t.is_directory ==> r == Result::<ValidatedPath, PathError>::Ok(
            ValidatedPath::Directory(t.components),
        ),
        outcome matches Ok(t) ==> confined(root.components_view(), t.components.deep_view())
            ==> !t.is_directory ==> r == Result::<ValidatedPath, PathError>::Ok(
            ValidatedPath::File(t.components),
        ),
{
    match outcome {
        Err(detail) => Err(PathError::Canonicalize(detail)),
        Ok(target) => {
            if !crate::paths::is_confined(root.components(), &target.components) {
                Err(PathError::OutOfScope(render_path_abs(&target.components)))
            } else if target.is_directory {
                Ok(ValidatedPath::Directory(target.components))
            } else {
                Ok(ValidatedPath::File(target.components))
            }
        },
    }
}

} // verus!
