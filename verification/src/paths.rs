//! Canonical paths as component sequences: rendering and root confinement.
//!
//! A canonical absolute path is handled as the sequence of its components
//! (the pieces between separators, from the filesystem root down), so that
//! confinement is decided component by component and never by comparing raw
//! string prefixes, which would wrongly accept a sibling sharing a prefix.

use vstd::prelude::*;
use vstd::string::*;

verus! {

/// The target lies inside the root: the root's components are a leading
/// component-wise prefix of the target's components. The root itself counts
/// as inside.
pub open spec fn confined(root: Seq<Seq<char>>, target: Seq<Seq<char>>) -> bool {
    &&& root.len() <= target.len()
    &&& forall|i: int| 0 <= i < root.len() ==> root[i] == target[i]
}

/// The textual form of a component sequence taken relative to some ancestor:
/// each component is preceded by one separator, so a nonempty sequence
/// renders as `/a/b` and an empty one as the empty string.
pub open spec fn render_rel(cs: Seq<Seq<char>>) -> Seq<char>
    decreases cs.len(),
{
    if cs.len() == 0 {
        Seq::empty()
    } else {
        render_rel(cs.drop_last()) + seq!['/'] + cs.last()
    }
}

/// The textual form of a canonical absolute path: the filesystem root alone
/// renders as `/`, anything deeper as `/a/b`.
pub open spec fn render_abs(cs: Seq<Seq<char>>) -> Seq<char> {
    if cs.len() == 0 {
        seq!['/']
    } else {
        render_rel(cs)
    }
}

/// Decides `confined` by comparing components pairwise.
pub fn is_confined(root: &Vec<String>, target: &Vec<String>) -> (r: bool)
    ensures
        r == confined(root.deep_view(), target.deep_view()),
{
    if root.len() > target.len() {
        return false;
    }
    let mut i: usize = 0;
    while i < root.len()
        invariant
            i <= root.len() <= target.len(),
            root.len() == root.deep_view().len(),
            target.len() == target.deep_view().len(),
            forall|k: int| 0 <= k < i ==> root.deep_view()[k] == target.deep_view()[k],
        decreases root.len() - i,
    {
        if !root[i].eq(&target[i]) {
            assert(root.deep_view()[i as int] != target.deep_view()[i as int]);
            return false;
        }
        i += 1;
    }
    true
}

/// Renders the components from index `from` on, each preceded by `/`.
pub fn render_path_rel(cs: &Vec<String>, from: usize) -> (r: String)
    requires
        from <= cs.len(),
    ensures
        r@ == render_rel(cs.deep_view().skip(from as int)),
{
    let mut s = String::new();
    let mut i: usize = from;
    proof {
        assert(cs.deep_view().subrange(from as int, from as int) =~= Seq::<Seq<char>>::empty());
    }
    while i < cs.len()
        invariant
            from <= i <= cs.len(),
            cs.len() == cs.deep_view().len(),
            s@ == render_rel(cs.deep_view().subrange(from as int, i as int)),
        decreases cs.len() - i,
    {
        proof {
            reveal_strlit("/");
        }
        s.append("/");
        s.append(cs[i].as_str());
        proof {
            let dv = cs.deep_view();
            let prev = dv.subrange(from as int, i as int);
            let cur = dv.subrange(from as int, i + 1 as int);
            assert(cur.drop_last() =~= prev);
            assert(cur.last() == dv[i as int]);
            assert("/"@ =~= seq!['/']);
            assert(s@ =~= render_rel(cur));
        }
        i += 1;
    }
    proof {
        assert(cs.deep_view().subrange(from as int, cs.deep_view().len() as int) =~= cs.deep_view().skip(
            from as int,
        ));
    }
    s
}

/// Renders a whole canonical absolute path.
pub fn render_path_abs(cs: &Vec<String>) -> (r: String)
    ensures
        r@ == render_abs(cs.deep_view()),
{
    if cs.len() == 0 {
        let s = String::from_str("/");
        proof {
            reveal_strlit("/");
            assert(s@ =~= seq!['/']);
        }
        s
    } else {
        let r = render_path_rel(cs, 0);
        proof {
            assert(cs.deep_view().skip(0) =~= cs.deep_view());
        }
        r
    }
}

/// The confinement boundary: one canonical absolute path, fixed at startup
/// and shared read-only by every request. Holds both the component form the
/// confinement check works on and the rendered textual form handed to the
/// operating system, tied together by construction.
pub struct RootConfig {
    components: Vec<String>,
    path: String,
}

impl RootConfig {
    /// The root's canonical path, as components.
    pub closed spec fn components_view(&self) -> Seq<Seq<char>> {
        self.components.deep_view()
    }

    /// The root's canonical path, as text.
    pub closed spec fn path_view(&self) -> Seq<char> {
        self.path@
    }

    /// The textual form always renders the component form.
    pub open spec fn wf(&self) -> bool {
        self.path_view() == render_abs(self.components_view())
    }

    /// Builds the boundary from the canonical components of the configured
    /// root directory.
    pub fn new(components: Vec<String>) -> (r: RootConfig)
        ensures
            r.wf(),
            r.components_view() == components.deep_view(),
    {
        let path = render_path_abs(&components);
        RootConfig { components, path }
    }

    pub fn components(&self) -> (r: &Vec<String>)
        ensures
            r.deep_view() == self.components_view(),
    {
        &self.components
    }

    pub fn path(&self) -> (r: &String)
        ensures
            r@ == self.path_view(),
    {
        &self.path
    }
}

} // verus!
