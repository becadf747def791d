//! The source locator: which ancestor directories of the working directory
//! contribute a local override source, innermost first, stopping at the
//! version-control root.

use vstd::prelude::*;

use crate::text::str_concat;

verus! {

/// What the walk reads of one ancestor directory: its path, whether it holds
/// the version-control marker directory, and whether it holds the local
/// override-config marker directory.
#[derive(Debug)]
pub struct Ancestor {
    pub path: String,
    pub has_vcs: bool,
    pub has_local: bool,
}

/// The paths the walk records from position `i` on: an ancestor with the
/// override marker is recorded; one with the version-control marker is
/// recorded and ends the walk; all others are passed over.
pub open spec fn spec_located(anc: Seq<Ancestor>, i: int) -> Seq<Seq<char>>
    decreases anc.len() - i,
{
    if i < 0 || i >= anc.len() {
        Seq::empty()
    } else if anc[i].has_vcs {
        seq![anc[i].path@]
    } else if anc[i].has_local {
        seq![anc[i].path@] + spec_located(anc, i + 1)
    } else {
        spec_located(anc, i + 1)
    }
}

/// The locator walk over the ancestors of the working directory, given
/// innermost first. Returns the recorded ancestor paths, most specific first.
#[verifier::loop_isolation(false)]
pub fn locate(ancestors: &Vec<Ancestor>) -> (r: Vec<String>)
    ensures
        r.deep_view() == spec_located(ancestors@, 0),
{
    let mut out: Vec<String> = Vec::new();
    let mut i: usize = 0;
    while i < ancestors.len()
        invariant
            i <= ancestors.len(),
            spec_located(ancestors@, 0) == out.deep_view() + spec_located(ancestors@, i as int),
        decreases ancestors.len() - i,
    {
        let ghost before = out.deep_view();
        if ancestors[i].has_vcs {
            out.push(ancestors[i].path.clone());
            proof {
                assert(out.deep_view() =~= before + seq![ancestors@[i as int].path@]);
                assert(out.deep_view() + Seq::<Seq<char>>::empty() =~= out.deep_view());
            }
            return out;
        } else if ancestors[i].has_local {
            out.push(ancestors[i].path.clone());
            proof {
                assert(out.deep_view() =~= before + seq![ancestors@[i as int].path@]);
                assert(before + spec_located(ancestors@, i as int)
                    =~= out.deep_view() + spec_located(ancestors@, i as int + 1));
            }
        }
        i = i + 1;
    }
    proof {
        assert(out.deep_view() + spec_located(ancestors@, i as int) =~= out.deep_view());
    }
    out
}

/// The local configuration directories: each recorded ancestor path with the
/// hidden product-named directory appended.
pub fn local_config_dirs(ancestors: &Vec<Ancestor>) -> (r: Vec<String>)
    ensures
        r.deep_view().len() == spec_located(ancestors@, 0).len(),
        forall|j: int| 0 <= j < r.deep_view().len() ==> r.deep_view()[j] == spec_located(
            ancestors@,
            0,
        )[j] + "/.tissue"@,
{
    let dirs = locate(ancestors);
    let mut out: Vec<String> = Vec::new();
    let mut i: usize = 0;
    while i < dirs.len()
        invariant
            i <= dirs.len(),
            dirs.deep_view() == spec_located(ancestors@, 0),
            dirs.deep_view().len() == dirs@.len(),
            out.deep_view().len() == i,
            forall|j: int| 0 <= j < i ==> out.deep_view()[j] == dirs.deep_view()[j] + "/.tissue"@,
        decreases dirs.len() - i,
    {
        let joined = str_concat(dirs[i].as_str(), "/.tissue");
        let ghost before = out.deep_view();
        let ghost jv = joined@;
        out.push(joined);
        proof {
            assert(out.deep_view() =~= before + seq![jv]);
        }
        i = i + 1;
    }
    out
}

} // verus!
