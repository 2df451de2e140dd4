//! Destination planning for the copy engine.  Given the eligible files of
//! one enumeration, each as a relative path under the source directory,
//! compute the relative path each file takes under the destination: the
//! folder-rename transform applies exactly when auto-rename is on and a
//! prefix was supplied, and otherwise every file keeps its relative path.
use vstd::prelude::*;
use crate::rename::apply_folder_rename;
use crate::rename::spec_apply_rename;
use crate::rename::spec_segments;

verus! {

/// The character sequences of a list of relative paths.
pub open spec fn spec_path_views(files: Seq<Vec<String>>) -> Seq<Seq<Seq<char>>> {
    files.map_values(|p: Vec<String>| spec_segments(p@))
}

/// The planned destination paths: the rename transform of each path when
/// it applies, and the identical paths otherwise.
pub open spec fn spec_plan(
    files: Seq<Seq<Seq<char>>>,
    prefix: Option<Seq<char>>,
    auto_rename: bool,
) -> Seq<Seq<Seq<char>>> {
    if auto_rename && prefix is Some {
        files.map_values(|p: Seq<Seq<char>>| spec_apply_rename(p, prefix->0))
    } else {
        files
    }
}

/// Copy one relative path, segment by segment.
fn clone_path(p: &Vec<String>) -> (r: Vec<String>)
    ensures
        spec_segments(r@) == spec_segments(p@),
{
    let mut r: Vec<String> = Vec::new();
    let mut i: usize = 0;
    while i < p.len()
        invariant
            0 <= i <= p@.len(),
            r@.len() == i,
            forall|j: int| 0 <= j < i ==> r@[j]@ == p@[j]@,
        decreases p@.len() - i,
    {
        r.push(p[i].clone());
        i = i + 1;
    }
    proof {
        assert(spec_segments(r@) =~= spec_segments(p@));
    }
    r
}

/// Compute the destination relative path of every enumerated file.  With
/// auto-rename off or no prefix supplied, every file keeps its relative
/// path unchanged, so a later copy places it at the identical relative
/// path under the destination.
pub fn plan_destinations(
    files: &Vec<Vec<String>>,
    prefix: &Option<String>,
    auto_rename: bool,
) -> (dests: Vec<Vec<String>>)
    ensures
        spec_path_views(dests@) == spec_plan(
            spec_path_views(files@),
            match prefix {
                Some(p) => Some(p@),
                None => None,
            },
            auto_rename,
        ),
{
    let mut dests: Vec<Vec<String>> = Vec::new();
    match (auto_rename, prefix) {
        (true, Some(pfx)) => {
            let mut i: usize = 0;
            while i < files.len()
                invariant
                    0 <= i <= files@.len(),
                    dests@.len() == i,
                    forall|j: int|
                        0 <= j < i ==> spec_segments(#[trigger] dests@[j]@) == spec_apply_rename(
                            spec_segments(files@[j]@),
                            pfx@,
                        ),
                decreases files@.len() - i,
            {
                dests.push(apply_folder_rename(&files[i], pfx.as_str()));
                i = i + 1;
            }
            proof {
                assert(spec_path_views(dests@) =~= spec_plan(
                    spec_path_views(files@),
                    Some(pfx@),
                    auto_rename,
                ));
            }
            dests
        },
        _ => {
            let mut i: usize = 0;
            while i < files.len()
                invariant
                    0 <= i <= files@.len(),
                    dests@.len() == i,
                    forall|j: int|
                        0 <= j < i ==> spec_segments(#[trigger] dests@[j]@) == spec_segments(
                            files@[j]@,
                        ),
                decreases files@.len() - i,
            {
                dests.push(clone_path(&files[i]));
                i = i + 1;
            }
            proof {
                assert(spec_path_views(dests@) =~= spec_path_views(files@));
            }
            dests
        },
    }
}

/// With auto-rename off, or no prefix supplied, the planned destination
/// paths are exactly the source-relative paths: the copy is
/// structure-preserving, file for file.
pub proof fn lemma_plan_identity(
    files: Seq<Seq<Seq<char>>>,
    prefix: Option<Seq<char>>,
    auto_rename: bool,
)
    requires
        !auto_rename || prefix is None,
    ensures
        spec_plan(files, prefix, auto_rename) == files,
{
}

/// The plan covers exactly the enumerated files, in enumeration order.
pub proof fn lemma_plan_same_length(
    files: Seq<Seq<Seq<char>>>,
    prefix: Option<Seq<char>>,
    auto_rename: bool,
)
    ensures
        spec_plan(files, prefix, auto_rename).len() == files.len(),
{
}

} // verus!
