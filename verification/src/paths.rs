//! Path computation for the single-folder rename: the renamed folder
//! stays within its parent directory, so the new absolute path is the
//! source path up to and including its last separator, followed by the
//! new name.  A bare name has the working directory as its parent, so the
//! new path is the new name alone.
use vstd::prelude::*;
use vstd::string::StrSliceExecFns;
use vstd::string::StringExecFns;

verus! {

/// Index of the last `/` in `s`, or -1 if `s` holds none.
pub open spec fn spec_last_slash(s: Seq<char>) -> int
    decreases s.len(),
{
    if s.len() == 0 {
        -1
    } else if s[s.len() - 1] == '/' {
        s.len() - 1
    } else {
        spec_last_slash(s.drop_last())
    }
}

/// The last-slash index is in range.
pub proof fn lemma_last_slash_in_range(s: Seq<char>)
    ensures
        -1 <= spec_last_slash(s) < s.len(),
    decreases s.len(),
{
    if s.len() > 0 && s[s.len() - 1] != '/' {
        lemma_last_slash_in_range(s.drop_last());
    }
}

/// The path of the renamed folder: everything up to and including the
/// source path's last separator, then the new name.
pub open spec fn spec_sibling_path(source: Seq<char>, new_name: Seq<char>) -> Seq<char> {
    source.take(spec_last_slash(source) + 1) + new_name
}

/// Executable search for the last `/`; agrees with `spec_last_slash`.
fn find_last_slash(s: &str) -> (r: Option<usize>)
    ensures
        match r {
            Some(i) => i == spec_last_slash(s@),
            None => spec_last_slash(s@) == -1,
        },
{
    let n = s.unicode_len();
    let mut i: usize = n;
    proof {
        assert(s@.take(n as int) =~= s@);
    }
    loop
        invariant
            0 <= i <= n,
            n == s@.len(),
            spec_last_slash(s@) == spec_last_slash(s@.take(i as int)),
        decreases i,
    {
        if i == 0 {
            return None;
        }
        let c = s.get_char(i - 1);
        if c == '/' {
            proof {
                assert(s@.take(i as int).last() == s@[i - 1]);
            }
            return Some(i - 1);
        }
        proof {
            assert(s@.take(i as int).drop_last() =~= s@.take(i as int - 1));
        }
        i = i - 1;
    }
}

/// Build the path the folder takes after renaming in place: its parent's
/// path joined with the new name.  A source path without a separator has
/// the working directory as its parent, so the result is the bare new
/// name; the caller rejects a source without a parent before any rename.
pub fn renamed_sibling_path(source: &str, new_name: &str) -> (r: String)
    ensures
        r@ == spec_sibling_path(source@, new_name@),
{
    let n = source.unicode_len();
    proof {
        lemma_last_slash_in_range(source@);
    }
    match find_last_slash(source) {
        Some(i) => {
            assert(i < n);
            let head = source.substring_char(0, i + 1);
            let mut out = String::from_str(head);
            out.append(new_name);
            proof {
                assert(out@ =~= spec_sibling_path(source@, new_name@));
            }
            out
        },
        None => {
            proof {
                assert(source@.take(0) =~= Seq::<char>::empty());
            }
            let out = String::from_str(new_name);
            proof {
                assert(out@ =~= spec_sibling_path(source@, new_name@));
            }
            out
        },
    }
}

} // verus!
