//! FolderRenameTransform: a pure, total transform on relative paths.  A
//! relative path is a sequence of segments.  When the path has at least two
//! segments and its first segment holds a run of 2-3 consecutive ASCII
//! digits, the first segment is replaced by `"{prefix} {last two digits of
//! the first such run}"`; every other segment is preserved verbatim.
use vstd::prelude::*;
use vstd::string::StrSliceExecFns;
use vstd::string::StringExecFns;
use crate::media::spec_is_digit;
use crate::media::is_digit_char;

verus! {

/// Start of the first digit run at or after `i`: the least position `k >= i`
/// such that `s[k]` and `s[k+1]` are both digits, or -1 if there is none.
pub open spec fn spec_run_start_from(s: Seq<char>, i: int) -> int
    decreases s.len() - i,
{
    if i < 0 || i + 1 >= s.len() {
        -1
    } else if spec_is_digit(s[i]) && spec_is_digit(s[i + 1]) {
        i
    } else {
        spec_run_start_from(s, i + 1)
    }
}

/// Start of the first run of at least two consecutive ASCII digits in `s`,
/// or -1 if `s` holds no such run.
pub open spec fn spec_run_start(s: Seq<char>) -> int {
    spec_run_start_from(s, 0)
}

/// Length of the matched digit run: three digits when a third one follows
/// immediately, otherwise two.  Zero when there is no run.
pub open spec fn spec_run_len(s: Seq<char>) -> int {
    let i = spec_run_start(s);
    if i == -1 {
        0
    } else if i + 2 < s.len() && spec_is_digit(s[i + 2]) {
        3
    } else {
        2
    }
}

/// A found run start is in range and points at two consecutive digits.
pub proof fn lemma_run_start_from_props(s: Seq<char>, i: int)
    requires
        0 <= i,
        spec_run_start_from(s, i) != -1,
    ensures
        i <= spec_run_start_from(s, i),
        spec_run_start_from(s, i) + 1 < s.len(),
        spec_is_digit(s[spec_run_start_from(s, i)]),
        spec_is_digit(s[spec_run_start_from(s, i) + 1]),
    decreases s.len() - i,
{
    if i + 1 >= s.len() {
    } else if spec_is_digit(s[i]) && spec_is_digit(s[i + 1]) {
    } else {
        lemma_run_start_from_props(s, i + 1);
    }
}

/// The last two characters of the matched digit run.
pub open spec fn spec_run_last_two(s: Seq<char>) -> Seq<char> {
    let e = spec_run_start(s) + spec_run_len(s);
    s.subrange(e - 2, e)
}

/// The transformed first segment: unchanged when no digit run exists,
/// otherwise `"{prefix} {last two digits}"`.
pub open spec fn spec_renamed_first(seg: Seq<char>, prefix: Seq<char>) -> Seq<char> {
    if spec_run_start(seg) == -1 {
        seg
    } else {
        prefix + seq![' '] + spec_run_last_two(seg)
    }
}

/// The transformed relative path: paths with fewer than two segments are
/// returned unchanged; otherwise only the first segment is transformed.
pub open spec fn spec_apply_rename(path: Seq<Seq<char>>, prefix: Seq<char>) -> Seq<Seq<char>> {
    if path.len() < 2 {
        path
    } else {
        path.update(0, spec_renamed_first(path[0], prefix))
    }
}

/// The character sequences of a sequence of segments.
pub open spec fn spec_segments(path: Seq<String>) -> Seq<Seq<char>> {
    path.map_values(|s: String| s@)
}

/// Find the first run of 2-3 consecutive ASCII digits in `seg`, returning
/// its start position and length.
pub fn find_digit_run(seg: &str) -> (r: Option<(usize, usize)>)
    ensures
        match r {
            Some(p) => p.0 == spec_run_start(seg@) && p.1 == spec_run_len(seg@),
            None => spec_run_start(seg@) == -1,
        },
{
    let n = seg.unicode_len();
    if n == 0 {
        return None;
    }
    let mut i: usize = 0;
    loop
        invariant
            0 <= i <= n,
            1 <= n == seg@.len(),
            spec_run_start(seg@) == spec_run_start_from(seg@, i as int),
        decreases n - i,
    {
        if i >= n - 1 {
            return None;
        }
        if is_digit_char(seg.get_char(i)) && is_digit_char(seg.get_char(i + 1)) {
            let len: usize = if i + 2 < n && is_digit_char(seg.get_char(i + 2)) {
                3
            } else {
                2
            };
            return Some((i, len));
        }
        i = i + 1;
    }
}

/// Transform one folder name: extract the digit run and rebuild the name as
/// `"{prefix} {last two digits}"`, or hand the name back unchanged when it
/// holds no run of two consecutive digits.
pub fn renamed_first_segment(seg: &str, prefix: &str) -> (r: String)
    ensures
        r@ == spec_renamed_first(seg@, prefix@),
{
    match find_digit_run(seg) {
        None => String::from_str(seg),
        Some((start, len)) => {
            let n = seg.unicode_len();
            proof {
                lemma_run_start_from_props(seg@, 0);
            }
            assert(len == 2 || len == 3);
            assert(start + len <= n);
            let end = start + len;
            let last_two = seg.substring_char(end - 2, end);
            let mut out = String::from_str(prefix);
            out.append(" ");
            out.append(last_two);
            proof {
                reveal_strlit(" ");
                assert(" "@ =~= seq![' ']);
                assert(out@ =~= spec_renamed_first(seg@, prefix@));
            }
            out
        },
    }
}

/// Apply the folder-rename transform to a relative path given as segments.
pub fn apply_folder_rename(path: &Vec<String>, prefix: &str) -> (r: Vec<String>)
    ensures
        spec_segments(r@) == spec_apply_rename(spec_segments(path@), prefix@),
{
    let mut r: Vec<String> = Vec::new();
    if path.len() < 2 {
        let mut i: usize = 0;
        while i < path.len()
            invariant
                0 <= i <= path@.len(),
                r@.len() == i,
                forall|j: int| 0 <= j < i ==> r@[j]@ == path@[j]@,
            decreases path@.len() - i,
        {
            r.push(path[i].clone());
            i = i + 1;
        }
        proof {
            assert(spec_segments(r@) =~= spec_apply_rename(spec_segments(path@), prefix@));
        }
        r
    } else {
        r.push(renamed_first_segment(path[0].as_str(), prefix));
        let mut i: usize = 1;
        while i < path.len()
            invariant
                1 <= i <= path@.len(),
                2 <= path@.len(),
                r@.len() == i,
                r@[0]@ == spec_renamed_first(path@[0]@, prefix@),
                forall|j: int| 1 <= j < i ==> r@[j]@ == path@[j]@,
            decreases path@.len() - i,
        {
            r.push(path[i].clone());
            i = i + 1;
        }
        proof {
            assert(spec_segments(r@) =~= spec_apply_rename(spec_segments(path@), prefix@));
        }
        r
    }
}

/// A path with fewer than two segments comes back unchanged.
pub proof fn lemma_rename_short_path(path: Seq<Seq<char>>, prefix: Seq<char>)
    requires
        path.len() < 2,
    ensures
        spec_apply_rename(path, prefix) == path,
{
}

/// A path whose first segment holds no run of two consecutive digits comes
/// back unchanged.
pub proof fn lemma_rename_no_digit_run(path: Seq<Seq<char>>, prefix: Seq<char>)
    requires
        path.len() >= 2,
        spec_run_start(path[0]) == -1,
    ensures
        spec_apply_rename(path, prefix) == path,
{
    assert(spec_apply_rename(path, prefix) =~= path);
}

/// A path of at least two segments whose first segment holds a 2-3 digit
/// run has its first segment rebuilt as the prefix, a space, and the last
/// two digits of the first such run; every later segment is preserved.
pub proof fn lemma_rename_digit_run(path: Seq<Seq<char>>, prefix: Seq<char>)
    requires
        path.len() >= 2,
        spec_run_start(path[0]) >= 0,
    ensures
        spec_apply_rename(path, prefix).len() == path.len(),
        spec_apply_rename(path, prefix)[0] == prefix + seq![' '] + spec_run_last_two(path[0]),
        forall|j: int|
            1 <= j < path.len() ==> spec_apply_rename(path, prefix)[j] == path[j],
{
}

} // verus!
