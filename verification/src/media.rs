//! MediaFilter: decides whether a filesystem entry is an eligible media
//! file.  An entry is eligible iff it is not a directory, its name does not
//! begin with the hidden-file marker `.`, and its extension (the characters
//! after the last `.` in the name) matches `jpg` or `jpeg` case-insensitively.
use vstd::prelude::*;
use vstd::string::StrSliceExecFns;

verus! {

/// A character is an ASCII decimal digit.
pub open spec fn spec_is_digit(c: char) -> bool {
    48 <= c as u32 <= 57
}

/// Executable digit test, equal to the spec-level one.
pub fn is_digit_char(c: char) -> (r: bool)
    ensures
        r == spec_is_digit(c),
{
    let u = c as u32;
    48 <= u && u <= 57
}

/// `c` is the ASCII letter `lower` in either case; `lower` is expected to be
/// a lowercase ASCII letter.
pub open spec fn spec_is_letter_ci(c: char, lower: char) -> bool {
    c as u32 == lower as u32 || c as u32 + 32 == lower as u32
}

/// Executable case-insensitive letter test, equal to the spec-level one.
pub fn is_letter_ci(c: char, lower: char) -> (r: bool)
    ensures
        r == spec_is_letter_ci(c, lower),
{
    let cu = c as u32;
    let lu = lower as u32;
    cu == lu || cu + 32 == lu
}

/// A name is hidden iff it begins with `.`.
pub open spec fn spec_is_hidden_name(name: Seq<char>) -> bool {
    name.len() > 0 && name[0] == '.'
}

/// Executable hidden-name test, equal to the spec-level one.
pub fn is_hidden_name(name: &str) -> (r: bool)
    ensures
        r == spec_is_hidden_name(name@),
{
    let n = name.unicode_len();
    n > 0 && name.get_char(0) == '.'
}

/// Index of the last `.` in `name`, or -1 if `name` holds no `.`.
pub open spec fn spec_last_dot(name: Seq<char>) -> int
    decreases name.len(),
{
    if name.len() == 0 {
        -1
    } else if name[name.len() - 1] == '.' {
        name.len() - 1
    } else {
        spec_last_dot(name.drop_last())
    }
}

/// The last-dot index is in range, points at a `.`, and no `.` follows it.
pub proof fn lemma_last_dot_props(name: Seq<char>)
    ensures
        -1 <= spec_last_dot(name) < name.len(),
        spec_last_dot(name) >= 0 ==> name[spec_last_dot(name)] == '.',
    decreases name.len(),
{
    if name.len() > 0 && name[name.len() - 1] != '.' {
        lemma_last_dot_props(name.drop_last());
    }
}

/// Executable search for the last `.`; agrees with `spec_last_dot`.
pub fn find_last_dot(name: &str) -> (r: Option<usize>)
    ensures
        match r {
            Some(i) => i == spec_last_dot(name@),
            None => spec_last_dot(name@) == -1,
        },
{
    let n = name.unicode_len();
    let mut i: usize = n;
    proof {
        assert(name@.take(n as int) =~= name@);
    }
    loop
        invariant
            0 <= i <= n,
            n == name@.len(),
            spec_last_dot(name@) == spec_last_dot(name@.take(i as int)),
        decreases i,
    {
        if i == 0 {
            return None;
        }
        let c = name.get_char(i - 1);
        if c == '.' {
            proof {
                assert(name@.take(i as int).last() == name@[i - 1]);
            }
            return Some(i - 1);
        }
        proof {
            assert(name@.take(i as int).drop_last() =~= name@.take(i as int - 1));
        }
        i = i - 1;
    }
}

/// The extension of a name: the characters after its last `.`.
pub open spec fn spec_extension(name: Seq<char>) -> Seq<char> {
    name.subrange(spec_last_dot(name) + 1, name.len() as int)
}

/// The extension set this system ingests: `jpg` in any letter case.
pub open spec fn spec_matches_jpg(e: Seq<char>) -> bool {
    e.len() == 3 && spec_is_letter_ci(e[0], 'j') && spec_is_letter_ci(e[1], 'p')
        && spec_is_letter_ci(e[2], 'g')
}

/// The extension set this system ingests: `jpeg` in any letter case.
pub open spec fn spec_matches_jpeg(e: Seq<char>) -> bool {
    e.len() == 4 && spec_is_letter_ci(e[0], 'j') && spec_is_letter_ci(e[1], 'p')
        && spec_is_letter_ci(e[2], 'e') && spec_is_letter_ci(e[3], 'g')
}

/// An entry is eligible iff it is a non-hidden, non-directory entry whose
/// extension matches the eligible set.
pub open spec fn spec_is_eligible(name: Seq<char>, is_directory: bool) -> bool {
    &&& !is_directory
    &&& !spec_is_hidden_name(name)
    &&& spec_last_dot(name) >= 0
    &&& (spec_matches_jpg(spec_extension(name)) || spec_matches_jpeg(spec_extension(name)))
}

/// Executable eligibility test, equal to the spec-level one.
pub fn is_eligible_media_name(name: &str, is_directory: bool) -> (r: bool)
    ensures
        r == spec_is_eligible(name@, is_directory),
{
    if is_directory {
        return false;
    }
    if is_hidden_name(name) {
        return false;
    }
    let n = name.unicode_len();
    let dot = match find_last_dot(name) {
        Some(i) => i,
        None => {
            return false;
        },
    };
    proof {
        lemma_last_dot_props(name@);
    }
    let ext = name.substring_char(dot + 1, n);
    let e = n - (dot + 1);
    if e == 3 {
        is_letter_ci(ext.get_char(0), 'j') && is_letter_ci(ext.get_char(1), 'p')
            && is_letter_ci(ext.get_char(2), 'g')
    } else if e == 4 {
        is_letter_ci(ext.get_char(0), 'j') && is_letter_ci(ext.get_char(1), 'p')
            && is_letter_ci(ext.get_char(2), 'e') && is_letter_ci(ext.get_char(3), 'g')
    } else {
        false
    }
}

/// One filesystem entry as the walk hands it over: its base name and
/// whether it is a directory.
pub struct FileEntry {
    pub name: String,
    pub is_directory: bool,
}

/// How many of the entries are eligible media files.
pub open spec fn spec_count_eligible(entries: Seq<FileEntry>) -> nat
    decreases entries.len(),
{
    if entries.len() == 0 {
        0
    } else {
        spec_count_eligible(entries.drop_last()) + if spec_is_eligible(
            entries.last().name@,
            entries.last().is_directory,
        ) {
            1nat
        } else {
            0nat
        }
    }
}

/// The count never exceeds the number of entries.
pub proof fn lemma_count_eligible_bound(entries: Seq<FileEntry>)
    ensures
        spec_count_eligible(entries) <= entries.len(),
    decreases entries.len(),
{
    if entries.len() > 0 {
        lemma_count_eligible_bound(entries.drop_last());
    }
}

/// Count the eligible media files among the entries of one walk.
pub fn count_eligible(entries: &Vec<FileEntry>) -> (n: u32)
    requires
        entries@.len() <= u32::MAX,
    ensures
        n == spec_count_eligible(entries@),
{
    let mut n: u32 = 0;
    let mut i: usize = 0;
    proof {
        assert(entries@.take(0) =~= Seq::<FileEntry>::empty());
    }
    while i < entries.len()
        invariant
            0 <= i <= entries@.len() <= u32::MAX,
            n == spec_count_eligible(entries@.take(i as int)),
        decreases entries@.len() - i,
    {
        proof {
            assert(entries@.take(i + 1).drop_last() =~= entries@.take(i as int));
            assert(entries@.take(i + 1).last() == entries@[i as int]);
            lemma_count_eligible_bound(entries@.take(i + 1));
        }
        if is_eligible_media_name(entries[i].name.as_str(), entries[i].is_directory) {
            n = n + 1;
        }
        i = i + 1;
    }
    proof {
        assert(entries@.take(entries@.len() as int) =~= entries@);
    }
    n
}

} // verus!
