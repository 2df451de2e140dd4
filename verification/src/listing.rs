//! Shallow directory listing: hidden entries are dropped and the rest are
//! sorted by name.  The order is lexicographic over the names' characters,
//! the order the byte-wise name comparison of the listing's consumers
//! observes.  The result holds exactly the visible input entries: sorting
//! preserves the multiset of entries.
use vstd::prelude::*;
use vstd::seq_lib::lemma_multiset_commutative;
use vstd::seq_lib::group_to_multiset_ensures;
use vstd::multiset::group_multiset_axioms;
use vstd::string::StrSliceExecFns;
use crate::media::spec_is_hidden_name;
use crate::media::is_hidden_name;

verus! {

/// One entry of a shallow directory listing.  For a directory,
/// `file_count` is the recursive count of eligible media files under it;
/// for anything else it is zero.
pub struct DirectoryEntry {
    pub name: String,
    pub path: String,
    pub is_directory: bool,
    pub file_count: u32,
}

/// Lexicographic order on names, character by character.
pub open spec fn spec_lex_leq(a: Seq<char>, b: Seq<char>) -> bool
    decreases a.len(),
{
    if a.len() == 0 {
        true
    } else if b.len() == 0 {
        false
    } else if (a[0] as u32) < (b[0] as u32) {
        true
    } else if (a[0] as u32) > (b[0] as u32) {
        false
    } else {
        spec_lex_leq(a.drop_first(), b.drop_first())
    }
}

/// The lexicographic order is total: of any two names, one is less than
/// or equal to the other.
pub proof fn lemma_lex_total(a: Seq<char>, b: Seq<char>)
    ensures
        spec_lex_leq(a, b) || spec_lex_leq(b, a),
    decreases a.len(),
{
    if a.len() > 0 && b.len() > 0 && !((a[0] as u32) < (b[0] as u32)) && !((a[0] as u32) > (
    b[0] as u32)) {
        lemma_lex_total(a.drop_first(), b.drop_first());
    }
}

/// Compare two names in lexicographic order.
pub fn str_lex_leq(a: &str, b: &str) -> (r: bool)
    ensures
        r == spec_lex_leq(a@, b@),
{
    let an = a.unicode_len();
    let bn = b.unicode_len();
    let mut i: usize = 0;
    proof {
        assert(a@.skip(0) =~= a@);
        assert(b@.skip(0) =~= b@);
    }
    loop
        invariant
            0 <= i <= an,
            0 <= i <= bn,
            an == a@.len(),
            bn == b@.len(),
            spec_lex_leq(a@, b@) == spec_lex_leq(a@.skip(i as int), b@.skip(i as int)),
        decreases an - i,
    {
        if i >= an {
            return true;
        }
        if i >= bn {
            return false;
        }
        let ca = a.get_char(i) as u32;
        let cb = b.get_char(i) as u32;
        if ca < cb {
            return true;
        }
        if ca > cb {
            return false;
        }
        proof {
            assert(a@.skip(i as int).drop_first() =~= a@.skip(i + 1));
            assert(b@.skip(i as int).drop_first() =~= b@.skip(i + 1));
        }
        i = i + 1;
    }
}

/// A listing is sorted when each adjacent pair of names is in order.
pub open spec fn spec_sorted_by_name(s: Seq<DirectoryEntry>) -> bool {
    forall|k: int| 0 <= k < s.len() - 1 ==> spec_lex_leq(#[trigger] s[k].name@, s[k + 1].name@)
}

/// The visible entries of a listing: those whose names are not hidden.
pub open spec fn spec_visible_entries(s: Seq<DirectoryEntry>) -> Seq<DirectoryEntry> {
    s.filter(|e: DirectoryEntry| !spec_is_hidden_name(e.name@))
}

/// Inserting anywhere into a sequence inserts into its multiset.
proof fn lemma_insert_to_multiset<A>(s: Seq<A>, p: int, e: A)
    requires
        0 <= p <= s.len(),
    ensures
        s.insert(p, e).to_multiset() == s.to_multiset().insert(e),
{
    broadcast use group_to_multiset_ensures;
    broadcast use group_multiset_axioms;

    let head = s.subrange(0, p);
    let tail = s.subrange(p, s.len() as int);
    assert(s =~= head + tail);
    lemma_multiset_commutative(head.push(e), tail);
    lemma_multiset_commutative(head, tail);
    assert(s.insert(p, e).to_multiset() =~= s.to_multiset().insert(e));
}

/// The position the entry takes in a listing sorted by name: past every
/// name at or below its own.
fn find_insert_pos(v: &Vec<DirectoryEntry>, e: &DirectoryEntry) -> (p: usize)
    ensures
        0 <= p <= v@.len(),
        forall|j: int| 0 <= j < p ==> spec_lex_leq(#[trigger] v@[j].name@, e.name@),
        p < v@.len() ==> spec_lex_leq(e.name@, v@[p as int].name@),
{
    let mut p: usize = 0;
    while p < v.len() && !str_lex_leq(e.name.as_str(), v[p].name.as_str())
        invariant
            0 <= p <= v@.len(),
            forall|j: int| 0 <= j < p ==> spec_lex_leq(#[trigger] v@[j].name@, e.name@),
        decreases v@.len() - p,
    {
        proof {
            lemma_lex_total(e.name@, v@[p as int].name@);
        }
        p = p + 1;
    }
    p
}

/// Insert one entry into a listing kept sorted by name.
fn insert_sorted(v: &mut Vec<DirectoryEntry>, e: DirectoryEntry)
    requires
        spec_sorted_by_name(old(v)@),
    ensures
        spec_sorted_by_name(final(v)@),
        final(v)@.to_multiset() == old(v)@.to_multiset().insert(e),
{
    let p = find_insert_pos(v, &e);
    let ghost pos: int = p as int;
    let ghost prev = v@;
    v.insert(p, e);
    proof {
        lemma_insert_to_multiset(prev, pos, e);
        assert(v@ =~= prev.subrange(0, pos).push(e) + prev.subrange(pos, prev.len() as int));
        assert forall|k: int| 0 <= k < v@.len() - 1 implies spec_lex_leq(
            #[trigger] v@[k].name@,
            v@[k + 1].name@,
        ) by {
            if k + 1 < pos {
                assert(v@[k] == prev[k] && v@[k + 1] == prev[k + 1]);
            } else if k + 1 == pos {
                assert(v@[k] == prev[k] && v@[k + 1] == e);
            } else if k == pos {
                assert(v@[k] == e && v@[k + 1] == prev[k]);
            } else {
                assert(v@[k] == prev[k - 1] && v@[k + 1] == prev[k]);
            }
        }
    }
}

/// Build the listing handed to the caller: drop the hidden entries and
/// sort the rest by name.  The result holds exactly the visible input
/// entries.
pub fn build_directory_listing(entries: Vec<DirectoryEntry>) -> (r: Vec<DirectoryEntry>)
    ensures
        spec_sorted_by_name(r@),
        r@.to_multiset() == spec_visible_entries(entries@).to_multiset(),
        r@.len() == spec_visible_entries(entries@).len(),
{
    broadcast use group_to_multiset_ensures;
    broadcast use group_multiset_axioms;

    let mut rest = entries;
    let mut r: Vec<DirectoryEntry> = Vec::new();
    proof {
        assert(spec_visible_entries(rest@).to_multiset().add(r@.to_multiset())
            =~= spec_visible_entries(rest@).to_multiset());
    }
    while rest.len() > 0
        invariant
            spec_sorted_by_name(r@),
            spec_visible_entries(entries@).to_multiset() == spec_visible_entries(
                rest@,
            ).to_multiset().add(r@.to_multiset()),
        decreases rest@.len(),
    {
        broadcast use group_to_multiset_ensures;
        broadcast use group_multiset_axioms;

        let ghost before = rest@;
        let e = match rest.pop() {
            Some(e) => e,
            None => unreached(),
        };
        proof {
            reveal(Seq::filter);
            assert(before.drop_last() =~= rest@);
            assert(before.last() == e);
            assert(spec_visible_entries(before) == (if !spec_is_hidden_name(e.name@) {
                spec_visible_entries(rest@).push(e)
            } else {
                spec_visible_entries(rest@)
            }));
        }
        if !is_hidden_name(e.name.as_str()) {
            proof {
                assert(spec_visible_entries(before).to_multiset() =~= spec_visible_entries(
                    rest@,
                ).to_multiset().insert(e));
            }
            insert_sorted(&mut r, e);
            proof {
                assert(spec_visible_entries(entries@).to_multiset() =~= spec_visible_entries(
                    rest@,
                ).to_multiset().add(r@.to_multiset()));
            }
        }
    }
    proof {
        reveal(Seq::filter);
        assert(spec_visible_entries(rest@) =~= Seq::<DirectoryEntry>::empty());
        assert(spec_visible_entries(entries@).to_multiset() =~= r@.to_multiset());
        assert(r@.to_multiset().len() == r@.len());
        assert(spec_visible_entries(entries@).to_multiset().len() == spec_visible_entries(
            entries@,
        ).len());
    }
    r
}

} // verus!
