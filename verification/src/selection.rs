//! The messages selected in the list: a set of UIDs, walked in ascending order.

use std::collections::BTreeSet;
use vstd::prelude::*;
use vstd::std_specs::cmp::OrdSpec;
use crate::imap::{MailHeader, MailHeaderModel};

verus! {

broadcast use {vstd::laws_cmp::group_laws_cmp, vstd::std_specs::btree::group_btree_axioms};

/// A list of UIDs in strictly ascending order.
pub open spec fn ascending(s: Seq<u32>) -> bool {
    forall|i: int, j: int| 0 <= i < j < s.len() ==> #[trigger] s[i] < #[trigger] s[j]
}

/// The members of a set of UIDs in ascending order.
pub open spec fn in_order(uids: Set<u32>) -> Seq<u32> {
    choose|s: Seq<u32>| ascending(s) && s.to_set() == uids
}

/// An ascending list is what the set of its members is walked as.
pub proof fn lemma_in_order(s: Seq<u32>)
    requires
        ascending(s),
    ensures
        in_order(s.to_set()) == s,
{
    let t = in_order(s.to_set());
    assert(ascending(t) && t.to_set() == s.to_set());
    lemma_ascending_is_unique(s, t);
}

/// Two ascending lists with the same members are the same list.
proof fn lemma_ascending_is_unique(s: Seq<u32>, t: Seq<u32>)
    requires
        ascending(s),
        ascending(t),
        s.to_set() == t.to_set(),
    ensures
        s == t,
    decreases s.len(),
{
    assert forall|u: u32|
        #![trigger s.contains(u)]
        #![trigger t.contains(u)]
        s.contains(u) <==> t.contains(u) by {
        assert(s.to_set().contains(u) == s.contains(u));
        assert(t.to_set().contains(u) == t.contains(u));
    }
    if s.len() == 0 {
        if t.len() > 0 {
            assert(t.contains(t[0]));
        }
        assert(s =~= t);
    } else {
        assert(s.contains(s.last()));
        assert(t.len() > 0);
        assert(t.contains(t.last()));
        assert(s.contains(t.last()));
        assert(t.contains(s.last()));
        let i = choose|i: int| 0 <= i < s.len() && s[i] == t.last();
        let j = choose|j: int| 0 <= j < t.len() && t[j] == s.last();
        assert(s.last() == t.last());
        let p = s.drop_last();
        let q = t.drop_last();
        assert forall|u: u32| p.to_set().contains(u) <==> q.to_set().contains(u) by {
            if p.contains(u) {
                let k = choose|k: int| 0 <= k < p.len() && p[k] == u;
                assert(s[k] == u && s[k] < s[s.len() - 1]);
                assert(s.contains(u));
                let m = choose|m: int| 0 <= m < t.len() && t[m] == u;
                assert(q[m] == u);
            }
            if q.contains(u) {
                let k = choose|k: int| 0 <= k < q.len() && q[k] == u;
                assert(t[k] == u && t[k] < t[t.len() - 1]);
                assert(t.contains(u));
                let m = choose|m: int| 0 <= m < s.len() && s[m] == u;
                assert(p[m] == u);
            }
        }
        assert(p.to_set() =~= q.to_set());
        lemma_ascending_is_unique(p, q);
        assert(s =~= p.push(s.last()));
        assert(t =~= q.push(t.last()));
    }
}

/// An ascending list with one more UID.
spec fn with_uid(s: Seq<u32>, uid: u32) -> Seq<u32>
    decreases s.len(),
{
    if s.len() == 0 || s.last() < uid {
        s.push(uid)
    } else if s.last() == uid {
        s
    } else {
        with_uid(s.drop_last(), uid).push(s.last())
    }
}

/// Adding a UID keeps the order and adds that one.
proof fn lemma_with_uid(s: Seq<u32>, uid: u32)
    requires
        ascending(s),
    ensures
        ascending(with_uid(s, uid)),
        forall|u: u32| #[trigger] with_uid(s, uid).contains(u) <==> s.contains(u) || u == uid,
    decreases s.len(),
{
    let out = with_uid(s, uid);
    if s.len() == 0 || s.last() < uid {
        assert(out[s.len() as int] == uid);
        assert forall|u: u32| #[trigger] out.contains(u) <==> s.contains(u) || u == uid by {
            if s.contains(u) {
                let k = choose|k: int| 0 <= k < s.len() && s[k] == u;
                assert(out[k] == u);
            }
        }
    } else if s.last() == uid {
        assert(s[s.len() - 1] == uid);
    } else {
        let head = s.drop_last();
        lemma_with_uid(head, uid);
        let inner = with_uid(head, uid);
        assert forall|i: int, j: int| 0 <= i < j < out.len() implies #[trigger] out[i]
            < #[trigger] out[j] by {
            if j == inner.len() {
                assert(inner.contains(out[i]));
                if head.contains(out[i]) {
                    let k = choose|k: int| 0 <= k < head.len() && head[k] == out[i];
                    assert(s[k] < s[s.len() - 1]);
                }
            }
        }
        assert forall|u: u32| #[trigger] out.contains(u) <==> s.contains(u) || u == uid by {
            if out.contains(u) {
                let k = choose|k: int| 0 <= k < out.len() && out[k] == u;
                if k < inner.len() {
                    assert(inner.contains(u));
                    if head.contains(u) {
                        let m = choose|m: int| 0 <= m < head.len() && head[m] == u;
                        assert(s[m] == u);
                    }
                } else {
                    assert(s[s.len() - 1] == u);
                }
            }
            if s.contains(u) {
                let k = choose|k: int| 0 <= k < s.len() && s[k] == u;
                if k < head.len() {
                    assert(head[k] == u);
                    assert(inner.contains(u));
                    let m = choose|m: int| 0 <= m < inner.len() && inner[m] == u;
                    assert(out[m] == u);
                } else {
                    assert(out[inner.len() as int] == u);
                }
            }
            if u == uid {
                assert(inner.contains(u));
                let m = choose|m: int| 0 <= m < inner.len() && inner[m] == u;
                assert(out[m] == u);
            }
        }
    }
}

/// A selection is walked in strictly ascending order: every message in it once,
/// and no other.
pub proof fn law_a_selection_is_walked_in_order(uids: Set<u32>)
    requires
        uids.finite(),
    ensures
        ascending(in_order(uids)),
        in_order(uids).to_set() == uids,
        in_order(uids).len() == uids.len(),
    decreases uids.len(),
{
    if uids.len() == 0 {
        let none: Seq<u32> = seq![];
        assert(none.to_set() =~= uids);
        assert(ascending(none));
    } else {
        let uid = uids.choose();
        let rest = uids.remove(uid);
        law_a_selection_is_walked_in_order(rest);
        lemma_with_uid(in_order(rest), uid);
        let s = with_uid(in_order(rest), uid);
        assert forall|u: u32| s.to_set().contains(u) <==> uids.contains(u) by {
            assert(s.contains(u) <==> in_order(rest).contains(u) || u == uid);
            assert(rest.contains(u) <==> in_order(rest).to_set().contains(u));
        }
        assert(s.to_set() =~= uids);
    }
    let walked = in_order(uids);
    assert(walked.no_duplicates());
    walked.unique_seq_to_set();
}

/// Adds a UID to the set.
pub fn insert_uid(uids: &mut BTreeSet<u32>, uid: u32)
    ensures
        final(uids)@ == old(uids)@.insert(uid),
{
    let _ = uids.insert(uid);
}

/// Takes a UID out of the set; tells whether it was in it.
pub fn remove_uid(uids: &mut BTreeSet<u32>, uid: u32) -> (r: bool)
    ensures
        final(uids)@ == old(uids)@.remove(uid),
        r == old(uids)@.contains(uid),
{
    uids.remove(&uid)
}

/// Whether the set holds a UID.
pub fn has_uid(uids: &BTreeSet<u32>, uid: u32) -> (r: bool)
    ensures
        r == uids@.contains(uid),
{
    uids.contains(&uid)
}

/// How many members the set has.
pub fn count(uids: &BTreeSet<u32>) -> (r: usize)
    ensures
        r == uids@.len(),
{
    assert(vstd::std_specs::btree::key_obeys_cmp_spec::<u32>());
    uids.len()
}

/// What an iterator that increases hands out is ascending.
proof fn lemma_increasing(uids: Seq<&u32>)
    requires
        vstd::std_specs::btree::increasing_seq(uids),
    ensures
        ascending(uids.unref()),
{
    assert(vstd::laws_cmp::obeys_cmp::<&u32>());
    assert forall|i: int, j: int| 0 <= i < j < uids.unref().len() implies #[trigger] uids.unref()[i]
        < #[trigger] uids.unref()[j] by {
        assert(OrdSpec::cmp_spec(&uids[i], &uids[j]) is Less);
    }
}

/// The members of the set in ascending order.
pub fn walk(uids: &BTreeSet<u32>) -> (r: Vec<u32>)
    ensures
        r@ == in_order(uids@),
        r@.len() == uids@.len(),
{
    let mut r: Vec<u32> = Vec::new();
    for uid in it: uids.iter()
        invariant
            r@ == it.seq().unref().take(it.index()),
            it.seq().unref().to_set() == uids@,
            it.seq().len() == uids@.len(),
            vstd::std_specs::btree::increasing_seq(it.seq()),
            ascending(r@),
            it.index() == it.seq().len() ==> r@ =~= it.seq().unref(),
    {
        r.push(*uid);
        proof {
            assert(it.seq().unref().take(it.index() + 1) =~= it.seq().unref().take(it.index()).push(*uid));
            lemma_increasing(it.seq());
        }
    }
    proof {
        lemma_in_order(r@);
    }
    r
}

/// The position of the first message with a UID, or -1.
pub open spec fn uid_index(list: Seq<MailHeaderModel>, uid: u32) -> int
    decreases list.len(),
{
    if list.len() == 0 {
        -1
    } else {
        let before = uid_index(list.drop_last(), uid);
        if before >= 0 {
            before
        } else if list.last().uid == uid {
            list.len() - 1
        } else {
            -1
        }
    }
}

/// What [`uid_index`] finds.
pub proof fn lemma_uid_index(list: Seq<MailHeaderModel>, uid: u32)
    ensures
        -1 <= uid_index(list, uid) < list.len(),
        uid_index(list, uid) >= 0 ==> list[uid_index(list, uid)].uid == uid,
        forall|i: int|
            0 <= i < list.len() && (i < uid_index(list, uid) || uid_index(list, uid) < 0) ==> (
            #[trigger] list[i]).uid != uid,
    decreases list.len(),
{
    if list.len() > 0 {
        lemma_uid_index(list.drop_last(), uid);
        assert forall|i: int|
            0 <= i < list.len() && (i < uid_index(list, uid) || uid_index(list, uid) < 0) implies (
        #[trigger] list[i]).uid != uid by {
            if i < list.len() - 1 {
                assert(list.drop_last()[i] == list[i]);
            }
        }
    }
}

/// A UID found in a prefix of the list is found at the same place in the list.
proof fn lemma_uid_index_stays(list: Seq<MailHeaderModel>, uid: u32, n: int)
    requires
        0 <= n <= list.len(),
        uid_index(list.take(n), uid) >= 0,
    ensures
        uid_index(list, uid) == uid_index(list.take(n), uid),
    decreases list.len(),
{
    if n == list.len() {
        assert(list.take(n) =~= list);
    } else {
        assert(list.drop_last().take(n) =~= list.take(n));
        lemma_uid_index_stays(list.drop_last(), uid, n);
    }
}

/// The position of the first message with a UID.
pub fn find_uid(list: &Vec<MailHeader>, uid: u32) -> (r: Option<usize>)
    ensures
        match r {
            Some(i) => i < list@.len() && uid_index(list.deep_view(), uid) == i,
            None => uid_index(list.deep_view(), uid) == -1,
        },
{
    let ghost all = list.deep_view();
    let mut i: usize = 0;
    assert(uid_index(all.take(0), uid) == -1);
    while i < list.len()
        invariant
            i <= list@.len(),
            all == list.deep_view(),
            uid_index(all.take(i as int), uid) == -1,
        decreases list@.len() - i,
    {
        assert(all.take(i + 1).drop_last() =~= all.take(i as int));
        if list[i].uid == uid {
            proof {
                assert(uid_index(all.take(i + 1), uid) == i);
                lemma_uid_index_stays(all, uid, i + 1);
            }
            return Some(i);
        }
        i += 1;
    }
    assert(all.take(all.len() as int) =~= all);
    None
}

/// The UIDs of the messages from position `lo` up to, not including, `hi`.
pub open spec fn uids_between(list: Seq<MailHeaderModel>, lo: int, hi: int) -> Set<u32> {
    list.subrange(lo, hi).map_values(|h: MailHeaderModel| h.uid).to_set()
}

/// The UIDs that a range selection from `anchor` to `uid` covers: every message
/// between the two, both included, or `uid` alone if either is not listed.
pub open spec fn range_of(list: Seq<MailHeaderModel>, anchor: u32, uid: u32) -> Set<u32> {
    let a = uid_index(list, anchor);
    let b = uid_index(list, uid);
    if a < 0 || b < 0 {
        set![uid]
    } else if a <= b {
        uids_between(list, a, b + 1)
    } else {
        uids_between(list, b, a + 1)
    }
}

/// The UIDs that a range selection from `anchor` to `uid` covers, in the order
/// of the list.
pub fn select_range(list: &Vec<MailHeader>, anchor: u32, uid: u32) -> (r: BTreeSet<u32>)
    ensures
        r@ == range_of(list.deep_view(), anchor, uid),
{
    let ghost all = list.deep_view();
    let mut r: BTreeSet<u32> = BTreeSet::new();
    match (find_uid(list, anchor), find_uid(list, uid)) {
        (Some(a), Some(b)) => {
            let (lo, hi): (usize, usize) = if a <= b {
                (a, b)
            } else {
                (b, a)
            };
            let n: usize = list.len();
            let mut i: usize = lo;
            proof {
                lemma_uids_between(all, lo as int, lo as int);
                assert(r@ =~= uids_between(all, lo as int, lo as int));
            }
            while i <= hi
                invariant
                    lo <= i <= hi + 1,
                    hi < n == list@.len(),
                    all == list.deep_view(),
                    r@ == uids_between(all, lo as int, i as int),
                decreases hi + 1 - i,
            {
                let ghost held = r@;
                insert_uid(&mut r, list[i].uid);
                proof {
                    lemma_uids_between(all, lo as int, i as int);
                    lemma_uids_between(all, lo as int, i + 1);
                    assert(all[i as int].uid == list@[i as int].uid);
                    assert forall|u: u32| r@.contains(u) implies uids_between(all, lo as int, i + 1).contains(
                        u,
                    ) by {
                        if held.contains(u) {
                            let k = choose|k: int| lo <= k < i && (#[trigger] all[k]).uid == u;
                            assert(all[k].uid == u);
                        } else {
                            assert(all[i as int].uid == u);
                        }
                    }
                    assert(r@ =~= uids_between(all, lo as int, i + 1));
                }
                i += 1;
            }
        },
        _ => {
            insert_uid(&mut r, uid);
            assert(r@ =~= set![uid]);
        },
    }
    r
}

/// Which UIDs stand in a part of the list.
proof fn lemma_uids_between(list: Seq<MailHeaderModel>, lo: int, hi: int)
    requires
        0 <= lo <= hi <= list.len(),
    ensures
        uids_between(list, lo, hi).finite(),
        forall|u: u32| #[trigger]
            uids_between(list, lo, hi).contains(u) <==> exists|i: int|
                lo <= i < hi && (#[trigger] list[i]).uid == u,
{
    let uids = list.subrange(lo, hi).map_values(|h: MailHeaderModel| h.uid);
    vstd::seq_lib::seq_to_set_is_finite(uids);
    assert forall|u: u32| #[trigger] uids_between(list, lo, hi).contains(u) <==> exists|i: int|
        lo <= i < hi && (#[trigger] list[i]).uid == u by {
        if uids.contains(u) {
            let k = choose|k: int| 0 <= k < uids.len() && uids[k] == u;
            assert(list[lo + k].uid == u);
        }
        if exists|i: int| lo <= i < hi && (#[trigger] list[i]).uid == u {
            let i = choose|i: int| lo <= i < hi && (#[trigger] list[i]).uid == u;
            assert(uids[i - lo] == u);
        }
    }
}

/// A range selection is a finite set, it holds both ends when both are listed,
/// and it is the same whichever end it was started from.
pub proof fn law_range_selection(list: Seq<MailHeaderModel>, anchor: u32, uid: u32)
    ensures
        range_of(list, anchor, uid).finite(),
        range_of(list, anchor, uid).contains(uid),
        uid_index(list, anchor) >= 0 && uid_index(list, uid) >= 0 ==> range_of(
            list,
            anchor,
            uid,
        ).contains(anchor) && range_of(list, anchor, uid) == range_of(list, uid, anchor),
{
    lemma_uid_index(list, anchor);
    lemma_uid_index(list, uid);
    let a = uid_index(list, anchor);
    let b = uid_index(list, uid);
    if a >= 0 && b >= 0 {
        let lo = if a <= b { a } else { b };
        let hi = if a <= b { b + 1 } else { a + 1 };
        lemma_uids_between(list, lo, hi);
        assert(list[a].uid == anchor);
        assert(list[b].uid == uid);
    }
}

} // verus!
