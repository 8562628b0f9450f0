//! Sequences used as ordered sets: members are kept in the order in which
//! they were added, and a member is added at most once.

use vstd::prelude::*;

verus! {

/// The test that keeps everything but `x`.
pub open spec fn is_not<A>(x: A) -> spec_fn(A) -> bool {
    |y: A| y != x
}

/// `s` without every occurrence of `x`, the rest in order.
pub open spec fn without<A>(s: Seq<A>, x: A) -> Seq<A> {
    s.filter(is_not(x))
}

/// `s` with `x` as a member: added at the end unless it is there already.
pub open spec fn with_member<A>(s: Seq<A>, x: A) -> Seq<A> {
    if s.contains(x) {
        s
    } else {
        s.push(x)
    }
}

/// What remains after taking `x` out are the other members, and only they.
pub proof fn lemma_without_members<A>(s: Seq<A>, x: A)
    ensures
        !without(s, x).contains(x),
        forall|y: A| #[trigger] without(s, x).contains(y) <==> s.contains(y) && y != x,
    decreases s.len(),
{
    reveal(Seq::filter);
    if s.len() > 0 {
        let front = s.drop_last();
        lemma_without_members(front, x);
        assert forall|y: A| #[trigger] without(s, x).contains(y) <==> s.contains(y) && y != x by {
            let kept = without(s, x);
            if kept.contains(y) {
                let i = choose|i: int| 0 <= i < kept.len() && kept[i] == y;
                if s.last() != x && i == kept.len() - 1 {
                    assert(s[s.len() - 1] == y);
                } else {
                    assert(without(front, x)[i] == y);
                    assert(without(front, x).contains(y));
                    let j = choose|j: int| 0 <= j < front.len() && front[j] == y;
                    assert(s[j] == y);
                }
            }
            if s.contains(y) && y != x {
                let j = choose|j: int| 0 <= j < s.len() && s[j] == y;
                if j == s.len() - 1 {
                    assert(kept[kept.len() - 1] == y);
                } else {
                    assert(front[j] == y);
                    assert(without(front, x).contains(y));
                    let i = choose|i: int|
                        0 <= i < without(front, x).len() && without(front, x)[i] == y;
                    assert(kept[i] == y);
                }
            }
        }
        assert(!(s.contains(x) && x != x));
    } else {
        assert(without(s, x) =~= s);
    }
}

/// Taking out what is not there changes nothing.
pub proof fn lemma_without_absent<A>(s: Seq<A>, x: A)
    requires
        !s.contains(x),
    ensures
        without(s, x) == s,
    decreases s.len(),
{
    reveal(Seq::filter);
    if s.len() > 0 {
        let front = s.drop_last();
        assert(s[s.len() - 1] != x);
        assert forall|i: int| 0 <= i < front.len() implies front[i] != x by {
            assert(s[i] == front[i]);
        }
        lemma_without_absent(front, x);
        assert(front.push(s.last()) =~= s);
    }
}

/// Taking a member out keeps the others distinct if the members were.
pub proof fn lemma_without_no_duplicates<A>(s: Seq<A>, x: A)
    ensures
        s.no_duplicates() ==> without(s, x).no_duplicates(),
    decreases s.len(),
{
    reveal(Seq::filter);
    if s.len() > 0 && s.no_duplicates() {
        let front = s.drop_last();
        lemma_without_no_duplicates(front, x);
        lemma_without_members(front, x);
        if s.last() != x {
            let kept = without(front, x);
            if kept.contains(s.last()) {
                let j = choose|j: int| 0 <= j < front.len() && front[j] == s.last();
                assert(s[j] == s[s.len() - 1]);
            }
        }
    }
}

/// Taking out a member of a sequence without duplicates shortens it by one.
pub proof fn lemma_without_len<A>(s: Seq<A>, x: A)
    requires
        s.no_duplicates(),
    ensures
        without(s, x).len() == if s.contains(x) {
            s.len() - 1
        } else {
            s.len() as int
        },
    decreases s.len(),
{
    reveal(Seq::filter);
    if s.len() > 0 {
        let front = s.drop_last();
        lemma_without_len(front, x);
        if s.last() == x {
            if front.contains(x) {
                let j = choose|j: int| 0 <= j < front.len() && front[j] == x;
                assert(s[j] == s[s.len() - 1]);
            }
            assert(s[s.len() - 1] == x);
        } else {
            if s.contains(x) {
                let j = choose|j: int| 0 <= j < s.len() && s[j] == x;
                assert(front[j] == x);
            }
            if front.contains(x) {
                let j = choose|j: int| 0 <= j < front.len() && front[j] == x;
                assert(s[j] == x);
            }
        }
    }
}

/// Adding a member makes it one of the members and keeps the others, and
/// keeps the members distinct if they were.
pub proof fn lemma_with_member<A>(s: Seq<A>, x: A)
    ensures
        with_member(s, x).contains(x),
        forall|y: A| #[trigger] with_member(s, x).contains(y) <==> s.contains(y) || y == x,
        s.no_duplicates() ==> with_member(s, x).no_duplicates(),
{
    let grown = with_member(s, x);
    if !s.contains(x) {
        assert(grown[s.len() as int] == x);
        assert forall|y: A| #[trigger] grown.contains(y) <==> s.contains(y) || y == x by {
            if s.contains(y) {
                let j = choose|j: int| 0 <= j < s.len() && s[j] == y;
                assert(grown[j] == y);
            }
            if grown.contains(y) {
                let j = choose|j: int| 0 <= j < grown.len() && grown[j] == y;
                if j < s.len() {
                    assert(s[j] == y);
                }
            }
        }
    }
}

/// Whether `needle` is one of `values`.
pub fn contains_value(values: &Vec<u64>, needle: u64) -> (found: bool)
    ensures
        found == values@.contains(needle),
{
    let mut i: usize = 0;
    while i < values.len()
        invariant
            i <= values.len(),
            forall|j: int| 0 <= j < i ==> values@[j] != needle,
        decreases values.len() - i,
    {
        if values[i] == needle {
            return true;
        }
        i += 1;
    }
    false
}

/// The members of `values` other than `needle`, in order.
pub fn values_without(values: &Vec<u64>, needle: u64) -> (kept: Vec<u64>)
    ensures
        kept@ == without(values@, needle),
{
    let mut kept: Vec<u64> = Vec::new();
    let mut i: usize = 0;
    assert(values@.take(0) =~= Seq::<u64>::empty());
    proof {
        reveal(Seq::filter);
    }
    while i < values.len()
        invariant
            i <= values.len(),
            kept@ == without(values@.take(i as int), needle),
        decreases values.len() - i,
    {
        let ghost seen = values@.take(i as int);
        if values[i] != needle {
            kept.push(values[i]);
        }
        proof {
            assert(values@.take(i + 1) =~= seen.push(values@[i as int]));
            seen.lemma_filter_push(values@[i as int], is_not(needle));
        }
        i += 1;
    }
    assert(values@.take(i as int) =~= values@);
    kept
}

/// Whether `needle` is one of `ids`.
pub fn contains_id(ids: &Vec<String>, needle: &String) -> (found: bool)
    ensures
        found == ids.deep_view().contains(needle@),
{
    let mut i: usize = 0;
    while i < ids.len()
        invariant
            i <= ids.len(),
            forall|j: int| 0 <= j < i ==> ids.deep_view()[j] != needle@,
        decreases ids.len() - i,
    {
        if ids[i] == *needle {
            assert(ids.deep_view()[i as int] == needle@);
            return true;
        }
        i += 1;
    }
    false
}

/// Takes every occurrence of `needle` out of `ids`.
pub fn remove_id(ids: &mut Vec<String>, needle: &String)
    ensures
        final(ids).deep_view() == without(old(ids).deep_view(), needle@),
{
    let mut kept: Vec<String> = Vec::new();
    let mut i: usize = 0;
    assert(ids.deep_view().take(0) =~= Seq::<Seq<char>>::empty());
    proof {
        reveal(Seq::filter);
    }
    while i < ids.len()
        invariant
            i <= ids.len(),
            kept.deep_view() == without(ids.deep_view().take(i as int), needle@),
        decreases ids.len() - i,
    {
        let ghost before = kept.deep_view();
        let ghost seen = ids.deep_view().take(i as int);
        if ids[i] != *needle {
            kept.push(ids[i].clone());
            assert(kept.deep_view() =~= before.push(ids.deep_view()[i as int]));
        }
        proof {
            assert(ids.deep_view().take(i + 1) =~= seen.push(ids.deep_view()[i as int]));
            seen.lemma_filter_push(ids.deep_view()[i as int], is_not(needle@));
        }
        i += 1;
    }
    assert(ids.deep_view().take(i as int) =~= ids.deep_view());
    *ids = kept;
}

/// Adds `id` to `ids` unless it is one of them already.
pub fn insert_id(ids: &mut Vec<String>, id: String)
    ensures
        final(ids).deep_view() == with_member(old(ids).deep_view(), id@),
{
    if !contains_id(ids, &id) {
        let ghost before = ids.deep_view();
        ids.push(id);
        assert(ids.deep_view() =~= before.push(id@));
    }
}

/// A copy of `ids`.
pub fn copy_ids(ids: &Vec<String>) -> (copy: Vec<String>)
    ensures
        copy.deep_view() == ids.deep_view(),
{
    let mut copy: Vec<String> = Vec::new();
    let mut i: usize = 0;
    while i < ids.len()
        invariant
            i <= ids.len(),
            copy.deep_view() == ids.deep_view().take(i as int),
        decreases ids.len() - i,
    {
        let ghost before = copy.deep_view();
        copy.push(ids[i].clone());
        assert(copy.deep_view() =~= before.push(ids.deep_view()[i as int]));
        assert(ids.deep_view().take(i + 1) =~= before.push(ids.deep_view()[i as int]));
        i += 1;
    }
    assert(ids.deep_view().take(i as int) =~= ids.deep_view());
    copy
}

} // verus!
