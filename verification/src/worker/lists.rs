//! Lists that stand for sets: members are added once and taken out
//! wherever they stand.

use vstd::prelude::*;

verus! {

/// `members` with `member` among them: added at the end where it is new.
pub open spec fn with_member<T>(members: Seq<T>, member: T) -> Seq<T> {
    if members.contains(member) {
        members
    } else {
        members.push(member)
    }
}

/// What differs from `member`.
pub open spec fn other_than<T>(member: T) -> spec_fn(T) -> bool {
    |m: T| m != member
}

/// `members` without `member`.
pub open spec fn without_member<T>(members: Seq<T>, member: T) -> Seq<T> {
    members.filter(other_than(member))
}

/// `with_member` brings `member` in, keeps every other member, and brings in
/// no duplicate.
pub proof fn lemma_with_member<T>(members: Seq<T>, member: T)
    ensures
        with_member(members, member).contains(member),
        forall|m: T| members.contains(m) ==> #[trigger] with_member(members, member).contains(m),
        forall|m: T|
            #[trigger] with_member(members, member).contains(m) ==> m == member
                || members.contains(m),
        members.no_duplicates() ==> with_member(members, member).no_duplicates(),
        with_member(members, member).len() > 0,
{
    let grown = with_member(members, member);
    if !members.contains(member) {
        assert(grown[members.len() as int] == member);
        assert forall|m: T| members.contains(m) implies #[trigger] grown.contains(m) by {
            let i = choose|i: int| 0 <= i < members.len() && members[i] == m;
            assert(grown[i] == m);
        }
        assert forall|m: T| #[trigger] grown.contains(m) implies m == member || members.contains(
            m,
        ) by {
            let i = choose|i: int| 0 <= i < grown.len() && grown[i] == m;
            if i < members.len() {
                assert(members[i] == m);
            }
        }
        if members.no_duplicates() {
            assert forall|a: int, b: int|
                0 <= a < grown.len() && 0 <= b < grown.len() && a != b implies grown[a]
                != grown[b] by {
                if a == members.len() {
                    assert(members.contains(grown[b]));
                }
                if b == members.len() {
                    assert(members.contains(grown[a]));
                }
            }
        }
    } else {
        let i = choose|i: int| 0 <= i < members.len() && members[i] == member;
    }
}

/// `without_member` takes out `member`, keeps every other member where it
/// stood relative to the rest, and brings in no duplicate.
pub proof fn lemma_without_member<T>(members: Seq<T>, member: T)
    ensures
        !without_member(members, member).contains(member),
        forall|m: T|
            m != member ==> (#[trigger] without_member(members, member).contains(m)
                <==> members.contains(m)),
        members.no_duplicates() ==> without_member(members, member).no_duplicates(),
        !members.contains(member) ==> without_member(members, member) == members,
        without_member(members, member).len() <= members.len(),
    decreases members.len(),
{
    reveal(Seq::filter);
    let kept = without_member(members, member);
    if members.len() > 0 {
        let front = members.drop_last();
        let last = members.last();
        lemma_without_member(front, member);
        let kept_front = without_member(front, member);
        assert forall|m: T| m != member implies (#[trigger] kept.contains(m) <==> members.contains(
            m,
        )) by {
            if kept.contains(m) {
                let i = choose|i: int| 0 <= i < kept.len() && kept[i] == m;
                if last != member && i == kept.len() - 1 {
                    assert(members[members.len() - 1] == m);
                } else {
                    assert(kept_front[i] == m);
                    assert(kept_front.contains(m));
                    let j = choose|j: int| 0 <= j < front.len() && front[j] == m;
                    assert(members[j] == m);
                }
            }
            if members.contains(m) {
                let j = choose|j: int| 0 <= j < members.len() && members[j] == m;
                if j == members.len() - 1 {
                    assert(kept[kept.len() - 1] == m);
                } else {
                    assert(front[j] == m);
                    assert(kept_front.contains(m));
                    let i = choose|i: int| 0 <= i < kept_front.len() && kept_front[i] == m;
                    assert(kept[i] == m);
                }
            }
        }
        if kept.contains(member) {
            let i = choose|i: int| 0 <= i < kept.len() && kept[i] == member;
            if last != member && i == kept.len() - 1 {
            } else {
                assert(kept_front[i] == member);
                assert(kept_front.contains(member));
            }
        }
        if members.no_duplicates() {
            assert(front.no_duplicates());
            if last != member {
                assert forall|a: int, b: int|
                    0 <= a < kept.len() && 0 <= b < kept.len() && a != b implies kept[a]
                    != kept[b] by {
                    if a == kept.len() - 1 || b == kept.len() - 1 {
                        let c = if a == kept.len() - 1 { b } else { a };
                        assert(kept_front[c] == kept[c]);
                        assert(kept_front.contains(kept[c]));
                        assert(front.contains(kept[c]));
                        let j = choose|j: int| 0 <= j < front.len() && front[j] == kept[c];
                        assert(members[j] == kept[c]);
                    } else {
                        assert(kept_front[a] == kept[a]);
                        assert(kept_front[b] == kept[b]);
                    }
                }
            }
        }
        if !members.contains(member) {
            assert(!front.contains(member)) by {
                if front.contains(member) {
                    let j = choose|j: int| 0 <= j < front.len() && front[j] == member;
                    assert(members[j] == member);
                }
            }
            assert(members[members.len() - 1] == last);
            assert(kept =~= members);
        }
    }
}

/// Taking the first member out of a list without duplicates leaves the rest
/// as it stands.
pub proof fn lemma_without_first<T>(members: Seq<T>)
    requires
        members.len() > 0,
        members.no_duplicates(),
    ensures
        without_member(members, members[0]) == members.skip(1),
{
    let first = members[0];
    let rest = members.skip(1);
    let empty = Seq::<T>::empty();
    assert(!rest.contains(first)) by {
        if rest.contains(first) {
            let j = choose|j: int| 0 <= j < rest.len() && rest[j] == first;
            assert(members[j + 1] == first);
        }
    }
    lemma_without_member(rest, first);
    lemma_without_member(empty, first);
    assert(without_member(empty, first) =~= empty);
    empty.lemma_filter_push(first, other_than(first));
    assert(empty.push(first) + rest =~= members);
    Seq::filter_distributes_over_add(empty.push(first), rest, other_than(first));
    assert(empty + rest =~= rest);
}

/// The first `i + 1` members of a list without duplicates are its first `i`
/// members and the member at `i`, which is not among those.
pub proof fn lemma_take_grows<T>(members: Seq<T>, i: int)
    requires
        0 <= i < members.len(),
    ensures
        forall|m: T|
            #[trigger] members.take(i + 1).contains(m) <==> m == members[i] || members.take(
                i,
            ).contains(m),
        members.no_duplicates() ==> !members.take(i).contains(members[i]),
{
    let done = members.take(i);
    let more = members.take(i + 1);
    assert forall|m: T| #[trigger] more.contains(m) <==> m == members[i] || done.contains(m) by {
        if more.contains(m) {
            let j = choose|j: int| 0 <= j < more.len() && more[j] == m;
            if j < i {
                assert(done[j] == m);
            }
        }
        if done.contains(m) {
            let j = choose|j: int| 0 <= j < done.len() && done[j] == m;
            assert(more[j] == m);
        }
        if m == members[i] {
            assert(more[i] == m);
        }
    }
    if members.no_duplicates() && done.contains(members[i]) {
        let j = choose|j: int| 0 <= j < done.len() && done[j] == members[i];
        assert(members[j] == members[i]);
    }
}

/// Adds `member` to `members` unless it is among them.
pub(crate) fn add_member(members: &mut Vec<usize>, member: usize)
    ensures
        final(members)@ == with_member(old(members)@, member),
{
    let mut i: usize = 0;
    while i < members.len()
        invariant
            i <= members@.len(),
            *members == *old(members),
            forall|j: int| 0 <= j < i ==> members@[j] != member,
        decreases members@.len() - i,
    {
        if members[i] == member {
            return ;
        }
        i = i + 1;
    }
    members.push(member);
}

/// Adds `track` to `tracks` unless it is among them.
pub(crate) fn add_track(tracks: &mut Vec<u64>, track: u64)
    ensures
        final(tracks)@ == with_member(old(tracks)@, track),
{
    let mut i: usize = 0;
    while i < tracks.len()
        invariant
            i <= tracks@.len(),
            *tracks == *old(tracks),
            forall|j: int| 0 <= j < i ==> tracks@[j] != track,
        decreases tracks@.len() - i,
    {
        if tracks[i] == track {
            return ;
        }
        i = i + 1;
    }
    tracks.push(track);
}

/// Takes `member` out of `members`, wherever it stands.
pub(crate) fn drop_member(members: &mut Vec<usize>, member: usize)
    ensures
        final(members)@ == without_member(old(members)@, member),
{
    let mut kept: Vec<usize> = Vec::new();
    let mut i: usize = 0;
    proof {
        reveal(Seq::filter);
        assert(members@.take(0) =~= Seq::<usize>::empty());
    }
    while i < members.len()
        invariant
            i <= members@.len(),
            *members == *old(members),
            kept@ == without_member(members@.take(i as int), member),
        decreases members@.len() - i,
    {
        proof {
            members@.take(i as int).lemma_filter_push(members@[i as int], other_than(member));
            assert(members@.take(i as int).push(members@[i as int]) =~= members@.take(i + 1));
        }
        if members[i] != member {
            kept.push(members[i]);
        }
        i = i + 1;
    }
    assert(members@.take(i as int) =~= members@);
    *members = kept;
}

} // verus!
