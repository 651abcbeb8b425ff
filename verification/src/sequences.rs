//! Facts about sequences that the repairs and the merge both use.

use vstd::prelude::*;

verus! {

/// A sequence with one more element at its end contains what it contained
/// before, and that element.
pub proof fn lemma_contains_after_push<A>(s: Seq<A>, last: A, needle: A)
    ensures
        s.push(last).contains(needle) <==> s.contains(needle) || last == needle,
{
    let longer = s.push(last);
    if s.contains(needle) {
        let i = choose|i: int| 0 <= i < s.len() && s[i] == needle;
        assert(longer[i] == needle);
    }
    if last == needle {
        assert(longer[s.len() as int] == needle);
    }
    if longer.contains(needle) {
        let i = choose|i: int| 0 <= i < longer.len() && longer[i] == needle;
        if i < s.len() {
            assert(s[i] == needle);
        }
    }
}

/// Whether `index` is where `id` first occurs among `ids`.
pub open spec fn is_first_at(ids: Seq<u32>, id: u32, index: int) -> bool {
    &&& 0 <= index < ids.len()
    &&& ids[index] == id
    &&& forall|k: int| 0 <= k < index ==> ids[k] != id
}

/// Where `id` first occurs among `ids`, if it occurs at all.
pub open spec fn first_index_of(ids: Seq<u32>, id: u32) -> Option<int> {
    if exists|index: int| is_first_at(ids, id, index) {
        Some(choose|index: int| is_first_at(ids, id, index))
    } else {
        None
    }
}

/// The first index at which an id occurs is the only one that
/// [`first_index_of`] gives, and it gives none exactly where the id does
/// not occur.
pub proof fn lemma_first_index_of(ids: Seq<u32>, id: u32)
    ensures
        match first_index_of(ids, id) {
            Some(index) => is_first_at(ids, id, index),
            None => !ids.contains(id),
        },
        forall|index: int| is_first_at(ids, id, index) ==> first_index_of(ids, id) == Some(index),
{
    if ids.contains(id) {
        lemma_has_first(ids, id, ids.len());
    }
    assert forall|index: int| is_first_at(ids, id, index) implies first_index_of(ids, id) == Some(
        index,
    ) by {
        let chosen = choose|other: int| is_first_at(ids, id, other);
        assert(is_first_at(ids, id, chosen));
        if chosen < index {
            assert(ids[chosen] != id);
        }
        if index < chosen {
            assert(ids[index] != id);
        }
    }
}

proof fn lemma_has_first(ids: Seq<u32>, id: u32, upto: nat)
    requires
        upto <= ids.len(),
        exists|k: int| 0 <= k < upto && ids[k] == id,
    ensures
        exists|index: int| is_first_at(ids, id, index),
    decreases upto,
{
    if exists|k: int| 0 <= k < upto - 1 && ids[k] == id {
        lemma_has_first(ids, id, (upto - 1) as nat);
    } else {
        assert(ids[upto - 1] == id);
        assert(is_first_at(ids, id, upto - 1));
    }
}

/// Where `id` last occurs among the first `upto` of the ids, if it occurs
/// there at all.
pub open spec fn last_index_of(ids: Seq<u32>, id: u32, upto: nat) -> Option<int>
    decreases upto,
{
    if upto == 0 {
        None
    } else if ids[upto - 1] == id {
        Some(upto - 1)
    } else {
        last_index_of(ids, id, (upto - 1) as nat)
    }
}

/// The sequence with the elements at the two indices exchanged.
pub open spec fn swapped<A>(s: Seq<A>, i: int, j: int) -> Seq<A> {
    s.update(i, s[j]).update(j, s[i])
}

} // verus!
