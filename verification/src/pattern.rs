//! Occurrences of a pattern in a sequence, and splitting a sequence on them.

use vstd::prelude::*;

verus! {

/// `pat` stands in `s` at offset `i`.
pub open spec fn occurs_at<T>(s: Seq<T>, pat: Seq<T>, i: int) -> bool {
    &&& 0 <= i
    &&& i + pat.len() <= s.len()
    &&& s.subrange(i, i + pat.len()) == pat
}

/// `pat` stands in `s` at offset `i` and at no smaller offset.
pub open spec fn is_first_occurrence<T>(s: Seq<T>, pat: Seq<T>, i: int) -> bool {
    &&& occurs_at(s, pat, i)
    &&& forall|j: int| 0 <= j < i ==> !occurs_at(s, pat, j)
}

/// The smallest offset at which `pat` stands in `s`, if there is one.
pub open spec fn first_occurrence<T>(s: Seq<T>, pat: Seq<T>) -> Option<int> {
    if exists|i: int| is_first_occurrence(s, pat, i) {
        Some(choose|i: int| is_first_occurrence(s, pat, i))
    } else {
        None
    }
}

/// The pieces of `s` between the occurrences of `pat`, found from the left
/// and without overlap. There is always at least one piece; a pattern at the
/// very end leaves an empty last piece.
pub open spec fn split_on<T>(s: Seq<T>, pat: Seq<T>) -> Seq<Seq<T>>
    decreases s.len(),
{
    match first_occurrence(s, pat) {
        Some(i) => if pat.len() > 0 && 0 <= i && i + pat.len() <= s.len() {
            seq![s.take(i)] + split_on(s.skip(i + pat.len()), pat)
        } else {
            seq![s]
        },
        None => seq![s],
    }
}

/// A first occurrence is the first occurrence.
pub proof fn lemma_first_occurrence_is<T>(s: Seq<T>, pat: Seq<T>, i: int)
    requires
        is_first_occurrence(s, pat, i),
    ensures
        first_occurrence(s, pat) == Some(i),
{
    let k = choose|k: int| is_first_occurrence(s, pat, k);
    if k < i {
        assert(!occurs_at(s, pat, k));
    } else if i < k {
        assert(!occurs_at(s, pat, i));
    }
}

/// Where `pat` stands somewhere in `s`, it has a first occurrence, and that
/// one is not behind the given one.
pub proof fn lemma_occurrence_has_first<T>(s: Seq<T>, pat: Seq<T>, i: int)
    requires
        occurs_at(s, pat, i),
    ensures
        first_occurrence(s, pat) is Some,
        0 <= first_occurrence(s, pat)->0 <= i,
        is_first_occurrence(s, pat, first_occurrence(s, pat)->0),
    decreases i,
{
    if exists|j: int| 0 <= j < i && occurs_at(s, pat, j) {
        let j = choose|j: int| 0 <= j < i && occurs_at(s, pat, j);
        lemma_occurrence_has_first(s, pat, j);
    } else {
        assert(is_first_occurrence(s, pat, i));
        lemma_first_occurrence_is(s, pat, i);
    }
}

/// There is no first occurrence exactly when `pat` stands nowhere in `s`.
pub proof fn lemma_first_occurrence_none<T>(s: Seq<T>, pat: Seq<T>)
    ensures
        first_occurrence(s, pat) is None <==> forall|i: int| !occurs_at(s, pat, i),
{
    if first_occurrence(s, pat) is None {
        assert forall|i: int| !occurs_at(s, pat, i) by {
            if occurs_at(s, pat, i) {
                lemma_occurrence_has_first(s, pat, i);
            }
        }
    }
}

/// What `first_occurrence` gives, in full.
pub proof fn lemma_first_occurrence<T>(s: Seq<T>, pat: Seq<T>)
    ensures
        match first_occurrence(s, pat) {
            Some(i) => is_first_occurrence(s, pat, i),
            None => forall|i: int| !occurs_at(s, pat, i),
        },
{
    lemma_first_occurrence_none(s, pat);
}

/// Appending to a sequence keeps the first occurrence it already has.
pub proof fn lemma_first_occurrence_stays<T>(s: Seq<T>, more: Seq<T>, pat: Seq<T>)
    requires
        first_occurrence(s, pat) is Some,
    ensures
        first_occurrence(s + more, pat) == first_occurrence(s, pat),
{
    lemma_first_occurrence(s, pat);
    let i = first_occurrence(s, pat)->0;
    let t = s + more;
    assert(t.subrange(i, i + pat.len()) =~= s.subrange(i, i + pat.len()));
    assert forall|j: int| 0 <= j < i implies !occurs_at(t, pat, j) by {
        assert(!occurs_at(s, pat, j));
        assert(t.subrange(j, j + pat.len()) =~= s.subrange(j, j + pat.len()));
    }
    lemma_first_occurrence_is(t, pat, i);
}

} // verus!
