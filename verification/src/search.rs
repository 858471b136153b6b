use vstd::prelude::*;

verus! {

/// Whether `i` is the first position at which `hits` is true.
pub open spec fn is_first(hits: Seq<bool>, i: int) -> bool {
    &&& 0 <= i < hits.len()
    &&& hits[i]
    &&& forall|j: int| 0 <= j < i ==> !#[trigger] hits[j]
}

/// The first position at which `hits` is true, if there is one.
pub open spec fn first_hit(hits: Seq<bool>) -> Option<int> {
    if exists|i: int| is_first(hits, i) {
        Some(choose|i: int| is_first(hits, i))
    } else {
        None
    }
}

/// A first position is the first position.
pub proof fn lemma_first_hit_found(hits: Seq<bool>, i: int)
    requires
        is_first(hits, i),
    ensures
        first_hit(hits) == Some(i),
{
    let c = choose|c: int| is_first(hits, c);
    assert(is_first(hits, c));
    if c < i {
        assert(!hits[c]);
    } else if i < c {
        assert(!hits[i]);
    }
}

/// Without a true position there is no first one.
pub proof fn lemma_first_hit_absent(hits: Seq<bool>)
    requires
        forall|j: int| 0 <= j < hits.len() ==> !#[trigger] hits[j],
    ensures
        first_hit(hits) is None,
{
    if exists|i: int| is_first(hits, i) {
        let c = choose|c: int| is_first(hits, c);
        assert(!hits[c]);
    }
}

/// What `first_hit` answers is a first position.
pub proof fn lemma_first_hit_some(hits: Seq<bool>)
    requires
        first_hit(hits) is Some,
    ensures
        is_first(hits, first_hit(hits)->Some_0),
{
}

/// Below any true position there is a first one.
pub proof fn lemma_first_exists(hits: Seq<bool>, k: int)
    requires
        0 <= k < hits.len(),
        hits[k],
    ensures
        first_hit(hits) is Some,
        first_hit(hits)->Some_0 <= k,
    decreases k,
{
    if forall|j: int| 0 <= j < k ==> !#[trigger] hits[j] {
        assert(is_first(hits, k));
        lemma_first_hit_found(hits, k);
    } else {
        let j = choose|j: int| 0 <= j < k && hits[j];
        lemma_first_exists(hits, j);
    }
}

/// Where there is no first position, no position is true.
pub proof fn lemma_first_hit_none(hits: Seq<bool>)
    requires
        first_hit(hits) is None,
    ensures
        forall|j: int| 0 <= j < hits.len() ==> !#[trigger] hits[j],
{
    assert forall|j: int| 0 <= j < hits.len() implies !#[trigger] hits[j] by {
        if hits[j] {
            lemma_first_exists(hits, j);
        }
    }
}

/// A false position at the end changes nothing.
pub proof fn lemma_first_hit_push_miss(hits: Seq<bool>)
    ensures
        first_hit(hits.push(false)) == first_hit(hits),
{
    let longer = hits.push(false);
    if first_hit(hits) is Some {
        let i = first_hit(hits)->Some_0;
        assert(is_first(longer, i)) by {
            assert(longer[i] == hits[i]);
            assert forall|j: int| 0 <= j < i implies !#[trigger] longer[j] by {
                assert(longer[j] == hits[j]);
            }
        }
        lemma_first_hit_found(longer, i);
    } else {
        lemma_first_hit_none(hits);
        assert forall|j: int| 0 <= j < longer.len() implies !#[trigger] longer[j] by {
            if j < hits.len() {
                assert(longer[j] == hits[j]);
            }
        }
        lemma_first_hit_absent(longer);
    }
}

/// A true position at the end is the first one where there was none.
pub proof fn lemma_first_hit_push_hit(hits: Seq<bool>)
    requires
        first_hit(hits) is None,
    ensures
        first_hit(hits.push(true)) == Some(hits.len() as int),
{
    let longer = hits.push(true);
    lemma_first_hit_none(hits);
    assert(is_first(longer, hits.len() as int)) by {
        assert forall|j: int| 0 <= j < hits.len() implies !#[trigger] longer[j] by {
            assert(longer[j] == hits[j]);
        }
    }
    lemma_first_hit_found(longer, hits.len() as int);
}

} // verus!
