use vstd::prelude::*;

use crate::catalog::{Item, Similarity, SimilarityError};
use crate::score::{Score, lemma_frac_transitive, sim_den, sim_num};
use crate::vector::{lemma_dot_within_norms, norm_sq};

verus! {

/// How many results a query returns unless told otherwise.
pub const DEFAULT_TOP_K: usize = 5;

/// One ranked candidate: its identifier, its position in the catalog, its title and
/// its similarity to the query item.
pub struct RankedResult {
    pub id: i32,
    pub index: usize,
    pub title: String,
    pub similarity: Score,
}

/// Some item of the catalog carries the identifier.
pub open spec fn has_id(items: Seq<Item>, id: i32) -> bool {
    exists|i: int| 0 <= i < items.len() && items[i].id == id
}

/// `q` is the first position whose item carries the identifier: the query item.
pub open spec fn first_with_id(items: Seq<Item>, id: i32, q: int) -> bool {
    0 <= q < items.len() && items[q].id == id && forall|j: int| 0 <= j < q ==> items[j].id != id
}

/// The item at `j` is compared against the query: every item with another identifier.
pub open spec fn is_candidate(items: Seq<Item>, id: i32, j: int) -> bool {
    0 <= j < items.len() && items[j].id != id
}

/// A candidate whose rating vector differs in length from that of the query item at `q`.
pub open spec fn length_mismatch(items: Seq<Item>, id: i32, q: int, j: int) -> bool {
    is_candidate(items, id, j) && items[j].rating@.len() != items[q].rating@.len()
}

/// Every squared length in the catalog fits in `i32`, as the sums of squares do in
/// 32-bit arithmetic.
pub open spec fn norms_fit(items: Seq<Item>) -> bool {
    forall|i: int| 0 <= i < items.len() ==> norm_sq(#[trigger] items[i].rating@) <= i32::MAX
}

/// The candidate at `a` ranks above the one at `b` against the query at `q`: a higher
/// similarity, or an equal one and an earlier position in the catalog.
pub open spec fn ranks_before(items: Seq<Item>, q: int, a: int, b: int) -> bool {
    let qa = items[q].rating@;
    let ra = items[a].rating@;
    let rb = items[b].rating@;
    sim_num(qa, ra) * sim_den(qa, rb) > sim_num(qa, rb) * sim_den(qa, ra) || (sim_num(qa, ra)
        * sim_den(qa, rb) == sim_num(qa, rb) * sim_den(qa, ra) && a < b)
}

/// `e` describes the candidate at `e.index` against the query at `q`.
pub open spec fn entry_of(items: Seq<Item>, id: i32, q: int, e: RankedResult) -> bool {
    &&& is_candidate(items, id, e.index as int)
    &&& items[e.index as int].rating@.len() == items[q].rating@.len()
    &&& e.id == items[e.index as int].id
    &&& e.title@ == items[e.index as int].title@
    &&& e.similarity.of(items[q].rating@, items[e.index as int].rating@)
}

/// `v` is the top `k` of the candidates against the query at `q`, best first.
pub open spec fn is_top_k(items: Seq<Item>, id: i32, q: int, k: int, v: Seq<RankedResult>) -> bool {
    &&& v.len() <= k
    &&& forall|i: int| 0 <= i < v.len() ==> entry_of(items, id, q, #[trigger] v[i])
    &&& forall|i: int, i2: int|
        0 <= i < i2 < v.len() ==> ranks_before(items, q, v[i].index as int, v[i2].index as int)
    &&& forall|i: int, j: int|
        0 <= i < v.len() && is_candidate(items, id, j) && (forall|i2: int|
            0 <= i2 < v.len() ==> v[i2].index != j) ==> ranks_before(
            items,
            q,
            v[i].index as int,
            j,
        )
    &&& v.len() < k ==> forall|j: int|
        is_candidate(items, id, j) ==> exists|i: int| 0 <= i < v.len() && v[i].index == j
}

/// `r` answers a query for the `k` items most similar to the item with identifier
/// `id`: no such item, the first candidate whose rating vector has another length, or
/// the top `k`, with similarities that never increase along the result.
pub open spec fn is_answer(
    items: Seq<Item>,
    id: i32,
    k: int,
    r: Result<Vec<RankedResult>, SimilarityError>,
) -> bool {
    &&& !has_id(items, id) ==> r == Err::<Vec<RankedResult>, SimilarityError>(
        SimilarityError::NotFound { id: id },
    )
    &&& forall|q: int|
        #![trigger first_with_id(items, id, q)]
        first_with_id(items, id, q) ==> {
            &&& (exists|j: int| length_mismatch(items, id, q, j)) ==> exists|j: int|
                {
                    &&& length_mismatch(items, id, q, j)
                    &&& forall|j2: int| 0 <= j2 < j ==> !length_mismatch(items, id, q, j2)
                    &&& r == Err::<Vec<RankedResult>, SimilarityError>(
                        SimilarityError::LengthMismatch {
                            expected: items[q].rating@.len() as usize,
                            found: items[j].rating@.len() as usize,
                        },
                    )
                }
            &&& !(exists|j: int| length_mismatch(items, id, q, j)) ==> r.is_ok() && is_top_k(
                items,
                id,
                q,
                k,
                r.unwrap()@,
            )
        }
    &&& r.is_ok() ==> forall|i: int|
        0 < i < r.unwrap()@.len() ==> r.unwrap()@[i - 1].similarity.at_least(
            #[trigger] r.unwrap()@[i].similarity,
        )
}

proof fn lemma_den_positive(a: Seq<i32>, b: Seq<i32>)
    ensures
        sim_den(a, b) > 0,
{
    let n1 = norm_sq(a);
    let n2 = norm_sq(b);
    if n1 > 0 && n2 > 0 {
        assert(n1 * n2 > 0) by (nonlinear_arith)
            requires
                n1 > 0,
                n2 > 0,
        ;
    }
}

proof fn lemma_ranks_before_transitive(items: Seq<Item>, q: int, a: int, b: int, c: int)
    requires
        0 <= q < items.len(),
        0 <= a < items.len(),
        0 <= b < items.len(),
        0 <= c < items.len(),
        ranks_before(items, q, a, b),
        ranks_before(items, q, b, c),
    ensures
        ranks_before(items, q, a, c),
{
    let qa = items[q].rating@;
    let ra = items[a].rating@;
    let rb = items[b].rating@;
    let rc = items[c].rating@;
    lemma_den_positive(qa, ra);
    lemma_den_positive(qa, rb);
    lemma_den_positive(qa, rc);
    lemma_frac_transitive(
        sim_num(qa, ra),
        sim_den(qa, ra),
        sim_num(qa, rb),
        sim_den(qa, rb),
        sim_num(qa, rc),
        sim_den(qa, rc),
    );
}

proof fn lemma_entry_in_range(items: Seq<Item>, id: i32, q: int, e: RankedResult)
    requires
        0 <= q < items.len(),
        norms_fit(items),
        entry_of(items, id, q, e),
    ensures
        e.similarity.in_range(),
{
    let qa = items[q].rating@;
    let ra = items[e.index as int].rating@;
    lemma_dot_within_norms(qa, ra);
    crate::vector::lemma_norm_sq_zero_iff_all_zero(qa);
    crate::vector::lemma_norm_sq_zero_iff_all_zero(ra);
    assert(norm_sq(items[q].rating@) <= i32::MAX);
    assert(norm_sq(items[e.index as int].rating@) <= i32::MAX);
}

/// Whether `e1` ranks above `e2`.
fn precedes(
    e1: &RankedResult,
    e2: &RankedResult,
    Ghost(items): Ghost<Seq<Item>>,
    Ghost(id): Ghost<i32>,
    Ghost(q): Ghost<int>,
) -> (r: bool)
    requires
        0 <= q < items.len(),
        norms_fit(items),
        entry_of(items, id, q, *e1),
        entry_of(items, id, q, *e2),
    ensures
        r == ranks_before(items, q, e1.index as int, e2.index as int),
{
    proof {
        lemma_entry_in_range(items, id, q, *e1);
        lemma_entry_in_range(items, id, q, *e2);
    }
    let c = e1.similarity.compare(&e2.similarity);
    c == 1 || (c == 0 && e1.index < e2.index)
}

impl Similarity {
    /// Whether every squared length in the catalog fits in `i32`, which `get_top_k` needs.
    pub fn norms_in_range(&self) -> (r: bool)
        ensures
            r == norms_fit(self.items@),
    {
        let mut i: usize = 0;
        while i < self.items.len()
            invariant
                i <= self.items@.len(),
                forall|j: int| 0 <= j < i ==> norm_sq(#[trigger] self.items@[j].rating@) <= i32::MAX,
            decreases self.items@.len() - i,
        {
            if self.magnitude_squared(&self.items[i]) > i32::MAX as u128 {
                return false;
            }
            i = i + 1;
        }
        true
    }

    /// The `k` candidates most similar to the item with identifier `item_id`, best
    /// first; equal similarities keep catalog order.
    pub fn get_top_k(&self, item_id: i32, k: usize) -> (r: Result<Vec<RankedResult>, SimilarityError>)
        requires
            norms_fit(self.items@),
        ensures
            is_answer(self.items@, item_id, k as int, r),
    {
        let ghost items = self.items@;
        let n = self.items.len();
        let mut q: usize = 0;
        while q < n && self.items[q].id != item_id
            invariant
                n == items.len(),
                items == self.items@,
                q <= n,
                forall|j: int| 0 <= j < q ==> items[j].id != item_id,
            decreases n - q,
        {
            q = q + 1;
        }
        if q == n {
            return Err(SimilarityError::NotFound { id: item_id });
        }
        assert(first_with_id(items, item_id, q as int));
        assert forall|q2: int| first_with_id(items, item_id, q2) implies q2 == q by {
            if q2 < q {
            } else if q2 > q {
                assert(items[q as int].id == item_id);
            }
        }
        let query = &self.items[q];
        let mut rest: Vec<RankedResult> = Vec::new();
        let mut j: usize = 0;
        while j < n
            invariant
                n == items.len(),
                items == self.items@,
                q < n,
                first_with_id(items, item_id, q as int),
                *query == items[q as int],
                j <= n,
                forall|t: int|
                    0 <= t < rest@.len() ==> entry_of(items, item_id, q as int, #[trigger] rest@[t])
                        && rest@[t].index < j,
                forall|t: int, t2: int|
                    0 <= t < t2 < rest@.len() ==> rest@[t].index < rest@[t2].index,
                forall|j2: int|
                    0 <= j2 < j && is_candidate(items, item_id, j2) ==> exists|t: int|
                        0 <= t < rest@.len() && rest@[t].index == j2,
                forall|j2: int| 0 <= j2 < j ==> !length_mismatch(items, item_id, q as int, j2),
            decreases n - j,
        {
            let item = &self.items[j];
            if item.id != item_id {
                let s = match self.cosine_similarity(query, item) {
                    Ok(s) => s,
                    Err(e) => {
                        assert(length_mismatch(items, item_id, q as int, j as int));
                        return Err(e);
                    },
                };
                let ghost old_rest = rest@;
                rest.push(
                    RankedResult { id: item.id, index: j, title: item.title.clone(), similarity: s },
                );
                assert forall|j2: int|
                    0 <= j2 < j + 1 && is_candidate(items, item_id, j2) implies exists|t: int|
                    0 <= t < rest@.len() && rest@[t].index == j2 by {
                    if j2 < j {
                        let t = choose|t: int| 0 <= t < old_rest.len() && old_rest[t].index == j2;
                        assert(rest@[t] == old_rest[t]);
                    } else {
                        assert(rest@[rest@.len() - 1].index == j2);
                    }
                }
            }
            j = j + 1;
        }
        let mut out: Vec<RankedResult> = Vec::new();
        while out.len() < k && rest.len() > 0
            invariant
                n == items.len(),
                items == self.items@,
                norms_fit(items),
                q < n,
                forall|t: int|
                    0 <= t < rest@.len() ==> entry_of(items, item_id, q as int, #[trigger] rest@[t]),
                forall|t: int, t2: int|
                    0 <= t < t2 < rest@.len() ==> rest@[t].index < rest@[t2].index,
                forall|i: int|
                    0 <= i < out@.len() ==> entry_of(items, item_id, q as int, #[trigger] out@[i]),
                forall|i: int, i2: int|
                    0 <= i < i2 < out@.len() ==> ranks_before(
                        items,
                        q as int,
                        out@[i].index as int,
                        out@[i2].index as int,
                    ),
                forall|i: int, t: int|
                    0 <= i < out@.len() && 0 <= t < rest@.len() ==> ranks_before(
                        items,
                        q as int,
                        out@[i].index as int,
                        rest@[t].index as int,
                    ),
                forall|j2: int|
                    is_candidate(items, item_id, j2) ==> (exists|i: int|
                        0 <= i < out@.len() && out@[i].index == j2) || (exists|t: int|
                        0 <= t < rest@.len() && rest@[t].index == j2),
                out@.len() <= k,
            decreases rest@.len(),
        {
            let mut b: usize = 0;
            let mut t: usize = 1;
            while t < rest.len()
                invariant
                    n == items.len(),
                    items == self.items@,
                    norms_fit(items),
                    q < n,
                    forall|t3: int|
                        0 <= t3 < rest@.len() ==> entry_of(items, item_id, q as int, #[trigger] rest@[t3]),
                    forall|t3: int, t2: int|
                        0 <= t3 < t2 < rest@.len() ==> rest@[t3].index < rest@[t2].index,
                    b < t <= rest@.len(),
                    forall|t2: int|
                        0 <= t2 < t && t2 != b ==> ranks_before(
                            items,
                            q as int,
                            rest@[b as int].index as int,
                            rest@[t2].index as int,
                        ),
                decreases rest@.len() - t,
            {
                if precedes(&rest[t], &rest[b], Ghost(items), Ghost(item_id), Ghost(q as int)) {
                    assert forall|t2: int| 0 <= t2 < t + 1 && t2 != t implies ranks_before(
                        items,
                        q as int,
                        rest@[t as int].index as int,
                        rest@[t2].index as int,
                    ) by {
                        if t2 != b {
                            lemma_ranks_before_transitive(
                                items,
                                q as int,
                                rest@[t as int].index as int,
                                rest@[b as int].index as int,
                                rest@[t2].index as int,
                            );
                        }
                    }
                    b = t;
                } else {
                    assert(rest@[t as int].index != rest@[b as int].index);
                }
                t = t + 1;
            }
            let ghost old_rest = rest@;
            let ghost old_out = out@;
            let e = rest.remove(b);
            out.push(e);
            assert(rest@ =~= old_rest.remove(b as int));
            assert forall|t2: int| 0 <= t2 < rest@.len() implies rest@[t2] == (if t2 < b {
                old_rest[t2]
            } else {
                old_rest[t2 + 1]
            }) by {}
            assert forall|i: int, t2: int|
                0 <= i < out@.len() && 0 <= t2 < rest@.len() implies ranks_before(
                items,
                q as int,
                out@[i].index as int,
                rest@[t2].index as int,
            ) by {
                if t2 < b {
                    assert(rest@[t2] == old_rest[t2]);
                } else {
                    assert(rest@[t2] == old_rest[t2 + 1]);
                }
                if i < old_out.len() {
                    assert(out@[i] == old_out[i]);
                }
            }
            assert forall|i: int, i2: int| 0 <= i < i2 < out@.len() implies ranks_before(
                items,
                q as int,
                out@[i].index as int,
                out@[i2].index as int,
            ) by {
                assert(out@[i] == old_out[i]);
                if i2 < old_out.len() {
                    assert(out@[i2] == old_out[i2]);
                }
            }
            assert forall|j2: int| is_candidate(items, item_id, j2) implies (exists|i: int|
                0 <= i < out@.len() && out@[i].index == j2) || (exists|t2: int|
                0 <= t2 < rest@.len() && rest@[t2].index == j2) by {
                if exists|i: int| 0 <= i < old_out.len() && old_out[i].index == j2 {
                    let i = choose|i: int| 0 <= i < old_out.len() && old_out[i].index == j2;
                    assert(out@[i] == old_out[i]);
                } else {
                    let t2 = choose|t2: int| 0 <= t2 < old_rest.len() && old_rest[t2].index == j2;
                    if t2 < b {
                        assert(rest@[t2] == old_rest[t2]);
                    } else if t2 == b {
                        assert(out@[out@.len() - 1].index == j2);
                    } else {
                        assert(rest@[t2 - 1] == old_rest[t2]);
                    }
                }
            }
            assert forall|i: int| 0 <= i < out@.len() implies entry_of(
                items,
                item_id,
                q as int,
                #[trigger] out@[i],
            ) by {
                if i < old_out.len() {
                    assert(out@[i] == old_out[i]);
                }
            }
        }
        proof {
            assert forall|i: int| 0 < i < out@.len() implies out@[i - 1].similarity.at_least(
                #[trigger] out@[i].similarity,
            ) by {
                assert(ranks_before(items, q as int, out@[i - 1].index as int, out@[i].index as int));
            }
            assert forall|i: int, j2: int|
                0 <= i < out@.len() && is_candidate(items, item_id, j2) && (forall|i2: int|
                    0 <= i2 < out@.len() ==> out@[i2].index != j2) implies ranks_before(
                items,
                q as int,
                out@[i].index as int,
                j2,
            ) by {
                let t2 = choose|t2: int| 0 <= t2 < rest@.len() && rest@[t2].index == j2;
            }
        }
        Ok(out)
    }

    /// The `DEFAULT_TOP_K` candidates most similar to the item with identifier `item_id`.
    pub fn get_similar(&self, item_id: i32) -> (r: Result<Vec<RankedResult>, SimilarityError>)
        requires
            norms_fit(self.items@),
        ensures
            is_answer(self.items@, item_id, DEFAULT_TOP_K as int, r),
    {
        self.get_top_k(item_id, DEFAULT_TOP_K)
    }
}

} // verus!
