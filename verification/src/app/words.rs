use vstd::prelude::*;

verus! {

/// `idx` witnesses how `sample` was drawn from `corpus`: entry `k` of the
/// sample is the corpus word at position `idx[k]`, and the positions are
/// pairwise distinct (selection without replacement).
pub open spec fn picks(idx: Seq<int>, sample: Seq<Seq<char>>, corpus: Seq<Seq<char>>) -> bool {
    &&& idx.len() == sample.len()
    &&& forall|k: int| 0 <= k < idx.len() ==> 0 <= #[trigger] idx[k] < corpus.len()
    &&& forall|k: int| 0 <= k < idx.len() ==> sample[k] == corpus[#[trigger] idx[k]]
    &&& forall|j: int, k: int| 0 <= j < k < idx.len() ==> idx[j] != idx[k]
}

/// `sample` consists of words drawn from `corpus` at pairwise distinct
/// positions.
pub open spec fn is_sample_of(sample: Seq<Seq<char>>, corpus: Seq<Seq<char>>) -> bool {
    exists|idx: Seq<int>| #[trigger] picks(idx, sample, corpus)
}

/// Relies on rand::seq::index::sample: it returns exactly `amount` distinct
/// indices drawn from `0..length`, in random (fully shuffled) order, and
/// panics when `amount > length`, which the precondition rules out.
#[verifier::external_body]
fn sample_indices(length: usize, amount: usize) -> (r: Vec<usize>)
    requires
        amount <= length,
    ensures
        r@.len() == amount,
        forall|k: int| 0 <= k < r@.len() ==> #[trigger] r@[k] < length,
        forall|j: int, k: int| 0 <= j < k < r@.len() ==> r@[j] != r@[k],
{
    rand::seq::index::sample(&mut rand::rng(), length, amount).into_vec()
}

/// The word sampler: draws a fixed-size, order-randomized subset of words
/// from a fixed corpus with no replacement.
pub struct Words;

impl Words {
    /// Draw `n` words from `corpus`, uniformly without replacement and in
    /// randomized order. A request larger than the corpus is clamped: the
    /// whole corpus is returned (in random order), never a duplicate and
    /// never a panic.
    pub fn generate(corpus: &Vec<String>, n: usize) -> (r: Vec<String>)
        ensures
            r@.len() == if n <= corpus@.len() {
                n as int
            } else {
                corpus@.len() as int
            },
            is_sample_of(r.deep_view(), corpus.deep_view()),
    {
        let amount = if n <= corpus.len() {
            n
        } else {
            corpus.len()
        };
        let idx = sample_indices(corpus.len(), amount);
        let mut out: Vec<String> = Vec::new();
        let mut i: usize = 0;
        while i < idx.len()
            invariant
                i <= idx@.len(),
                idx@.len() == amount,
                forall|k: int| 0 <= k < idx@.len() ==> #[trigger] idx@[k] < corpus@.len(),
                forall|j: int, k: int| 0 <= j < k < idx@.len() ==> idx@[j] != idx@[k],
                out@.len() == i,
                forall|k: int| 0 <= k < i ==> out@[k] == corpus@[#[trigger] idx@[k] as int],
            decreases idx@.len() - i,
        {
            let w: String = corpus[idx[i]].clone();
            out.push(w);
            i += 1;
        }
        proof {
            let gidx: Seq<int> = idx@.map_values(|u: usize| u as int);
            assert(picks(gidx, out.deep_view(), corpus.deep_view()));
        }
        out
    }
}

} // verus!
