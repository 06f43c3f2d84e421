use vstd::prelude::*;

verus! {

#[derive(Clone, Copy, Debug, PartialEq, Eq, Structural)]
pub struct OptimizedBatchItem {
    pub id: u64,
    pub score: u64,
}

pub struct OptimizedBatchCalculator;

impl OptimizedBatchCalculator {
    /// Maps each item to the same id with its score doubled, in order,
    /// into a result vector allocated once with the batch's length.
    pub fn process_optimized_batch(items: &Vec<OptimizedBatchItem>) -> (results: Vec<
        OptimizedBatchItem,
    >)
        requires
            forall|i: int| 0 <= i < items.len() ==> #[trigger] items@[i].score * 2 <= u64::MAX,
        ensures
            results@.len() == items@.len(),
            forall|i: int|
                0 <= i < items.len() ==> #[trigger] results@[i] == (OptimizedBatchItem {
                    id: items@[i].id,
                    score: (items@[i].score * 2) as u64,
                }),
    {
        let mut results: Vec<OptimizedBatchItem> = Vec::with_capacity(items.len());
        let mut i: usize = 0;
        while i < items.len()
            invariant
                i <= items.len(),
                results@.len() == i,
                forall|j: int| 0 <= j < items.len() ==> #[trigger] items@[j].score * 2 <= u64::MAX,
                forall|j: int|
                    0 <= j < i ==> #[trigger] results@[j] == (OptimizedBatchItem {
                        id: items@[j].id,
                        score: (items@[j].score * 2) as u64,
                    }),
            decreases items.len() - i,
        {
            let item = items[i];
            results.push(OptimizedBatchItem { id: item.id, score: item.score * 2 });
            i = i + 1;
        }
        results
    }
}

} // verus!
