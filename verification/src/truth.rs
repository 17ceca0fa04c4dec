//! The ground truth of a catalog: a query's count is the number of times
//! its needle occurs in the corpus of its input.

use vstd::prelude::*;

use crate::catalog::{Input, Query};
use crate::model::Tier;
use crate::search::{build_finder, finds_exactly, occurrences, Ranking};

verus! {

/// The query's count is the number of occurrences of its needle in the
/// corpus.
pub open spec fn counted(query: Query, corpus: Seq<u8>) -> bool {
    occurrences(corpus, query.needle@) == query.count
}

/// Every query of the list is counted.
pub open spec fn all_counted(queries: Seq<Query>, corpus: Seq<u8>) -> bool {
    forall|j: int| 0 <= j < queries.len() ==> counted(#[trigger] queries[j], corpus)
}

/// Every query of the input, of every tier, is counted in the input's
/// corpus.
pub open spec fn truthful(input: Input) -> bool {
    forall|tier: Tier| all_counted(#[trigger] input.spec_queries(tier), input.corpus@)
}

/// Decides whether the query's count is true of the corpus, by counting.
pub fn is_counted(query: &Query, corpus: &[u8]) -> (truly: bool)
    ensures
        truly == counted(*query, corpus@),
{
    let finder = build_finder(query.needle.as_slice(), Ranking::Default);
    finds_exactly(&finder, corpus, query.count)
}

/// Decides whether every query of a list is counted.
fn are_counted(queries: &Vec<Query>, corpus: &[u8]) -> (truly: bool)
    ensures
        truly == all_counted(queries@, corpus@),
{
    let mut j: usize = 0;
    while j < queries.len()
        invariant
            j <= queries@.len(),
            forall|k: int| 0 <= k < j ==> counted(#[trigger] queries@[k], corpus@),
        decreases queries@.len() - j,
    {
        if !is_counted(&queries[j], corpus) {
            return false;
        }
        j = j + 1;
    }
    true
}

/// Decides whether every count of the input is true. Where one is not,
/// every iteration of the benchmarks of that query would fail.
pub fn is_truthful(input: &Input) -> (truly: bool)
    ensures
        truly == truthful(*input),
{
    let corpus = input.corpus.as_slice();
    let never = are_counted(&input.never, corpus);
    let rare = are_counted(&input.rare, corpus);
    let common = are_counted(&input.common, corpus);
    proof {
        assert(input.spec_queries(Tier::Never) == input.never@);
        assert(input.spec_queries(Tier::Rare) == input.rare@);
        assert(input.spec_queries(Tier::Common) == input.common@);
        if never && rare && common {
            assert forall|tier: Tier|
                all_counted(#[trigger] input.spec_queries(tier), input.corpus@) by {
                match tier {
                    Tier::Never => {},
                    Tier::Rare => {},
                    Tier::Common => {},
                }
            }
        }
    }
    never && rare && common
}

} // verus!
