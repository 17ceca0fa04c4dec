//! The whole suite: the matrix and the benchmarks beside it.

use vstd::prelude::*;

use crate::catalog::{well_named, Implementation, Input};
use crate::matrix::{matrix, plans, searches, views, Benchmark, MODES};
use crate::misc::{
    misc, misc_views, spec_byte_frequencies, spec_finder_construction, MiscBenchmark,
};

verus! {

/// Everything that is to be measured, in the order in which it is handed
/// to the harness.
#[derive(Clone, Debug)]
pub struct Suite {
    /// The matrix of searches.
    pub searches: Vec<Benchmark>,
    /// The benchmarks beside the matrix.
    pub misc: Vec<MiscBenchmark>,
}

/// Plans every benchmark: the matrix of the catalog and the
/// implementations, then the benchmarks beside it. The matrix holds exactly
/// the points whose mode admits the query's count and whose implementation
/// supports the mode in the direction; in a well-named catalog no two of
/// its names are the same. The content of an executable file is the corpus
/// of the frequency benchmarks.
pub fn all(catalog: &Vec<Input>, implementations: &Vec<Implementation>, executable: &[u8]) -> (suite:
    Suite)
    ensures
        views(suite.searches@) == matrix(catalog@, implementations@),
        plans(views(suite.searches@), catalog@, implementations@, MODES@),
        well_named(catalog@, implementations@) ==> forall|p: int, q: int|
            0 <= p < q < suite.searches@.len() ==> (#[trigger] suite.searches@[p]).name@ != (
            #[trigger] suite.searches@[q]).name@,
        misc_views(suite.misc@) == spec_finder_construction() + spec_byte_frequencies(
            executable@,
        ),
{
    Suite { searches: searches(catalog, implementations), misc: misc(executable) }
}

} // verus!
