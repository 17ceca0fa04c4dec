//! Counting the occurrences of a needle with a prebuilt searcher.

use vstd::prelude::*;

use memchr::memmem::{Finder, FinderBuilder};

use crate::rank::Hfrx86;

verus! {

/// `memchr::memmem::Finder`: a forward substring searcher fixed to one
/// needle. Nothing inside it is visible here; what is known of a searcher
/// is the needle it was built for.
#[verifier::external_type_specification]
#[verifier::external_body]
pub struct ExFinder<'n>(Finder<'n>);

/// The needle that a searcher was built for: the bytes that
/// `memchr::memmem::Finder::needle` gives back.
pub uninterp spec fn finder_needle(finder: &Finder) -> Seq<u8>;

/// Which ranking of bytes guides a searcher's choice of the bytes it looks
/// for first.
#[derive(Clone, Copy, Debug, PartialEq, Eq, Structural)]
pub enum Ranking {
    /// The ranking that the searcher comes with.
    Default,
    /// The ranking for executable files.
    Custom,
}

/// The needle stands in the haystack at the index.
pub open spec fn matches_at(haystack: Seq<u8>, needle: Seq<u8>, at: int) -> bool {
    &&& 0 <= at
    &&& at + needle.len() <= haystack.len()
    &&& haystack.subrange(at, at + needle.len()) == needle
}

/// The number of occurrences found from `from` on, going from left to
/// right and stepping over each occurrence found. An occurrence of the
/// empty needle is stepped over by one byte.
pub open spec fn occurrences_from(haystack: Seq<u8>, needle: Seq<u8>, from: int) -> nat
    decreases haystack.len() + 1 - from,
{
    if from < 0 || from > haystack.len() {
        0
    } else if matches_at(haystack, needle, from) {
        1 + occurrences_from(
            haystack,
            needle,
            from + if needle.len() == 0 {
                1
            } else {
                needle.len() as int
            },
        )
    } else {
        occurrences_from(haystack, needle, from + 1)
    }
}

/// The number of occurrences of the needle in the haystack that do not
/// overlap, counted from left to right.
pub open spec fn occurrences(haystack: Seq<u8>, needle: Seq<u8>) -> nat {
    occurrences_from(haystack, needle, 0)
}

/// Calls `memchr::memmem::FinderBuilder::build_forward` on a new builder.
/// The contract claims that the searcher that comes back is one for the
/// needle given.
#[verifier::external_body]
fn build_forward<'n>(needle: &'n [u8]) -> (finder: Finder<'n>)
    ensures
        finder_needle(&finder) == needle@,
{
    FinderBuilder::new().build_forward(needle)
}

/// Calls `memchr::memmem::FinderBuilder::build_forward_with_ranker` on a new
/// builder. The contract claims that the searcher that comes back is one
/// for the needle given: the ranking guides how the searcher looks for
/// candidates, not what it finds.
#[verifier::external_body]
fn build_forward_with_ranker<'n>(ranker: Hfrx86, needle: &'n [u8]) -> (finder: Finder<'n>)
    ensures
        finder_needle(&finder) == needle@,
{
    FinderBuilder::new().build_forward_with_ranker(ranker, needle)
}

/// Calls `memchr::memmem::Finder::find_iter` and counts what the iterator
/// yields. The contract claims that the iterator yields the occurrences of
/// the searcher's needle from left to right, each found by searching on
/// from behind the one before, or from one byte on where the needle is
/// empty.
#[verifier::external_body]
fn find_iter_count(finder: &Finder<'_>, haystack: &[u8]) -> (count: usize)
    ensures
        count == occurrences(haystack@, finder_needle(finder)),
{
    finder.find_iter(haystack).count()
}

/// Builds a searcher for the needle, guided by the ranking.
pub fn build_finder<'n>(needle: &'n [u8], ranking: Ranking) -> (finder: Finder<'n>)
    ensures
        finder_needle(&finder) == needle@,
{
    match ranking {
        Ranking::Default => build_forward(needle),
        Ranking::Custom => build_forward_with_ranker(Hfrx86, needle),
    }
}

/// Decides whether a prebuilt searcher finds exactly the expected number of
/// occurrences in the corpus: the check that one timed iteration makes.
pub fn finds_exactly(finder: &Finder<'_>, corpus: &[u8], expected: usize) -> (agrees: bool)
    ensures
        agrees == (occurrences(corpus@, finder_needle(finder)) == expected),
{
    find_iter_count(finder, corpus) == expected
}

} // verus!
