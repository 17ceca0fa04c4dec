//! The benchmarks beside the matrix: how long it takes to construct a
//! searcher, and what a byte ranking made for executable files gains on an
//! executable file.

use vstd::prelude::*;
use vstd::slice::slice_to_vec;
use vstd::string::{is_ascii, is_ascii_spec_bytes};

use crate::search::Ranking;
use crate::text::{decimal, spec_decimal};

verus! {

/// A benchmark beside the matrix.
#[derive(Clone, Debug)]
pub struct MiscBenchmark {
    pub name: String,
    pub corpus: Vec<u8>,
    pub needle: Vec<u8>,
    /// The byte ranking that the searcher is built with.
    pub ranking: Ranking,
    /// Whether each timed iteration builds the searcher, or uses one built
    /// beforehand.
    pub builds_when_timed: bool,
    /// The number of occurrences that each iteration must count, where it
    /// searches at all.
    pub expected: Option<usize>,
}

/// A benchmark beside the matrix as plain values.
pub struct MiscView {
    pub name: Seq<char>,
    pub corpus: Seq<u8>,
    pub needle: Seq<u8>,
    pub ranking: Ranking,
    pub builds_when_timed: bool,
    pub expected: Option<usize>,
}

impl View for MiscBenchmark {
    type V = MiscView;

    open spec fn view(&self) -> MiscView {
        MiscView {
            name: self.name@,
            corpus: self.corpus@,
            needle: self.needle@,
            ranking: self.ranking,
            builds_when_timed: self.builds_when_timed,
            expected: self.expected,
        }
    }
}

/// A list of such benchmarks as plain values.
pub open spec fn misc_views(plan: Seq<MiscBenchmark>) -> Seq<MiscView> {
    plan.map_values(|benchmark: MiscBenchmark| benchmark@)
}

/// The spelling of a ranking in a benchmark name.
pub open spec fn ranking_label(ranking: Ranking) -> Seq<char> {
    match ranking {
        Ranking::Default => "default"@,
        Ranking::Custom => "custom"@,
    }
}

/// The name of the benchmark that constructs a searcher for a needle of the
/// given length.
pub open spec fn construction_name(ranking: Ranking, length: nat) -> Seq<char> {
    "memmem/krate/misc/construct-finder/"@ + ranking_label(ranking) + "(len="@ + spec_decimal(
        length,
    ) + ")"@
}

/// The benchmark that constructs a searcher for the needle: nothing is
/// searched, so nothing is expected.
pub open spec fn construction_benchmark(needle: Seq<u8>, ranking: Ranking) -> MiscView {
    MiscView {
        name: construction_name(ranking, needle.len()),
        corpus: needle,
        needle,
        ranking,
        builds_when_timed: true,
        expected: None,
    }
}

/// The bytes of a text of ASCII characters.
pub open spec fn ascii_bytes(text: Seq<char>) -> Seq<u8> {
    Seq::new(text.len(), |i: int| text[i] as u8)
}

/// The needles that a searcher is constructed for.
pub open spec fn construction_needles() -> Seq<Seq<u8>> {
    seq![ascii_bytes("a"@), ascii_bytes("abcd"@), ascii_bytes("abcdefgh12345678"@)]
}

/// The construction benchmarks: for each needle in turn, one with the
/// searcher's own ranking and one with the ranking for executable files.
pub open spec fn spec_finder_construction() -> Seq<MiscView> {
    Seq::new(
        6,
        |k: int|
            construction_benchmark(
                construction_needles()[k / 2],
                if k % 2 == 0 {
                    Ranking::Default
                } else {
                    Ranking::Custom
                },
            ),
    )
}

/// The needle of the frequency benchmarks: bytes that are rare in text and
/// common in executable files.
pub open spec fn frequency_needle() -> Seq<u8> {
    seq![0x00u8, 0x00u8, 0xddu8, 0xddu8, 0x27u8]
}

/// The name of a frequency benchmark.
pub open spec fn frequency_name(ranking: Ranking) -> Seq<char> {
    "memmem/krate/misc/frequency-table/"@ + ranking_label(ranking)
}

/// The benchmark that counts the frequency needle in an executable file
/// with a searcher built beforehand. The needle is expected exactly once.
pub open spec fn frequency_benchmark(executable: Seq<u8>, ranking: Ranking) -> MiscView {
    MiscView {
        name: frequency_name(ranking),
        corpus: executable,
        needle: frequency_needle(),
        ranking,
        builds_when_timed: false,
        expected: Some(1usize),
    }
}

/// The frequency benchmarks: the searcher's own ranking, then the ranking
/// for executable files.
pub open spec fn spec_byte_frequencies(executable: Seq<u8>) -> Seq<MiscView> {
    seq![
        frequency_benchmark(executable, Ranking::Default),
        frequency_benchmark(executable, Ranking::Custom),
    ]
}

/// The spelling of a ranking in a benchmark name.
fn ranking_text(ranking: Ranking) -> (text: &'static str)
    ensures
        text@ == ranking_label(ranking),
{
    match ranking {
        Ranking::Default => "default",
        Ranking::Custom => "custom",
    }
}

/// The construction benchmark of one needle.
fn construction_entry(needle: &[u8], ranking: Ranking) -> (entry: MiscBenchmark)
    ensures
        entry@ == construction_benchmark(needle@, ranking),
{
    let mut name = "memmem/krate/misc/construct-finder/".to_owned();
    name.append(ranking_text(ranking));
    name.append("(len=");
    name.append(decimal(needle.len()).as_str());
    name.append(")");
    MiscBenchmark {
        name,
        corpus: slice_to_vec(needle),
        needle: slice_to_vec(needle),
        ranking,
        builds_when_timed: true,
        expected: None,
    }
}

/// The needles that a searcher is constructed for.
fn needles() -> (list: Vec<&'static [u8]>)
    ensures
        list@.len() == construction_needles().len(),
        forall|i: int| 0 <= i < list@.len() ==> (#[trigger] list@[i])@ == construction_needles()[i],
{
    proof {
        reveal_strlit("a");
        reveal_strlit("abcd");
        reveal_strlit("abcdefgh12345678");
        assert(is_ascii("a"));
        assert(is_ascii("abcd"));
        assert(is_ascii("abcdefgh12345678"));
        is_ascii_spec_bytes("a");
        is_ascii_spec_bytes("abcd");
        is_ascii_spec_bytes("abcdefgh12345678");
    }
    let mut list: Vec<&'static [u8]> = Vec::new();
    list.push("a".as_bytes());
    list.push("abcd".as_bytes());
    list.push("abcdefgh12345678".as_bytes());
    list
}

/// Plans the benchmarks that measure the construction of a searcher.
pub fn finder_construction() -> (plan: Vec<MiscBenchmark>)
    ensures
        misc_views(plan@) == spec_finder_construction(),
{
    let list = needles();
    let mut plan: Vec<MiscBenchmark> = Vec::new();
    let mut i: usize = 0;
    while i < list.len()
        invariant
            i <= list@.len(),
            list@.len() == 3,
            forall|j: int|
                0 <= j < list@.len() ==> (#[trigger] list@[j])@ == construction_needles()[j],
            plan@.len() == 2 * i,
            forall|k: int|
                0 <= k < plan@.len() ==> (#[trigger] plan@[k])@ == spec_finder_construction()[k],
        decreases list@.len() - i,
    {
        let needle = list[i];
        plan.push(construction_entry(needle, Ranking::Default));
        plan.push(construction_entry(needle, Ranking::Custom));
        i = i + 1;
    }
    proof {
        assert(misc_views(plan@) =~= spec_finder_construction());
    }
    plan
}

/// The frequency benchmark of one ranking.
fn frequency_entry(executable: &[u8], ranking: Ranking) -> (entry: MiscBenchmark)
    ensures
        entry@ == frequency_benchmark(executable@, ranking),
{
    let mut name = "memmem/krate/misc/frequency-table/".to_owned();
    name.append(ranking_text(ranking));
    let mut needle: Vec<u8> = Vec::new();
    needle.push(0x00);
    needle.push(0x00);
    needle.push(0xdd);
    needle.push(0xdd);
    needle.push(0x27);
    proof {
        assert(needle@ =~= frequency_needle());
    }
    MiscBenchmark {
        name,
        corpus: slice_to_vec(executable),
        needle,
        ranking,
        builds_when_timed: false,
        expected: Some(1),
    }
}

/// Plans the benchmarks that show what a byte ranking made for executable
/// files gains. Their corpus is the content of an executable file, which
/// the caller has read.
pub fn byte_frequencies(executable: &[u8]) -> (plan: Vec<MiscBenchmark>)
    ensures
        misc_views(plan@) == spec_byte_frequencies(executable@),
{
    let mut plan: Vec<MiscBenchmark> = Vec::new();
    plan.push(frequency_entry(executable, Ranking::Default));
    plan.push(frequency_entry(executable, Ranking::Custom));
    proof {
        assert(misc_views(plan@) =~= spec_byte_frequencies(executable@));
    }
    plan
}

/// Plans the benchmarks beside the matrix: the construction benchmarks,
/// then the frequency benchmarks.
pub fn misc(executable: &[u8]) -> (plan: Vec<MiscBenchmark>)
    ensures
        misc_views(plan@) == spec_finder_construction() + spec_byte_frequencies(executable@),
{
    let mut plan = finder_construction();
    let mut rest = byte_frequencies(executable);
    let ghost first = plan@;
    let ghost second = rest@;
    plan.append(&mut rest);
    proof {
        assert(misc_views(plan@) =~= misc_views(first) + misc_views(second));
    }
    plan
}

} // verus!
