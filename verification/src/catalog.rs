//! The inputs of the matrix: haystacks with their queries, and the
//! implementations under test with the capabilities they declare.

use vstd::prelude::*;

use crate::model::{Capabilities, Tier};
use crate::name::{lemma_holds, slash_free, split_first};
use crate::text::{same_bytes, same_text};

verus! {

/// A needle to search for, with the number of times it occurs in the corpus
/// of the input that owns the query. Occurrences are counted from left to
/// right and do not overlap.
#[derive(Clone, Debug)]
pub struct Query {
    pub name: String,
    pub needle: Vec<u8>,
    pub count: usize,
}

/// A named haystack and its queries, by tier.
#[derive(Clone, Debug)]
pub struct Input {
    pub name: String,
    pub corpus: Vec<u8>,
    pub never: Vec<Query>,
    pub rare: Vec<Query>,
    pub common: Vec<Query>,
}

/// What an implementation declares for one needle.
#[derive(Clone, Debug)]
pub struct Declaration {
    pub needle: Vec<u8>,
    pub capabilities: Capabilities,
}

/// An implementation under test: its name, what it supports for a needle
/// that it declares nothing about, and its declarations for single needles.
#[derive(Clone, Debug)]
pub struct Implementation {
    pub name: String,
    pub fallback: Capabilities,
    pub declared: Vec<Declaration>,
}

/// The capabilities that a list of declarations gives a needle: those of
/// the latest declaration for it, or the fallback where there is none.
pub open spec fn resolve(
    declared: Seq<Declaration>,
    fallback: Capabilities,
    needle: Seq<u8>,
) -> Capabilities
    decreases declared.len(),
{
    if declared.len() == 0 {
        fallback
    } else if declared.last().needle@ == needle {
        declared.last().capabilities
    } else {
        resolve(declared.drop_last(), fallback, needle)
    }
}

impl Input {
    /// The queries of one tier, in the order in which they are walked.
    pub open spec fn spec_queries(&self, tier: Tier) -> Seq<Query> {
        match tier {
            Tier::Never => self.never@,
            Tier::Rare => self.rare@,
            Tier::Common => self.common@,
        }
    }

    /// The queries of one tier.
    pub fn queries(&self, tier: Tier) -> (list: &Vec<Query>)
        ensures
            list@ == self.spec_queries(tier),
    {
        match tier {
            Tier::Never => &self.never,
            Tier::Rare => &self.rare,
            Tier::Common => &self.common,
        }
    }
}

impl Implementation {
    /// What the implementation supports for a needle.
    pub open spec fn spec_available(&self, needle: Seq<u8>) -> Capabilities {
        resolve(self.declared@, self.fallback, needle)
    }

    /// An implementation that supports `capabilities` for every needle.
    pub fn new(name: &str, capabilities: Capabilities) -> (made: Implementation)
        ensures
            made.name@ == name@,
            made.fallback == capabilities,
            made.declared@.len() == 0,
            forall|needle: Seq<u8>| made.spec_available(needle) == capabilities,
    {
        Implementation { name: name.to_owned(), fallback: capabilities, declared: Vec::new() }
    }

    /// Declares what the implementation supports for one needle. The
    /// declaration replaces what held of that needle before and leaves every
    /// other needle as it was.
    pub fn declare(&mut self, needle: Vec<u8>, capabilities: Capabilities)
        ensures
            final(self).name == old(self).name,
            final(self).fallback == old(self).fallback,
            final(self).declared@ == old(self).declared@.push(
                Declaration { needle, capabilities },
            ),
            final(self).spec_available(needle@) == capabilities,
            forall|other: Seq<u8>|
                other != needle@ ==> final(self).spec_available(other) == old(
                    self,
                ).spec_available(other),
    {
        let ghost before = self.declared@;
        self.declared.push(Declaration { needle, capabilities });
        proof {
            assert(self.declared@.drop_last() =~= before);
        }
    }

    /// The capability registry: what the implementation supports for the
    /// needle. The answer depends on the needle alone.
    pub fn available(&self, needle: &[u8]) -> (set: Capabilities)
        ensures
            set == self.spec_available(needle@),
    {
        let mut set = self.fallback;
        let mut i: usize = 0;
        while i < self.declared.len()
            invariant
                i <= self.declared.len(),
                set == resolve(self.declared@.take(i as int), self.fallback, needle@),
            decreases self.declared.len() - i,
        {
            proof {
                assert(self.declared@.take(i + 1).drop_last() =~= self.declared@.take(i as int));
            }
            if same_bytes(self.declared[i].needle.as_slice(), needle) {
                set = self.declared[i].capabilities;
            }
            i = i + 1;
        }
        proof {
            assert(self.declared@.take(i as int) =~= self.declared@);
        }
        set
    }
}

/// No two entries of the list are the same text.
pub open spec fn distinct(names: Seq<Seq<char>>) -> bool {
    forall|i: int, j: int| 0 <= i < j < names.len() ==> names[i] != names[j]
}

/// No entry of the list holds a slash.
pub open spec fn all_slash_free(names: Seq<Seq<char>>) -> bool {
    forall|i: int| 0 <= i < names.len() ==> slash_free(#[trigger] names[i])
}

/// The names of a list of queries.
pub open spec fn query_names(queries: Seq<Query>) -> Seq<Seq<char>> {
    Seq::new(queries.len(), |i: int| queries[i].name@)
}

/// The names of a catalog's inputs.
pub open spec fn input_names(catalog: Seq<Input>) -> Seq<Seq<char>> {
    Seq::new(catalog.len(), |i: int| catalog[i].name@)
}

/// The names of a set of implementations.
pub open spec fn implementation_names(implementations: Seq<Implementation>) -> Seq<Seq<char>> {
    Seq::new(implementations.len(), |i: int| implementations[i].name@)
}

/// Every name can stand in a benchmark name and identifies what it names:
/// no name holds a slash, no two inputs and no two implementations share a
/// name, and no two queries of one tier of one input do.
pub open spec fn well_named(catalog: Seq<Input>, implementations: Seq<Implementation>) -> bool {
    &&& all_slash_free(input_names(catalog))
    &&& distinct(input_names(catalog))
    &&& all_slash_free(implementation_names(implementations))
    &&& distinct(implementation_names(implementations))
    &&& forall|i: int, tier: Tier|
        0 <= i < catalog.len() ==> all_slash_free(
            query_names(#[trigger] catalog[i].spec_queries(tier)),
        )
    &&& forall|i: int, tier: Tier|
        0 <= i < catalog.len() ==> distinct(query_names(#[trigger] catalog[i].spec_queries(tier)))
}

/// The texts of a list of names.
pub open spec fn texts(names: Seq<&str>) -> Seq<Seq<char>> {
    Seq::new(names.len(), |i: int| names[i]@)
}

/// Decides whether a text can stand as one component of a name.
pub fn is_slash_free(text: &str) -> (free: bool)
    ensures
        free == slash_free(text@),
{
    proof {
        lemma_holds(text@, '/');
    }
    split_first(text, '/').is_none()
}

/// Decides whether the names of a list can stand in benchmark names and
/// tell the entries of the list apart.
fn usable(names: &Vec<&str>) -> (fit: bool)
    ensures
        fit == (all_slash_free(texts(names@)) && distinct(texts(names@))),
{
    let ghost list = texts(names@);
    let mut i: usize = 0;
    while i < names.len()
        invariant
            i <= names@.len(),
            list == texts(names@),
            forall|k: int| 0 <= k < i ==> slash_free(#[trigger] list[k]),
            forall|k: int, l: int| 0 <= k < l < i ==> list[k] != list[l],
        decreases names@.len() - i,
    {
        if !is_slash_free(names[i]) {
            proof {
                assert(list[i as int] == names@[i as int]@);
            }
            return false;
        }
        let mut j: usize = 0;
        while j < i
            invariant
                j <= i < names@.len(),
                list == texts(names@),
                forall|k: int| 0 <= k < j ==> list[k] != list[i as int],
            decreases i - j,
        {
            if same_text(names[j], names[i]) {
                proof {
                    assert(list[j as int] == list[i as int]);
                }
                return false;
            }
            j = j + 1;
        }
        i = i + 1;
    }
    true
}

/// The names of a list of queries.
fn names_of_queries(queries: &Vec<Query>) -> (names: Vec<&str>)
    ensures
        texts(names@) == query_names(queries@),
{
    let mut names: Vec<&str> = Vec::new();
    let mut i: usize = 0;
    while i < queries.len()
        invariant
            i <= queries@.len(),
            names@.len() == i,
            forall|k: int| 0 <= k < i ==> (#[trigger] names@[k])@ == queries@[k].name@,
        decreases queries@.len() - i,
    {
        names.push(queries[i].name.as_str());
        i = i + 1;
    }
    proof {
        assert(texts(names@) =~= query_names(queries@));
    }
    names
}

/// The names of a catalog's inputs.
fn names_of_inputs(catalog: &Vec<Input>) -> (names: Vec<&str>)
    ensures
        texts(names@) == input_names(catalog@),
{
    let mut names: Vec<&str> = Vec::new();
    let mut i: usize = 0;
    while i < catalog.len()
        invariant
            i <= catalog@.len(),
            names@.len() == i,
            forall|k: int| 0 <= k < i ==> (#[trigger] names@[k])@ == catalog@[k].name@,
        decreases catalog@.len() - i,
    {
        names.push(catalog[i].name.as_str());
        i = i + 1;
    }
    proof {
        assert(texts(names@) =~= input_names(catalog@));
    }
    names
}

/// The names of a set of implementations.
fn names_of_implementations(implementations: &Vec<Implementation>) -> (names: Vec<&str>)
    ensures
        texts(names@) == implementation_names(implementations@),
{
    let mut names: Vec<&str> = Vec::new();
    let mut i: usize = 0;
    while i < implementations.len()
        invariant
            i <= implementations@.len(),
            names@.len() == i,
            forall|k: int| 0 <= k < i ==> (#[trigger] names@[k])@ == implementations@[k].name@,
        decreases implementations@.len() - i,
    {
        names.push(implementations[i].name.as_str());
        i = i + 1;
    }
    proof {
        assert(texts(names@) =~= implementation_names(implementations@));
    }
    names
}

/// The queries of each tier of the input have names that can stand in
/// benchmark names and tell them apart within the tier.
pub open spec fn queries_well_named(input: Input) -> bool {
    forall|tier: Tier|
        all_slash_free(query_names(#[trigger] input.spec_queries(tier))) && distinct(
            query_names(input.spec_queries(tier)),
        )
}

/// Decides whether the queries of an input are well named.
fn has_well_named_queries(input: &Input) -> (named: bool)
    ensures
        named == queries_well_named(*input),
{
    let never = usable(&names_of_queries(&input.never));
    let rare = usable(&names_of_queries(&input.rare));
    let common = usable(&names_of_queries(&input.common));
    proof {
        assert(input.spec_queries(Tier::Never) == input.never@);
        assert(input.spec_queries(Tier::Rare) == input.rare@);
        assert(input.spec_queries(Tier::Common) == input.common@);
        if never && rare && common {
            assert forall|tier: Tier|
                all_slash_free(query_names(#[trigger] input.spec_queries(tier))) && distinct(
                    query_names(input.spec_queries(tier)),
                ) by {
                match tier {
                    Tier::Never => {},
                    Tier::Rare => {},
                    Tier::Common => {},
                }
            }
        }
    }
    never && rare && common
}

/// Decides whether the catalog and the implementations are well named, so
/// that the names of the matrix are unique and read back as written.
pub fn is_well_named(catalog: &Vec<Input>, implementations: &Vec<Implementation>) -> (named: bool)
    ensures
        named == well_named(catalog@, implementations@),
{
    if !usable(&names_of_inputs(catalog)) {
        return false;
    }
    if !usable(&names_of_implementations(implementations)) {
        return false;
    }
    let mut i: usize = 0;
    while i < catalog.len()
        invariant
            i <= catalog@.len(),
            forall|k: int| 0 <= k < i ==> queries_well_named(#[trigger] catalog@[k]),
        decreases catalog@.len() - i,
    {
        if !has_well_named_queries(&catalog[i]) {
            proof {
                let tier = choose|tier: Tier|
                    !(all_slash_free(query_names(#[trigger] catalog@[i as int].spec_queries(tier)))
                        && distinct(query_names(catalog@[i as int].spec_queries(tier))));
                assert(!(all_slash_free(query_names(catalog@[i as int].spec_queries(tier)))
                    && distinct(query_names(catalog@[i as int].spec_queries(tier)))));
            }
            return false;
        }
        i = i + 1;
    }
    proof {
        assert forall|k: int, tier: Tier| 0 <= k < catalog@.len() implies all_slash_free(
            query_names(#[trigger] catalog@[k].spec_queries(tier)),
        ) && distinct(query_names(catalog@[k].spec_queries(tier))) by {
            assert(queries_well_named(catalog@[k]));
        }
    }
    true
}

} // verus!
