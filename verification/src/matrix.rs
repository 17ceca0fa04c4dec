//! The matrix driver: which combinations of input, query, implementation,
//! mode and direction become benchmarks, and in what order.

use vstd::prelude::*;

use crate::catalog::{well_named, Implementation, Input, Query};
use crate::laws::{lemma_expansion_plans, lemma_modes, lemma_names_unique};
use crate::model::{Capabilities, Direction, Mode, Outcome, Tier};
use crate::name::{benchmark_name, NameView};

verus! {

/// One benchmark of the plan: its name, where its corpus and needle are
/// found in the catalog, which implementation runs it and how, and what
/// every iteration must observe.
#[derive(Clone, Debug)]
pub struct Benchmark {
    pub name: String,
    /// The index of the input in the catalog; its corpus is searched.
    pub input: usize,
    pub tier: Tier,
    /// The index of the query among the input's queries of that tier.
    pub query: usize,
    /// The index of the implementation in the set.
    pub implementation: usize,
    pub mode: Mode,
    pub direction: Direction,
    pub expected: Outcome,
}

/// A benchmark as plain values.
pub struct BenchmarkView {
    pub name: Seq<char>,
    pub input: int,
    pub tier: Tier,
    pub query: int,
    pub implementation: int,
    pub mode: Mode,
    pub direction: Direction,
    pub expected: Outcome,
}

impl View for Benchmark {
    type V = BenchmarkView;

    open spec fn view(&self) -> BenchmarkView {
        BenchmarkView {
            name: self.name@,
            input: self.input as int,
            tier: self.tier,
            query: self.query as int,
            implementation: self.implementation as int,
            mode: self.mode,
            direction: self.direction,
            expected: self.expected,
        }
    }
}

/// A plan as plain values.
pub open spec fn views(plan: Seq<Benchmark>) -> Seq<BenchmarkView> {
    plan.map_values(|benchmark: Benchmark| benchmark@)
}

/// One point of the matrix: an input, one of its queries, an
/// implementation, a mode and a direction.
pub struct Combination {
    pub input: int,
    pub tier: Tier,
    pub query: int,
    pub implementation: int,
    pub mode: Mode,
    pub direction: Direction,
}

impl Combination {
    /// The point names an input, one of its queries and an implementation.
    pub open spec fn in_range(
        self,
        catalog: Seq<Input>,
        implementations: Seq<Implementation>,
    ) -> bool {
        &&& 0 <= self.input < catalog.len()
        &&& 0 <= self.query < catalog[self.input].spec_queries(self.tier).len()
        &&& 0 <= self.implementation < implementations.len()
    }

    /// The query of the point.
    pub open spec fn query_of(self, catalog: Seq<Input>) -> Query {
        catalog[self.input].spec_queries(self.tier)[self.query]
    }

    /// The point becomes a benchmark: its mode admits the query's count,
    /// and the implementation supports the mode in the direction for the
    /// query's needle.
    pub open spec fn generated(
        self,
        catalog: Seq<Input>,
        implementations: Seq<Implementation>,
    ) -> bool {
        &&& self.in_range(catalog, implementations)
        &&& self.mode.spec_admits(self.query_of(catalog).count)
        &&& implementations[self.implementation].spec_available(
            self.query_of(catalog).needle@,
        ).spec_supports(self.mode, self.direction)
    }

    /// The components of the point's name.
    pub open spec fn parts(
        self,
        catalog: Seq<Input>,
        implementations: Seq<Implementation>,
    ) -> NameView {
        NameView {
            direction: self.direction,
            implementation: implementations[self.implementation].name@,
            mode: self.mode,
            input: catalog[self.input].name@,
            tier: self.tier,
            query: self.query_of(catalog).name@,
        }
    }

    /// The benchmark of the point.
    pub open spec fn benchmark(
        self,
        catalog: Seq<Input>,
        implementations: Seq<Implementation>,
    ) -> BenchmarkView {
        BenchmarkView {
            name: self.parts(catalog, implementations).text(),
            input: self.input,
            tier: self.tier,
            query: self.query,
            implementation: self.implementation,
            mode: self.mode,
            direction: self.direction,
            expected: self.mode.spec_expected(self.query_of(catalog).count),
        }
    }

    /// What the point adds to the plan: its benchmark, or nothing.
    pub open spec fn emitted(
        self,
        catalog: Seq<Input>,
        implementations: Seq<Implementation>,
    ) -> Seq<BenchmarkView> {
        if self.generated(catalog, implementations) {
            seq![self.benchmark(catalog, implementations)]
        } else {
            Seq::empty()
        }
    }

    /// The order of generation: by input, tier, query, implementation and
    /// mode, forward before reverse.
    pub open spec fn precedes(self, other: Combination) -> bool {
        lexicographic(self.key(), other.key())
    }

    /// The point's place in the order of generation.
    pub open spec fn key(self) -> Key {
        Key {
            input: self.input,
            tier: self.tier.rank(),
            query: self.query,
            implementation: self.implementation,
            mode: self.mode.rank(),
            direction: self.direction.rank(),
        }
    }
}

impl BenchmarkView {
    /// The point of the matrix that the benchmark stands at.
    pub open spec fn combination(self) -> Combination {
        Combination {
            input: self.input,
            tier: self.tier,
            query: self.query,
            implementation: self.implementation,
            mode: self.mode,
            direction: self.direction,
        }
    }
}

/// Six numbers that place a point in the order of generation.
pub struct Key {
    pub input: int,
    pub tier: int,
    pub query: int,
    pub implementation: int,
    pub mode: int,
    pub direction: int,
}

/// The first key comes strictly before the second, the earlier numbers
/// deciding before the later.
pub open spec fn lexicographic(a: Key, b: Key) -> bool {
    if a.input != b.input {
        a.input < b.input
    } else if a.tier != b.tier {
        a.tier < b.tier
    } else if a.query != b.query {
        a.query < b.query
    } else if a.implementation != b.implementation {
        a.implementation < b.implementation
    } else if a.mode != b.mode {
        a.mode < b.mode
    } else {
        a.direction < b.direction
    }
}

/// The modes, in the order in which the benchmarks of one query and one
/// implementation are generated.
pub const MODES: [Mode; 4] = [Mode::Oneshot, Mode::Prebuilt, Mode::OneshotIter, Mode::PrebuiltIter];

/// The modes of the table stand in the order of their ranks, none twice.
pub open spec fn increasing(modes: Seq<Mode>) -> bool {
    forall|a: int, b: int| 0 <= a < b < modes.len() ==> modes[a].rank() < modes[b].rank()
}

/// The plan is exactly the generated points of the given modes, each once,
/// in the order of generation: every entry is the benchmark of a point
/// whose mode is one of the given, whose mode admits the query's count and
/// whose implementation supports the mode in the direction for the query's
/// needle; every such point has its benchmark in the plan; and of two
/// entries the earlier stands at the earlier point.
pub open spec fn plans(
    plan: Seq<BenchmarkView>,
    catalog: Seq<Input>,
    implementations: Seq<Implementation>,
    modes: Seq<Mode>,
) -> bool {
    &&& forall|p: int|
        0 <= p < plan.len() ==> modes.contains((#[trigger] plan[p]).mode)
            && plan[p].combination().generated(catalog, implementations) && plan[p]
            == plan[p].combination().benchmark(catalog, implementations)
    &&& forall|c: Combination| #[trigger]
        c.generated(catalog, implementations) && modes.contains(c.mode) ==> plan.contains(
            c.benchmark(catalog, implementations),
        )
    &&& forall|p: int, q: int|
        0 <= p < q < plan.len() ==> (#[trigger] plan[p]).combination().precedes(
            (#[trigger] plan[q]).combination(),
        )
}

/// The benchmarks of one query and one implementation in one mode: forward,
/// then reverse.
pub open spec fn mode_slice(
    catalog: Seq<Input>,
    implementations: Seq<Implementation>,
    input: int,
    tier: Tier,
    query: int,
    implementation: int,
    mode: Mode,
) -> Seq<BenchmarkView> {
    (Combination {
        input,
        tier,
        query,
        implementation,
        mode,
        direction: Direction::Forward,
    }).emitted(catalog, implementations) + (Combination {
        input,
        tier,
        query,
        implementation,
        mode,
        direction: Direction::Reverse,
    }).emitted(catalog, implementations)
}

/// The benchmarks of one query and one implementation in the first `upto`
/// of the modes.
pub open spec fn implementation_slice(
    catalog: Seq<Input>,
    implementations: Seq<Implementation>,
    modes: Seq<Mode>,
    input: int,
    tier: Tier,
    query: int,
    implementation: int,
    upto: int,
) -> Seq<BenchmarkView>
    decreases upto,
{
    if upto <= 0 {
        Seq::empty()
    } else {
        implementation_slice(
            catalog,
            implementations,
            modes,
            input,
            tier,
            query,
            implementation,
            upto - 1,
        ) + mode_slice(catalog, implementations, input, tier, query, implementation, modes[upto - 1])
    }
}

/// The benchmarks of one query for the first `upto` implementations.
pub open spec fn query_slice(
    catalog: Seq<Input>,
    implementations: Seq<Implementation>,
    modes: Seq<Mode>,
    input: int,
    tier: Tier,
    query: int,
    upto: int,
) -> Seq<BenchmarkView>
    decreases upto,
{
    if upto <= 0 {
        Seq::empty()
    } else {
        query_slice(catalog, implementations, modes, input, tier, query, upto - 1)
            + implementation_slice(
            catalog,
            implementations,
            modes,
            input,
            tier,
            query,
            upto - 1,
            modes.len() as int,
        )
    }
}

/// The benchmarks of the first `upto` queries of one tier of one input.
pub open spec fn tier_slice(
    catalog: Seq<Input>,
    implementations: Seq<Implementation>,
    modes: Seq<Mode>,
    input: int,
    tier: Tier,
    upto: int,
) -> Seq<BenchmarkView>
    decreases upto,
{
    if upto <= 0 {
        Seq::empty()
    } else {
        tier_slice(catalog, implementations, modes, input, tier, upto - 1) + query_slice(
            catalog,
            implementations,
            modes,
            input,
            tier,
            upto - 1,
            implementations.len() as int,
        )
    }
}

/// The benchmarks of one input: its queries that never match, then those
/// that match rarely, then those that match often.
pub open spec fn input_slice(
    catalog: Seq<Input>,
    implementations: Seq<Implementation>,
    modes: Seq<Mode>,
    input: int,
) -> Seq<BenchmarkView> {
    tier_slice(
        catalog,
        implementations,
        modes,
        input,
        Tier::Never,
        catalog[input].never@.len() as int,
    ) + tier_slice(
        catalog,
        implementations,
        modes,
        input,
        Tier::Rare,
        catalog[input].rare@.len() as int,
    ) + tier_slice(
        catalog,
        implementations,
        modes,
        input,
        Tier::Common,
        catalog[input].common@.len() as int,
    )
}

/// The benchmarks of the first `upto` inputs in the given modes.
pub open spec fn expansion(
    catalog: Seq<Input>,
    implementations: Seq<Implementation>,
    modes: Seq<Mode>,
    upto: int,
) -> Seq<BenchmarkView>
    decreases upto,
{
    if upto <= 0 {
        Seq::empty()
    } else {
        expansion(catalog, implementations, modes, upto - 1) + input_slice(
            catalog,
            implementations,
            modes,
            upto - 1,
        )
    }
}

/// The benchmarks of the whole catalog in one mode.
pub open spec fn pass(
    catalog: Seq<Input>,
    implementations: Seq<Implementation>,
    mode: Mode,
) -> Seq<BenchmarkView> {
    expansion(catalog, implementations, seq![mode], catalog.len() as int)
}

/// The whole matrix: the benchmarks of the whole catalog in every mode.
pub open spec fn matrix(
    catalog: Seq<Input>,
    implementations: Seq<Implementation>,
) -> Seq<BenchmarkView> {
    expansion(catalog, implementations, MODES@, catalog.len() as int)
}

/// Appends the benchmarks of one query and one implementation in one mode,
/// given what the implementation supports for the query's needle.
fn emit(
    catalog: &Vec<Input>,
    implementations: &Vec<Implementation>,
    input: usize,
    tier: Tier,
    query: usize,
    implementation: usize,
    available: Capabilities,
    mode: Mode,
    plan: &mut Vec<Benchmark>,
)
    requires
        input < catalog@.len(),
        query < catalog@[input as int].spec_queries(tier).len(),
        implementation < implementations@.len(),
        available == implementations@[implementation as int].spec_available(
            catalog@[input as int].spec_queries(tier)[query as int].needle@,
        ),
    ensures
        views(final(plan)@) == views(old(plan)@) + mode_slice(
            catalog@,
            implementations@,
            input as int,
            tier,
            query as int,
            implementation as int,
            mode,
        ),
{
    let ghost start = views(plan@);
    let entry = &catalog[input];
    let asked = &entry.queries(tier)[query];
    let candidate = &implementations[implementation];
    if mode.admits(asked.count) && available.has(mode) {
        let ghost before = plan@;
        plan.push(
            Benchmark {
                name: benchmark_name(
                    Direction::Forward,
                    candidate.name.as_str(),
                    mode,
                    entry.name.as_str(),
                    tier,
                    asked.name.as_str(),
                ),
                input,
                tier,
                query,
                implementation,
                mode,
                direction: Direction::Forward,
                expected: mode.expected(asked.count),
            },
        );
        proof {
            assert(views(plan@) =~= views(before).push(plan@.last()@));
        }
        if available.reverse {
            let ghost before = plan@;
            plan.push(
                Benchmark {
                    name: benchmark_name(
                        Direction::Reverse,
                        candidate.name.as_str(),
                        mode,
                        entry.name.as_str(),
                        tier,
                        asked.name.as_str(),
                    ),
                    input,
                    tier,
                    query,
                    implementation,
                    mode,
                    direction: Direction::Reverse,
                    expected: mode.expected(asked.count),
                },
            );
            proof {
                assert(views(plan@) =~= views(before).push(plan@.last()@));
            }
        }
    }
    proof {
        assert(views(plan@) =~= start + mode_slice(
            catalog@,
            implementations@,
            input as int,
            tier,
            query as int,
            implementation as int,
            mode,
        ));
    }
}

/// Appends the benchmarks of one query and one implementation: asks once
/// what the implementation supports for the needle, then goes through the
/// modes.
fn expand_implementation(
    catalog: &Vec<Input>,
    implementations: &Vec<Implementation>,
    modes: &[Mode],
    input: usize,
    tier: Tier,
    query: usize,
    implementation: usize,
    plan: &mut Vec<Benchmark>,
)
    requires
        input < catalog@.len(),
        query < catalog@[input as int].spec_queries(tier).len(),
        implementation < implementations@.len(),
    ensures
        views(final(plan)@) == views(old(plan)@) + implementation_slice(
            catalog@,
            implementations@,
            modes@,
            input as int,
            tier,
            query as int,
            implementation as int,
            modes@.len() as int,
        ),
{
    let ghost start = views(plan@);
    let asked = &catalog[input].queries(tier)[query];
    let available = implementations[implementation].available(asked.needle.as_slice());
    let mut at: usize = 0;
    while at < modes.len()
        invariant
            at <= modes@.len(),
            input < catalog@.len(),
            query < catalog@[input as int].spec_queries(tier).len(),
            implementation < implementations@.len(),
            available == implementations@[implementation as int].spec_available(
                catalog@[input as int].spec_queries(tier)[query as int].needle@,
            ),
            views(plan@) == start + implementation_slice(
                catalog@,
                implementations@,
                modes@,
                input as int,
                tier,
                query as int,
                implementation as int,
                at as int,
            ),
        decreases modes@.len() - at,
    {
        emit(
            catalog,
            implementations,
            input,
            tier,
            query,
            implementation,
            available,
            modes[at],
            plan,
        );
        at = at + 1;
    }
}

/// Appends the benchmarks of one query, implementation by implementation.
fn expand_query(
    catalog: &Vec<Input>,
    implementations: &Vec<Implementation>,
    modes: &[Mode],
    input: usize,
    tier: Tier,
    query: usize,
    plan: &mut Vec<Benchmark>,
)
    requires
        input < catalog@.len(),
        query < catalog@[input as int].spec_queries(tier).len(),
    ensures
        views(final(plan)@) == views(old(plan)@) + query_slice(
            catalog@,
            implementations@,
            modes@,
            input as int,
            tier,
            query as int,
            implementations@.len() as int,
        ),
{
    let ghost start = views(plan@);
    let mut implementation: usize = 0;
    while implementation < implementations.len()
        invariant
            implementation <= implementations@.len(),
            input < catalog@.len(),
            query < catalog@[input as int].spec_queries(tier).len(),
            views(plan@) == start + query_slice(
                catalog@,
                implementations@,
                modes@,
                input as int,
                tier,
                query as int,
                implementation as int,
            ),
        decreases implementations@.len() - implementation,
    {
        expand_implementation(
            catalog,
            implementations,
            modes,
            input,
            tier,
            query,
            implementation,
            plan,
        );
        implementation = implementation + 1;
    }
}

/// Appends the benchmarks of one tier of one input, query by query.
fn expand_tier(
    catalog: &Vec<Input>,
    implementations: &Vec<Implementation>,
    modes: &[Mode],
    input: usize,
    tier: Tier,
    plan: &mut Vec<Benchmark>,
)
    requires
        input < catalog@.len(),
    ensures
        views(final(plan)@) == views(old(plan)@) + tier_slice(
            catalog@,
            implementations@,
            modes@,
            input as int,
            tier,
            catalog@[input as int].spec_queries(tier).len() as int,
        ),
{
    let ghost start = views(plan@);
    let count = catalog[input].queries(tier).len();
    let mut query: usize = 0;
    while query < count
        invariant
            query <= count,
            input < catalog@.len(),
            count == catalog@[input as int].spec_queries(tier).len(),
            views(plan@) == start + tier_slice(
                catalog@,
                implementations@,
                modes@,
                input as int,
                tier,
                query as int,
            ),
        decreases count - query,
    {
        expand_query(catalog, implementations, modes, input, tier, query, plan);
        query = query + 1;
    }
}

/// The matrix driver: plans the benchmarks of the catalog in the given
/// modes. It walks the inputs, of each input the tiers, of each tier the
/// queries, and for each query the implementations; for each implementation
/// it goes through the modes and, within a mode, the directions.
pub fn expand(catalog: &Vec<Input>, implementations: &Vec<Implementation>, modes: &[Mode]) -> (plan:
    Vec<Benchmark>)
    ensures
        views(plan@) == expansion(catalog@, implementations@, modes@, catalog@.len() as int),
        increasing(modes@) ==> plans(views(plan@), catalog@, implementations@, modes@),
{
    let mut plan: Vec<Benchmark> = Vec::new();
    let mut input: usize = 0;
    while input < catalog.len()
        invariant
            input <= catalog@.len(),
            views(plan@) == expansion(catalog@, implementations@, modes@, input as int),
        decreases catalog@.len() - input,
    {
        expand_tier(catalog, implementations, modes, input, Tier::Never, &mut plan);
        expand_tier(catalog, implementations, modes, input, Tier::Rare, &mut plan);
        expand_tier(catalog, implementations, modes, input, Tier::Common, &mut plan);
        input = input + 1;
    }
    proof {
        if increasing(modes@) {
            lemma_expansion_plans(catalog@, implementations@, modes@);
        }
    }
    plan
}

/// Plans the benchmarks of one mode.
fn expand_mode(catalog: &Vec<Input>, implementations: &Vec<Implementation>, mode: Mode) -> (plan:
    Vec<Benchmark>)
    ensures
        views(plan@) == pass(catalog@, implementations@, mode),
        plans(views(plan@), catalog@, implementations@, seq![mode]),
{
    let modes = [mode];
    proof {
        assert(modes@ =~= seq![mode]);
    }
    expand(catalog, implementations, modes.as_slice())
}

/// Plans the single searches that measure the construction of the searcher
/// too.
pub fn oneshot(catalog: &Vec<Input>, implementations: &Vec<Implementation>) -> (plan: Vec<
    Benchmark,
>)
    ensures
        views(plan@) == pass(catalog@, implementations@, Mode::Oneshot),
        plans(views(plan@), catalog@, implementations@, seq![Mode::Oneshot]),
{
    expand_mode(catalog, implementations, Mode::Oneshot)
}

/// Plans the single searches with a searcher built beforehand.
pub fn prebuilt(catalog: &Vec<Input>, implementations: &Vec<Implementation>) -> (plan: Vec<
    Benchmark,
>)
    ensures
        views(plan@) == pass(catalog@, implementations@, Mode::Prebuilt),
        plans(views(plan@), catalog@, implementations@, seq![Mode::Prebuilt]),
{
    expand_mode(catalog, implementations, Mode::Prebuilt)
}

/// Plans the counts of all matches that measure the construction of the
/// searcher too.
pub fn oneshot_iter(catalog: &Vec<Input>, implementations: &Vec<Implementation>) -> (plan: Vec<
    Benchmark,
>)
    ensures
        views(plan@) == pass(catalog@, implementations@, Mode::OneshotIter),
        plans(views(plan@), catalog@, implementations@, seq![Mode::OneshotIter]),
{
    expand_mode(catalog, implementations, Mode::OneshotIter)
}

/// Plans the counts of all matches with a searcher built beforehand.
pub fn prebuilt_iter(catalog: &Vec<Input>, implementations: &Vec<Implementation>) -> (plan: Vec<
    Benchmark,
>)
    ensures
        views(plan@) == pass(catalog@, implementations@, Mode::PrebuiltIter),
        plans(views(plan@), catalog@, implementations@, seq![Mode::PrebuiltIter]),
{
    expand_mode(catalog, implementations, Mode::PrebuiltIter)
}

/// Plans the whole matrix: every mode in one walk over the catalog.
pub fn searches(catalog: &Vec<Input>, implementations: &Vec<Implementation>) -> (plan: Vec<
    Benchmark,
>)
    ensures
        views(plan@) == matrix(catalog@, implementations@),
        plans(views(plan@), catalog@, implementations@, MODES@),
        well_named(catalog@, implementations@) ==> forall|p: int, q: int|
            0 <= p < q < plan@.len() ==> (#[trigger] plan@[p]).name@ != (#[trigger] plan@[q]).name@,
{
    proof {
        lemma_modes();
    }
    let plan = expand(catalog, implementations, MODES.as_slice());
    proof {
        if well_named(catalog@, implementations@) {
            lemma_names_unique(views(plan@), catalog@, implementations@, MODES@);
            assert forall|p: int, q: int| 0 <= p < q < plan@.len() implies (#[trigger] plan@[p]).name@
                != (#[trigger] plan@[q]).name@ by {
                assert(views(plan@)[p] == plan@[p]@);
                assert(views(plan@)[q] == plan@[q]@);
            }
        }
    }
    plan
}

} // verus!
